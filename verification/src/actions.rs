//! The tagged action vocabulary: a plan is an ordered list of items, each
//! binding one operation against one of three external domains to a target
//! repository checkout, together with a per-item failure policy.

use vstd::prelude::*;

verus! {

/// An ordered sequence of plan items; order is significant.
#[derive(Debug, Clone, PartialEq)]
pub struct Plan {
    pub items: Vec<PlanItem>,
}

/// One step of a plan: an action, an advisory description, and the policy
/// deciding whether the action's failure aborts the whole plan.
#[derive(Debug, Clone, PartialEq)]
pub struct PlanItem {
    /// Human readable description of item.
    pub description: Option<String>,
    pub action: Action,
    /// Report any errors but do not halt plan execution.
    pub continue_on_error: bool,
}

/// A tagged operation, bound to the local checkout it targets.
#[derive(Debug, Clone, PartialEq)]
pub enum Action {
    /// Interact with the crates.io HTTP API (through the package manager).
    CratesIO { repository: String, inner: CratesIOAction },
    /// Interact with the github.com HTTP API (through the hosting CLI).
    Github { repository: String, inner: GithubAction },
    /// Interact with the local git repository.
    Local { repository: String, inner: LocalAction },
}

/// Operations against the package registry.
#[derive(Debug, Clone, PartialEq)]
pub enum CratesIOAction {
    AddOwner { crate_name: String, login_value: String },
    RemoveOwner { crate_name: String, login_value: String },
    Publish { crate_name: String, dry_run: bool },
}

/// Operations against the repository-hosting service.
#[derive(Debug, Clone, PartialEq)]
pub enum GithubAction {
    CreateReleasePR { crate_name: String, new_version: String },
    CreateRelease { crate_name: String, tag: String, version: String },
}

/// Operations against the local checkout.
#[derive(Debug, Clone, PartialEq)]
pub enum LocalAction {
    /// Assert that the current checkout is on the default branch.
    AssertDefaultBranch,
    CreateTags { new_tags: Vec<String> },
    PublishTags { tags: Vec<String>, remote: Option<String> },
}

/// Mathematical model of a plan.
pub struct PlanV {
    pub items: Seq<PlanItemV>,
}

/// Mathematical model of a plan item.
pub struct PlanItemV {
    pub description: Option<Seq<char>>,
    pub action: ActionV,
    pub continue_on_error: bool,
}

/// Mathematical model of an action.
pub enum ActionV {
    CratesIO { repository: Seq<char>, inner: CratesIOActionV },
    Github { repository: Seq<char>, inner: GithubActionV },
    Local { repository: Seq<char>, inner: LocalActionV },
}

pub enum CratesIOActionV {
    AddOwner { crate_name: Seq<char>, login_value: Seq<char> },
    RemoveOwner { crate_name: Seq<char>, login_value: Seq<char> },
    Publish { crate_name: Seq<char>, dry_run: bool },
}

pub enum GithubActionV {
    CreateReleasePR { crate_name: Seq<char>, new_version: Seq<char> },
    CreateRelease { crate_name: Seq<char>, tag: Seq<char>, version: Seq<char> },
}

pub enum LocalActionV {
    AssertDefaultBranch,
    CreateTags { new_tags: Seq<Seq<char>> },
    PublishTags { tags: Seq<Seq<char>>, remote: Option<Seq<char>> },
}

/// The view of an optional string.
pub open spec fn view_opt_string(o: Option<String>) -> Option<Seq<char>> {
    match o {
        Some(s) => Some(s@),
        None => None,
    }
}

/// The views of a vector of strings.
pub open spec fn view_strings(v: Seq<String>) -> Seq<Seq<char>> {
    v.map_values(|s: String| s@)
}

impl View for CratesIOAction {
    type V = CratesIOActionV;

    open spec fn view(&self) -> CratesIOActionV {
        match self {
            CratesIOAction::AddOwner { crate_name, login_value } => CratesIOActionV::AddOwner {
                crate_name: crate_name@,
                login_value: login_value@,
            },
            CratesIOAction::RemoveOwner { crate_name, login_value } =>
                CratesIOActionV::RemoveOwner {
                crate_name: crate_name@,
                login_value: login_value@,
            },
            CratesIOAction::Publish { crate_name, dry_run } => CratesIOActionV::Publish {
                crate_name: crate_name@,
                dry_run: *dry_run,
            },
        }
    }
}

impl View for GithubAction {
    type V = GithubActionV;

    open spec fn view(&self) -> GithubActionV {
        match self {
            GithubAction::CreateReleasePR { crate_name, new_version } =>
                GithubActionV::CreateReleasePR {
                crate_name: crate_name@,
                new_version: new_version@,
            },
            GithubAction::CreateRelease { crate_name, tag, version } =>
                GithubActionV::CreateRelease {
                crate_name: crate_name@,
                tag: tag@,
                version: version@,
            },
        }
    }
}

impl View for LocalAction {
    type V = LocalActionV;

    open spec fn view(&self) -> LocalActionV {
        match self {
            LocalAction::AssertDefaultBranch => LocalActionV::AssertDefaultBranch,
            LocalAction::CreateTags { new_tags } => LocalActionV::CreateTags {
                new_tags: view_strings(new_tags@),
            },
            LocalAction::PublishTags { tags, remote } => LocalActionV::PublishTags {
                tags: view_strings(tags@),
                remote: view_opt_string(*remote),
            },
        }
    }
}

impl View for Action {
    type V = ActionV;

    open spec fn view(&self) -> ActionV {
        match self {
            Action::CratesIO { repository, inner } => ActionV::CratesIO {
                repository: repository@,
                inner: inner@,
            },
            Action::Github { repository, inner } => ActionV::Github {
                repository: repository@,
                inner: inner@,
            },
            Action::Local { repository, inner } => ActionV::Local {
                repository: repository@,
                inner: inner@,
            },
        }
    }
}

impl View for PlanItem {
    type V = PlanItemV;

    open spec fn view(&self) -> PlanItemV {
        PlanItemV {
            description: view_opt_string(self.description),
            action: self.action@,
            continue_on_error: self.continue_on_error,
        }
    }
}

impl View for Plan {
    type V = PlanV;

    open spec fn view(&self) -> PlanV {
        PlanV { items: self.items@.map_values(|it: PlanItem| it@) }
    }
}

impl ActionV {
    /// Every action is bound to exactly one target repository.
    pub open spec fn repository(self) -> Seq<char> {
        match self {
            ActionV::CratesIO { repository, .. } => repository,
            ActionV::Github { repository, .. } => repository,
            ActionV::Local { repository, .. } => repository,
        }
    }
}

} // verus!
