//! The direct-execution model: what running an action amounts to, as data.
//! Each action resolves to a sequence of external tool invocations (binary,
//! arguments, working directory, piped input); the caller spawns them in
//! order. `AssertDefaultBranch` is the one action whose invocations are not
//! a function of the action alone — its second query takes the first
//! query's output — so it is exposed as individual query builders plus the
//! concluding consistency check.

use vstd::prelude::*;
use vstd::string::StringExecFns;

use crate::Context;
use crate::actions::{
    Action, ActionV, CratesIOAction, CratesIOActionV, GithubAction, GithubActionV, LocalAction,
    LocalActionV, view_opt_string, view_strings,
};
use crate::compile::{spec_release_pr_title, spec_release_title};
use crate::{spec_cargo_bin, spec_gh_bin};

verus! {

/// One external tool invocation: spawn `program` with `args`, in
/// `working_dir`, feeding `stdin_data` (if any) to its standard input.
#[derive(Debug, Clone, PartialEq)]
pub struct Invocation {
    pub working_dir: String,
    pub program: String,
    pub args: Vec<String>,
    pub stdin_data: Option<String>,
}

/// Mathematical model of an invocation.
pub struct InvocationV {
    pub working_dir: Seq<char>,
    pub program: Seq<char>,
    pub args: Seq<Seq<char>>,
    pub stdin_data: Option<Seq<char>>,
}

impl View for Invocation {
    type V = InvocationV;

    open spec fn view(&self) -> InvocationV {
        InvocationV {
            working_dir: self.working_dir@,
            program: self.program@,
            args: self.args.deep_view(),
            stdin_data: view_opt_string(self.stdin_data),
        }
    }
}

impl DeepView for Invocation {
    type V = InvocationV;

    open spec fn deep_view(&self) -> InvocationV {
        self.view()
    }
}

/// The invocations of a registry action: one call of the package manager.
pub open spec fn spec_crates_io_invocations(
    a: CratesIOActionV,
    repository: Seq<char>,
    cargo: Seq<char>,
) -> Seq<InvocationV> {
    match a {
        CratesIOActionV::AddOwner { crate_name, login_value } => seq![
            InvocationV {
                working_dir: repository,
                program: cargo,
                args: seq!["owner"@, "--add"@, login_value, crate_name],
                stdin_data: None,
            },
        ],
        CratesIOActionV::RemoveOwner { crate_name, login_value } => seq![
            InvocationV {
                working_dir: repository,
                program: cargo,
                args: seq!["owner"@, "--remove"@, login_value, crate_name],
                stdin_data: None,
            },
        ],
        CratesIOActionV::Publish { crate_name, dry_run } => seq![
            InvocationV {
                working_dir: repository,
                program: cargo,
                args: seq!["publish"@] + (if dry_run {
                    seq!["--dry-run"@]
                } else {
                    Seq::<Seq<char>>::empty()
                }) + seq!["--package"@, crate_name],
                stdin_data: None,
            },
        ],
    }
}

/// The invocations of a hosting-service action: one call of the hosting CLI.
pub open spec fn spec_github_invocations(
    a: GithubActionV,
    repository: Seq<char>,
    gh: Seq<char>,
) -> Seq<InvocationV> {
    match a {
        GithubActionV::CreateReleasePR { crate_name, new_version } => seq![
            InvocationV {
                working_dir: repository,
                program: gh,
                args: seq![
                    "pr"@,
                    "create"@,
                    "--title"@,
                    spec_release_pr_title(crate_name, new_version),
                    "--assignee"@,
                    "@me"@,
                ],
                stdin_data: None,
            },
        ],
        GithubActionV::CreateRelease { crate_name, tag, version } => seq![
            InvocationV {
                working_dir: repository,
                program: gh,
                args: seq![
                    "release"@,
                    "create"@,
                    tag,
                    "--latest"@,
                    "--notes-from-tag"@,
                    "--verify-tag"@,
                    "--title"@,
                    spec_release_title(crate_name, version),
                ],
                stdin_data: None,
            },
        ],
    }
}

/// The invocation creating one annotated tag: the tag name is the
/// annotation message, piped over standard input.
pub open spec fn spec_tag_invocation(tag: Seq<char>, repository: Seq<char>) -> InvocationV {
    InvocationV {
        working_dir: repository,
        program: "git"@,
        args: seq!["tag"@, "--annotate"@, "--file"@, "-"@, tag],
        stdin_data: Some(tag),
    }
}

/// The invocations of a local action, when they are a function of the
/// action alone: `None` exactly for `AssertDefaultBranch`. An empty tag
/// list yields no invocations: the action is a no-op.
pub open spec fn spec_local_invocations(
    a: LocalActionV,
    repository: Seq<char>,
) -> Option<Seq<InvocationV>> {
    match a {
        LocalActionV::AssertDefaultBranch => None,
        LocalActionV::CreateTags { new_tags } => Some(
            new_tags.map_values(|t: Seq<char>| spec_tag_invocation(t, repository)),
        ),
        LocalActionV::PublishTags { tags, remote } => Some(
            if tags.len() == 0 {
                Seq::empty()
            } else {
                seq![
                    InvocationV {
                        working_dir: repository,
                        program: "git"@,
                        args: seq![
                            "push"@,
                            match remote {
                                Some(r) => r,
                                None => "upstream"@,
                            },
                        ] + tags,
                        stdin_data: None,
                    },
                ]
            },
        ),
    }
}

/// The invocations of any action, when they are a function of the action
/// alone.
pub open spec fn spec_action_invocations(a: ActionV, cargo: Seq<char>, gh: Seq<char>) -> Option<
    Seq<InvocationV>,
> {
    match a {
        ActionV::CratesIO { repository, inner } => Some(
            spec_crates_io_invocations(inner, repository, cargo),
        ),
        ActionV::Github { repository, inner } => Some(
            spec_github_invocations(inner, repository, gh),
        ),
        ActionV::Local { repository, inner } => spec_local_invocations(inner, repository),
    }
}

impl CratesIOAction {
    /// The package-manager call direct execution performs for this action.
    pub fn invocations(&self, repository: &str, context: &Context) -> (r: Vec<Invocation>)
        ensures
            r.deep_view() == spec_crates_io_invocations(
                self@,
                repository@,
                spec_cargo_bin(*context),
            ),
    {
        let cargo = context.cargo_bin_name();
        let mut args: Vec<String> = Vec::new();
        match self {
            CratesIOAction::AddOwner { crate_name, login_value } => {
                args.push("owner".to_owned());
                args.push("--add".to_owned());
                args.push(login_value.clone());
                args.push(crate_name.clone());
            },
            CratesIOAction::RemoveOwner { crate_name, login_value } => {
                args.push("owner".to_owned());
                args.push("--remove".to_owned());
                args.push(login_value.clone());
                args.push(crate_name.clone());
            },
            CratesIOAction::Publish { crate_name, dry_run } => {
                args.push("publish".to_owned());
                if *dry_run {
                    args.push("--dry-run".to_owned());
                }
                args.push("--package".to_owned());
                args.push(crate_name.clone());
            },
        }
        let inv = Invocation {
            working_dir: repository.to_owned(),
            program: cargo,
            args,
            stdin_data: None,
        };
        let mut r: Vec<Invocation> = Vec::new();
        r.push(inv);
        proof {
            let target = spec_crates_io_invocations(self@, repository@, spec_cargo_bin(*context));
            assert(r.deep_view().len() == 1);
            assert(r.deep_view()[0].args =~= target[0].args);
            assert(r.deep_view()[0] == target[0]);
            assert(r.deep_view() =~= target);
        }
        r
    }
}

impl GithubAction {
    /// The hosting-CLI call direct execution performs for this action.
    pub fn invocations(&self, repository: &str, context: &Context) -> (r: Vec<Invocation>)
        ensures
            r.deep_view() == spec_github_invocations(self@, repository@, spec_gh_bin(*context)),
    {
        let gh = context.gh_bin_name();
        let mut args: Vec<String> = Vec::new();
        match self {
            GithubAction::CreateReleasePR { crate_name, new_version } => {
                let mut title = "Bump ".to_owned();
                title.append(crate_name.as_str());
                title.append(" to v");
                title.append(new_version.as_str());
                args.push("pr".to_owned());
                args.push("create".to_owned());
                args.push("--title".to_owned());
                args.push(title);
                args.push("--assignee".to_owned());
                args.push("@me".to_owned());
            },
            GithubAction::CreateRelease { crate_name, tag, version } => {
                let mut title = crate_name.clone();
                title.append("-v");
                title.append(version.as_str());
                args.push("release".to_owned());
                args.push("create".to_owned());
                args.push(tag.clone());
                args.push("--latest".to_owned());
                args.push("--notes-from-tag".to_owned());
                args.push("--verify-tag".to_owned());
                args.push("--title".to_owned());
                args.push(title);
            },
        }
        let inv = Invocation {
            working_dir: repository.to_owned(),
            program: gh,
            args,
            stdin_data: None,
        };
        let mut r: Vec<Invocation> = Vec::new();
        r.push(inv);
        proof {
            let target = spec_github_invocations(self@, repository@, spec_gh_bin(*context));
            assert(r.deep_view().len() == 1);
            assert(r.deep_view()[0].args =~= target[0].args);
            assert(r.deep_view()[0] == target[0]);
            assert(r.deep_view() =~= target);
        }
        r
    }
}

impl LocalAction {
    /// The version-control calls direct execution performs for this action,
    /// or `None` for `AssertDefaultBranch`, whose calls are built step by
    /// step from intermediate outputs.
    pub fn invocations(&self, repository: &str) -> (r: Option<Vec<Invocation>>)
        ensures
            match r {
                Some(v) => spec_local_invocations(self@, repository@) == Some(v.deep_view()),
                None => spec_local_invocations(self@, repository@) is None,
            },
    {
        match self {
            LocalAction::AssertDefaultBranch => None,
            LocalAction::CreateTags { new_tags } => {
                let ghost target: Seq<InvocationV> = view_strings(new_tags@).map_values(
                    |t: Seq<char>| spec_tag_invocation(t, repository@),
                );
                let mut r: Vec<Invocation> = Vec::new();
                let mut i: usize = 0;
                while i < new_tags.len()
                    invariant
                        i <= new_tags@.len(),
                        target == view_strings(new_tags@).map_values(
                            |t: Seq<char>| spec_tag_invocation(t, repository@),
                        ),
                        r.deep_view() == target.subrange(0, i as int),
                    decreases new_tags@.len() - i,
                {
                    let mut args: Vec<String> = Vec::new();
                    args.push("tag".to_owned());
                    args.push("--annotate".to_owned());
                    args.push("--file".to_owned());
                    args.push("-".to_owned());
                    args.push(new_tags[i].clone());
                    let inv = Invocation {
                        working_dir: repository.to_owned(),
                        program: "git".to_owned(),
                        args,
                        stdin_data: Some(new_tags[i].clone()),
                    };
                    let ghost prev_dv = r.deep_view();
                    let ghost invv = inv@;
                    r.push(inv);
                    proof {
                        assert(invv.args =~= target[i as int].args);
                        assert(invv == target[i as int]);
                        assert forall|j: int| 0 <= j < prev_dv.len() implies r.deep_view()[j]
                            == prev_dv[j] by {}
                        assert(r.deep_view()[prev_dv.len() as int] == invv);
                        assert(r.deep_view() =~= target.subrange(0, i + 1));
                    }
                    i += 1;
                }
                assert(target.subrange(0, new_tags@.len() as int) =~= target);
                Some(r)
            },
            LocalAction::PublishTags { tags, remote } => {
                if tags.len() == 0 {
                    let r: Vec<Invocation> = Vec::new();
                    assert(r.deep_view() =~= Seq::<InvocationV>::empty());
                    return Some(r);
                }
                let mut args: Vec<String> = Vec::new();
                args.push("push".to_owned());
                match remote {
                    Some(rem) => args.push(rem.clone()),
                    None => args.push("upstream".to_owned()),
                }
                let ghost head: Seq<Seq<char>> = args.deep_view();
                let mut i: usize = 0;
                while i < tags.len()
                    invariant
                        i <= tags@.len(),
                        head.len() == 2,
                        args.deep_view() == head + view_strings(tags@).subrange(0, i as int),
                    decreases tags@.len() - i,
                {
                    let ghost prev_dv = args.deep_view();
                    let ghost tv = tags@[i as int]@;
                    args.push(tags[i].clone());
                    proof {
                        assert forall|j: int| 0 <= j < prev_dv.len() implies args.deep_view()[j]
                            == prev_dv[j] by {}
                        assert(args.deep_view()[prev_dv.len() as int] == tv);
                        assert(args.deep_view() =~= prev_dv.push(tv));
                        assert(view_strings(tags@)[i as int] == tv);
                        assert(view_strings(tags@).subrange(0, i + 1) =~= view_strings(
                            tags@,
                        ).subrange(0, i as int).push(tv));
                        assert(args.deep_view() =~= head + view_strings(tags@).subrange(
                            0,
                            i + 1,
                        ));
                    }
                    i += 1;
                }
                assert(view_strings(tags@).subrange(0, tags@.len() as int) =~= view_strings(
                    tags@,
                ));
                let inv = Invocation {
                    working_dir: repository.to_owned(),
                    program: "git".to_owned(),
                    args,
                    stdin_data: None,
                };
                let mut r: Vec<Invocation> = Vec::new();
                r.push(inv);
                proof {
                    let target = spec_local_invocations(self@, repository@)->Some_0;
                    assert(r.deep_view()[0].args =~= target[0].args);
                    assert(r.deep_view()[0] == target[0]);
                    assert(r.deep_view() =~= target);
                }
                Some(r)
            },
        }
    }
}

impl Action {
    /// The external tool invocations direct execution performs for this
    /// action, in order, when they are a function of the action alone:
    /// `None` exactly for `AssertDefaultBranch`.
    pub fn invocations(&self, context: &Context) -> (r: Option<Vec<Invocation>>)
        ensures
            match r {
                Some(v) => spec_action_invocations(
                    self@,
                    spec_cargo_bin(*context),
                    spec_gh_bin(*context),
                ) == Some(v.deep_view()),
                None => spec_action_invocations(
                    self@,
                    spec_cargo_bin(*context),
                    spec_gh_bin(*context),
                ) is None,
            },
    {
        match self {
            Action::CratesIO { repository, inner } => Some(
                inner.invocations(repository.as_str(), context),
            ),
            Action::Github { repository, inner } => Some(
                inner.invocations(repository.as_str(), context),
            ),
            Action::Local { repository, inner } => inner.invocations(repository.as_str()),
        }
    }
}

/// The hosting-CLI query for the repository's name.
pub fn repo_name_query(repository: &str, context: &Context) -> (r: Invocation)
    ensures
        r@.working_dir == repository@,
        r@.program == spec_gh_bin(*context),
        r@.args =~= seq!["repo"@, "view"@, "--json"@, "name"@, "--jq"@, ".name"@],
        r@.stdin_data is None,
{
    let mut args: Vec<String> = Vec::new();
    args.push("repo".to_owned());
    args.push("view".to_owned());
    args.push("--json".to_owned());
    args.push("name".to_owned());
    args.push("--jq".to_owned());
    args.push(".name".to_owned());
    Invocation {
        working_dir: repository.to_owned(),
        program: context.gh_bin_name(),
        args,
        stdin_data: None,
    }
}

/// The hosting-CLI query for the default branch of the named repository
/// under the expected organization.
pub fn default_branch_query(repository: &str, repo_name: &str, context: &Context) -> (r:
    Invocation)
    ensures
        r@.working_dir == repository@,
        r@.program == spec_gh_bin(*context),
        r@.args =~= seq![
            "api"@,
            "repos/rust-vmm/"@ + repo_name@,
            "--jq"@,
            ".default_branch"@,
        ],
        r@.stdin_data is None,
{
    let mut path = "repos/rust-vmm/".to_owned();
    path.append(repo_name);
    let mut args: Vec<String> = Vec::new();
    args.push("api".to_owned());
    args.push(path);
    args.push("--jq".to_owned());
    args.push(".default_branch".to_owned());
    Invocation {
        working_dir: repository.to_owned(),
        program: context.gh_bin_name(),
        args,
        stdin_data: None,
    }
}

/// The local version-control query for the currently checked out branch.
pub fn current_branch_query(repository: &str) -> (r: Invocation)
    ensures
        r@.working_dir == repository@,
        r@.program == "git"@,
        r@.args =~= seq!["rev-parse"@, "--abbrev-ref"@, "HEAD"@],
        r@.stdin_data is None,
{
    let mut args: Vec<String> = Vec::new();
    args.push("rev-parse".to_owned());
    args.push("--abbrev-ref".to_owned());
    args.push("HEAD".to_owned());
    Invocation {
        working_dir: repository.to_owned(),
        program: "git".to_owned(),
        args,
        stdin_data: None,
    }
}

/// The concluding consistency check of `AssertDefaultBranch`: succeeds
/// exactly when the checked out branch is the default branch; otherwise the
/// failure names both branches.
pub fn check_default_branch(current_branch: &str, default_branch: &str) -> (r: Result<
    (),
    String,
>)
    ensures
        r is Ok <==> current_branch@ == default_branch@,
        r matches Err(m) ==> m@ == "Currently checked out branch "@ + current_branch@
            + " is not the default branch (`"@ + default_branch@ + "`), please check it out."@,
{
    let cur = current_branch.to_owned();
    let def = default_branch.to_owned();
    if cur == def {
        Ok(())
    } else {
        let mut m = "Currently checked out branch ".to_owned();
        m.append(current_branch);
        m.append(" is not the default branch (`");
        m.append(default_branch);
        m.append("`), please check it out.");
        Err(m)
    }
}

} // verus!
