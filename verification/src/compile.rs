//! The shell-script compiler: every action is rendered as an ordered
//! sequence of POSIX shell statements, pinned down character by character by
//! the `spec_*_lines` functions. Each statement sequence begins with a
//! directory change into the target repository, and every mutating statement
//! carries the per-item failure policy as an `|| true` / `|| exit 1` suffix.

use vstd::prelude::*;
use vstd::string::StringExecFns;

use crate::Context;
use crate::actions::{
    Action, ActionV, CratesIOAction, CratesIOActionV, GithubAction, GithubActionV, LocalAction,
    LocalActionV, view_strings,
};
use crate::shell::{shell_quote, spec_shell_quoted};
use crate::{spec_cargo_bin, spec_gh_bin};

verus! {

/// The failure-policy suffix of one mutating statement.
pub open spec fn spec_policy_suffix(coe: bool) -> Seq<char> {
    if coe {
        " || true"@
    } else {
        " || exit 1"@
    }
}

/// The directory change that opens every nonempty statement sequence.
pub open spec fn spec_cd_line(repository: Seq<char>) -> Seq<char> {
    "cd "@ + spec_shell_quoted(repository) + " || exit 1"@
}

/// The pull-request title used for a release PR.
pub open spec fn spec_release_pr_title(crate_name: Seq<char>, new_version: Seq<char>) -> Seq<
    char,
> {
    "Bump "@ + crate_name + " to v"@ + new_version
}

/// The release title: tag name including the `v`.
pub open spec fn spec_release_title(crate_name: Seq<char>, version: Seq<char>) -> Seq<char> {
    crate_name + "-v"@ + version
}

/// The single mutating statement of a registry action.
pub open spec fn spec_crates_io_line(a: CratesIOActionV, coe: bool, cargo: Seq<char>) -> Seq<
    char,
> {
    match a {
        CratesIOActionV::AddOwner { crate_name, login_value } => spec_shell_quoted(cargo)
            + " owner --add "@ + spec_shell_quoted(login_value) + " "@ + spec_shell_quoted(
            crate_name,
        ) + spec_policy_suffix(coe),
        CratesIOActionV::RemoveOwner { crate_name, login_value } => spec_shell_quoted(cargo)
            + " owner --remove "@ + spec_shell_quoted(login_value) + " "@ + spec_shell_quoted(
            crate_name,
        ) + spec_policy_suffix(coe),
        CratesIOActionV::Publish { crate_name, dry_run } => spec_shell_quoted(cargo)
            + " publish"@ + (if dry_run {
            " --dry-run"@
        } else {
            Seq::<char>::empty()
        }) + " --package "@ + spec_shell_quoted(crate_name) + spec_policy_suffix(coe),
    }
}

/// The statement sequence of a registry action.
pub open spec fn spec_crates_io_lines(
    a: CratesIOActionV,
    coe: bool,
    repository: Seq<char>,
    cargo: Seq<char>,
) -> Seq<Seq<char>> {
    seq![spec_cd_line(repository), spec_crates_io_line(a, coe, cargo)]
}

/// The single mutating statement of a hosting-service action.
pub open spec fn spec_github_line(a: GithubActionV, coe: bool, gh: Seq<char>) -> Seq<char> {
    match a {
        GithubActionV::CreateReleasePR { crate_name, new_version } => spec_shell_quoted(gh)
            + " pr create --title "@ + spec_shell_quoted(
            spec_release_pr_title(crate_name, new_version),
        ) + " --assignee @me"@ + spec_policy_suffix(coe),
        GithubActionV::CreateRelease { crate_name, tag, version } => spec_shell_quoted(gh)
            + " release create "@ + spec_shell_quoted(tag)
            + " --latest --notes-from-tag --verify-tag --title "@ + spec_shell_quoted(
            spec_release_title(crate_name, version),
        ) + spec_policy_suffix(coe),
    }
}

/// The statement sequence of a hosting-service action.
pub open spec fn spec_github_lines(
    a: GithubActionV,
    coe: bool,
    repository: Seq<char>,
    gh: Seq<char>,
) -> Seq<Seq<char>> {
    seq![spec_cd_line(repository), spec_github_line(a, coe, gh)]
}

/// The statement creating one annotated tag, its name piped in as the
/// annotation message to avoid exposing it to argument parsing twice.
pub open spec fn spec_tag_create_line(tag: Seq<char>, coe: bool) -> Seq<char> {
    "printf %s "@ + spec_shell_quoted(tag) + " | git tag --annotate --file - "@
        + spec_shell_quoted(tag) + spec_policy_suffix(coe)
}

/// The quoted tag arguments of a push statement, one leading space each.
pub open spec fn spec_push_args(tags: Seq<Seq<char>>) -> Seq<char>
    decreases tags.len(),
{
    if tags.len() == 0 {
        Seq::empty()
    } else {
        " "@ + spec_shell_quoted(tags[0]) + spec_push_args(tags.skip(1))
    }
}

/// The statement pushing a set of tags to a remote.
pub open spec fn spec_publish_tags_line(
    tags: Seq<Seq<char>>,
    remote: Option<Seq<char>>,
    coe: bool,
) -> Seq<char> {
    "git push "@ + spec_shell_quoted(
        match remote {
            Some(r) => r,
            None => "upstream"@,
        },
    ) + spec_push_args(tags) + spec_policy_suffix(coe)
}

/// The statement sequence asserting that the checkout is on the default
/// branch: two read-only hosting-service queries, one local query, and the
/// comparison.
pub open spec fn spec_assert_default_branch_lines(repository: Seq<char>, gh: Seq<char>) -> Seq<
    Seq<char>,
> {
    seq![
        spec_cd_line(repository),
        "repo_name=$("@ + spec_shell_quoted(gh) + " repo view --json name --jq .name || exit 1)"@,
        "default_branch=$("@ + spec_shell_quoted(gh)
            + " api \"repos/rust-vmm/${repo_name}\" --jq .default_branch || exit 1)"@,
        "current_branch=$(git rev-parse --abbrev-ref HEAD || exit 1)"@,
        "[ \"${default_branch}\" != \"${current_branch}\" ] && exit 1"@,
    ]
}

/// The statement sequence of a local action. An action with an empty tag
/// list is a no-op and compiles to an empty sequence.
pub open spec fn spec_local_lines(
    a: LocalActionV,
    coe: bool,
    repository: Seq<char>,
    gh: Seq<char>,
) -> Seq<Seq<char>> {
    match a {
        LocalActionV::AssertDefaultBranch => spec_assert_default_branch_lines(repository, gh),
        LocalActionV::CreateTags { new_tags } => if new_tags.len() == 0 {
            Seq::empty()
        } else {
            seq![spec_cd_line(repository)] + new_tags.map_values(
                |t: Seq<char>| spec_tag_create_line(t, coe),
            )
        },
        LocalActionV::PublishTags { tags, remote } => if tags.len() == 0 {
            Seq::empty()
        } else {
            seq![spec_cd_line(repository), spec_publish_tags_line(tags, remote, coe)]
        },
    }
}

/// The statement sequence of any action.
pub open spec fn spec_action_lines(a: ActionV, coe: bool, cargo: Seq<char>, gh: Seq<char>) -> Seq<
    Seq<char>,
> {
    match a {
        ActionV::CratesIO { repository, inner } => spec_crates_io_lines(
            inner,
            coe,
            repository,
            cargo,
        ),
        ActionV::Github { repository, inner } => spec_github_lines(inner, coe, repository, gh),
        ActionV::Local { repository, inner } => spec_local_lines(inner, coe, repository, gh),
    }
}

fn policy_suffix(coe: bool) -> (r: &'static str)
    ensures
        r@ == spec_policy_suffix(coe),
{
    if coe {
        " || true"
    } else {
        " || exit 1"
    }
}

fn append_quoted(line: &mut String, s: &str)
    ensures
        final(line)@ == old(line)@ + spec_shell_quoted(s@),
{
    let q = shell_quote(s);
    line.append(q.as_str());
}

fn cd_line(repository: &str) -> (r: String)
    ensures
        r@ == spec_cd_line(repository@),
{
    let mut r = "cd ".to_owned();
    append_quoted(&mut r, repository);
    r.append(" || exit 1");
    r
}

impl CratesIOAction {
    /// Compile this registry action, bound to `repository`, to shell
    /// statements: a directory change, then one invocation of the package
    /// manager with the failure-policy suffix.
    pub fn as_shell_command(
        &self,
        continue_on_error: bool,
        repository: &str,
        context: &mut Context,
    ) -> (r: Option<Vec<String>>)
        ensures
            *final(context) == *old(context),
            r matches Some(v) && v.deep_view() == spec_crates_io_lines(
                self@,
                continue_on_error,
                repository@,
                spec_cargo_bin(*old(context)),
            ),
    {
        let cargo = context.cargo_bin_name();
        let mut line = String::new();
        match self {
            CratesIOAction::AddOwner { crate_name, login_value } => {
                append_quoted(&mut line, cargo.as_str());
                line.append(" owner --add ");
                append_quoted(&mut line, login_value.as_str());
                line.append(" ");
                append_quoted(&mut line, crate_name.as_str());
                line.append(policy_suffix(continue_on_error));
            },
            CratesIOAction::RemoveOwner { crate_name, login_value } => {
                append_quoted(&mut line, cargo.as_str());
                line.append(" owner --remove ");
                append_quoted(&mut line, login_value.as_str());
                line.append(" ");
                append_quoted(&mut line, crate_name.as_str());
                line.append(policy_suffix(continue_on_error));
            },
            CratesIOAction::Publish { crate_name, dry_run } => {
                append_quoted(&mut line, cargo.as_str());
                line.append(" publish");
                if *dry_run {
                    line.append(" --dry-run");
                }
                line.append(" --package ");
                append_quoted(&mut line, crate_name.as_str());
                line.append(policy_suffix(continue_on_error));
            },
        }
        assert(line@ == spec_crates_io_line(
            self@,
            continue_on_error,
            spec_cargo_bin(*context),
        ));
        let mut v: Vec<String> = Vec::new();
        v.push(cd_line(repository));
        v.push(line);
        assert(v.deep_view() =~= spec_crates_io_lines(
            self@,
            continue_on_error,
            repository@,
            spec_cargo_bin(*context),
        ));
        Some(v)
    }
}

impl GithubAction {
    /// Compile this hosting-service action, bound to `repository`, to shell
    /// statements: a directory change, then one invocation of the hosting
    /// CLI with the failure-policy suffix.
    pub fn as_shell_command(
        &self,
        continue_on_error: bool,
        repository: &str,
        context: &mut Context,
    ) -> (r: Option<Vec<String>>)
        ensures
            *final(context) == *old(context),
            r matches Some(v) && v.deep_view() == spec_github_lines(
                self@,
                continue_on_error,
                repository@,
                spec_gh_bin(*old(context)),
            ),
    {
        let gh = context.gh_bin_name();
        let mut line = String::new();
        match self {
            GithubAction::CreateReleasePR { crate_name, new_version } => {
                let mut title = "Bump ".to_owned();
                title.append(crate_name.as_str());
                title.append(" to v");
                title.append(new_version.as_str());
                assert(title@ == spec_release_pr_title(crate_name@, new_version@));
                append_quoted(&mut line, gh.as_str());
                line.append(" pr create --title ");
                append_quoted(&mut line, title.as_str());
                line.append(" --assignee @me");
                line.append(policy_suffix(continue_on_error));
            },
            GithubAction::CreateRelease { crate_name, tag, version } => {
                let mut title = crate_name.clone();
                title.append("-v");
                title.append(version.as_str());
                assert(title@ == spec_release_title(crate_name@, version@));
                append_quoted(&mut line, gh.as_str());
                line.append(" release create ");
                append_quoted(&mut line, tag.as_str());
                line.append(" --latest --notes-from-tag --verify-tag --title ");
                append_quoted(&mut line, title.as_str());
                line.append(policy_suffix(continue_on_error));
            },
        }
        assert(line@ == spec_github_line(self@, continue_on_error, spec_gh_bin(*context)));
        let mut v: Vec<String> = Vec::new();
        v.push(cd_line(repository));
        v.push(line);
        assert(v.deep_view() =~= spec_github_lines(
            self@,
            continue_on_error,
            repository@,
            spec_gh_bin(*context),
        ));
        Some(v)
    }
}

/// Appending one tag extends the push arguments by that tag's rendering.
proof fn lemma_push_args_snoc(tags: Seq<Seq<char>>, t: Seq<char>)
    ensures
        spec_push_args(tags.push(t)) == spec_push_args(tags) + (" "@ + spec_shell_quoted(t)),
    decreases tags.len(),
{
    if tags.len() == 0 {
        assert(tags.push(t).skip(1) =~= tags);
        assert(tags.push(t)[0] == t);
        assert(spec_push_args(tags.push(t)) == " "@ + spec_shell_quoted(t) + spec_push_args(
            tags,
        ));
        assert(spec_push_args(tags) == Seq::<char>::empty());
        assert(spec_push_args(tags.push(t)) =~= spec_push_args(tags) + (" "@ + spec_shell_quoted(
            t,
        )));
    } else {
        assert(tags.push(t).skip(1) =~= tags.skip(1).push(t));
        assert(tags.push(t)[0] == tags[0]);
        lemma_push_args_snoc(tags.skip(1), t);
        let head = " "@ + spec_shell_quoted(tags[0]);
        let mid = spec_push_args(tags.skip(1));
        let tail = " "@ + spec_shell_quoted(t);
        assert(spec_push_args(tags.push(t)) == head + (mid + tail));
        assert(head + (mid + tail) =~= (head + mid) + tail);
        assert(spec_push_args(tags) == head + mid);
    }
}

impl LocalAction {
    /// Compile this local action, bound to `repository`, to shell
    /// statements. An empty tag list compiles to an empty sequence: the
    /// action is a no-op.
    pub fn as_shell_command(
        &self,
        continue_on_error: bool,
        repository: &str,
        context: &mut Context,
    ) -> (r: Option<Vec<String>>)
        ensures
            *final(context) == *old(context),
            r matches Some(v) && v.deep_view() == spec_local_lines(
                self@,
                continue_on_error,
                repository@,
                spec_gh_bin(*old(context)),
            ),
    {
        let gh = context.gh_bin_name();
        match self {
            LocalAction::AssertDefaultBranch => {
                let mut l2 = "repo_name=$(".to_owned();
                append_quoted(&mut l2, gh.as_str());
                l2.append(" repo view --json name --jq .name || exit 1)");
                let mut l3 = "default_branch=$(".to_owned();
                append_quoted(&mut l3, gh.as_str());
                l3.append(" api \"repos/rust-vmm/${repo_name}\" --jq .default_branch || exit 1)");
                let l4 = "current_branch=$(git rev-parse --abbrev-ref HEAD || exit 1)".to_owned();
                let l5 = "[ \"${default_branch}\" != \"${current_branch}\" ] && exit 1".to_owned();
                let mut v: Vec<String> = Vec::new();
                v.push(cd_line(repository));
                v.push(l2);
                v.push(l3);
                v.push(l4);
                v.push(l5);
                assert(v.deep_view() =~= spec_assert_default_branch_lines(
                    repository@,
                    spec_gh_bin(*context),
                ));
                Some(v)
            },
            LocalAction::CreateTags { new_tags } => {
                if new_tags.len() == 0 {
                    let v: Vec<String> = Vec::new();
                    assert(v.deep_view() =~= Seq::<Seq<char>>::empty());
                    return Some(v);
                }
                let ghost target: Seq<Seq<char>> = view_strings(new_tags@).map_values(
                    |t: Seq<char>| spec_tag_create_line(t, continue_on_error),
                );
                let mut v: Vec<String> = Vec::new();
                v.push(cd_line(repository));
                let mut i: usize = 0;
                while i < new_tags.len()
                    invariant
                        i <= new_tags@.len(),
                        target == view_strings(new_tags@).map_values(
                            |t: Seq<char>| spec_tag_create_line(t, continue_on_error),
                        ),
                        v.deep_view() == seq![spec_cd_line(repository@)] + target.subrange(
                            0,
                            i as int,
                        ),
                    decreases new_tags@.len() - i,
                {
                    let mut line = "printf %s ".to_owned();
                    append_quoted(&mut line, new_tags[i].as_str());
                    line.append(" | git tag --annotate --file - ");
                    append_quoted(&mut line, new_tags[i].as_str());
                    line.append(policy_suffix(continue_on_error));
                    assert(line@ == target[i as int]);
                    let ghost prev_dv = v.deep_view();
                    let ghost linev = line@;
                    v.push(line);
                    proof {
                        assert forall|j: int| 0 <= j < prev_dv.len() implies v.deep_view()[j]
                            == prev_dv[j] by {}
                        assert(v.deep_view()[prev_dv.len() as int] == linev);
                        assert(v.deep_view() =~= prev_dv.push(linev));
                        assert(v.deep_view() =~= seq![spec_cd_line(repository@)]
                            + target.subrange(0, i + 1));
                    }
                    i += 1;
                }
                assert(target.subrange(0, new_tags@.len() as int) =~= target);
                assert(v.deep_view() == spec_local_lines(
                    self@,
                    continue_on_error,
                    repository@,
                    spec_gh_bin(*context),
                ));
                Some(v)
            },
            LocalAction::PublishTags { tags, remote } => {
                if tags.len() == 0 {
                    let v: Vec<String> = Vec::new();
                    assert(v.deep_view() =~= Seq::<Seq<char>>::empty());
                    return Some(v);
                }
                let mut line = "git push ".to_owned();
                let rem: &str = match remote {
                    Some(r) => r.as_str(),
                    None => "upstream",
                };
                append_quoted(&mut line, rem);
                let ghost head: Seq<char> = line@;
                let mut i: usize = 0;
                while i < tags.len()
                    invariant
                        i <= tags@.len(),
                        line@ == head + spec_push_args(view_strings(tags@).subrange(0, i as int)),
                    decreases tags@.len() - i,
                {
                    line.append(" ");
                    append_quoted(&mut line, tags[i].as_str());
                    proof {
                        lemma_push_args_snoc(
                            view_strings(tags@).subrange(0, i as int),
                            tags@[i as int]@,
                        );
                        assert(view_strings(tags@).subrange(0, i + 1)
                            =~= view_strings(tags@).subrange(0, i as int).push(tags@[i as int]@));
                        assert(line@ =~= head + spec_push_args(
                            view_strings(tags@).subrange(0, i + 1),
                        ));
                    }
                    i += 1;
                }
                assert(view_strings(tags@).subrange(0, tags@.len() as int) =~= view_strings(
                    tags@,
                ));
                line.append(policy_suffix(continue_on_error));
                assert(line@ =~= spec_publish_tags_line(
                    view_strings(tags@),
                    crate::actions::view_opt_string(*remote),
                    continue_on_error,
                ));
                let mut v: Vec<String> = Vec::new();
                v.push(cd_line(repository));
                v.push(line);
                assert(v.deep_view() =~= spec_local_lines(
                    self@,
                    continue_on_error,
                    repository@,
                    spec_gh_bin(*context),
                ));
                Some(v)
            },
        }
    }
}

impl Action {
    /// Compile this action to shell statements semantically equivalent to
    /// what direct execution would do, or `None` should a future action
    /// admit no shell representation.
    pub fn as_shell_command(&self, continue_on_error: bool, context: &mut Context) -> (r: Option<
        Vec<String>,
    >)
        ensures
            *final(context) == *old(context),
            r matches Some(v) && v.deep_view() == spec_action_lines(
                self@,
                continue_on_error,
                spec_cargo_bin(*old(context)),
                spec_gh_bin(*old(context)),
            ),
    {
        match self {
            Action::CratesIO { repository, inner } => inner.as_shell_command(
                continue_on_error,
                repository.as_str(),
                context,
            ),
            Action::Github { repository, inner } => inner.as_shell_command(
                continue_on_error,
                repository.as_str(),
                context,
            ),
            Action::Local { repository, inner } => inner.as_shell_command(
                continue_on_error,
                repository.as_str(),
                context,
            ),
        }
    }
}

} // verus!
