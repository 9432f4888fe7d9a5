//! Agreement of the two interpreters: for every action whose direct
//! execution is a pure function of the action itself, the compiled shell
//! statements are exactly a directory change into the action's repository
//! followed by one statement per external invocation — same program, same
//! arguments, same piped input, same order, same failure policy.

use vstd::prelude::*;

use crate::actions::{ActionV, CratesIOActionV, GithubActionV, LocalActionV};
use crate::compile::{
    spec_action_lines, spec_cd_line, spec_crates_io_line, spec_github_line, spec_policy_suffix,
    spec_publish_tags_line, spec_push_args, spec_release_pr_title, spec_release_title,
    spec_tag_create_line,
};
use crate::execute::{
    InvocationV, spec_action_invocations, spec_crates_io_invocations, spec_github_invocations,
    spec_local_invocations, spec_tag_invocation,
};
use crate::shell::{spec_shell_quoted, spec_shell_safe};

verus! {

/// How one invocation reads as a single shell statement: the piped input
/// (if any) fed through `printf`, the program, one quoted word per
/// argument, and the failure-policy suffix.
pub open spec fn spec_render_statement(inv: InvocationV, coe: bool) -> Seq<char> {
    (match inv.stdin_data {
        Some(d) => "printf %s "@ + spec_shell_quoted(d) + " | "@,
        None => Seq::<char>::empty(),
    }) + spec_shell_quoted(inv.program) + spec_push_args(inv.args) + spec_policy_suffix(coe)
}

/// How a whole invocation sequence reads as a statement sequence: nothing
/// for a no-op, otherwise one directory change followed by the rendered
/// invocations.
pub open spec fn spec_render_invocations(
    invs: Seq<InvocationV>,
    repository: Seq<char>,
    coe: bool,
) -> Seq<Seq<char>> {
    if invs.len() == 0 {
        Seq::<Seq<char>>::empty()
    } else {
        seq![spec_cd_line(repository)] + invs.map_values(
            |iv: InvocationV| spec_render_statement(iv, coe),
        )
    }
}

/// A safe string is its own quoted form.
proof fn lemma_quoted_safe(s: Seq<char>)
    requires
        spec_shell_safe(s),
    ensures
        spec_shell_quoted(s) == s,
{
}

/// One unfolding of the argument rendering.
proof fn lemma_push_args_unfold(tags: Seq<Seq<char>>)
    requires
        tags.len() > 0,
    ensures
        spec_push_args(tags) == " "@ + spec_shell_quoted(tags[0]) + spec_push_args(tags.skip(1)),
{
}

/// The rendering of one trailing argument.
proof fn lemma_push_args_one(t: Seq<char>)
    ensures
        spec_push_args(seq![t]) == " "@ + spec_shell_quoted(t),
{
    assert(seq![t].skip(1) =~= Seq::<Seq<char>>::empty());
    lemma_push_args_unfold(seq![t]);
    assert(spec_push_args(Seq::<Seq<char>>::empty()) == Seq::<char>::empty());
    assert(spec_push_args(seq![t]) =~= " "@ + spec_shell_quoted(t));
}

#[verifier::rlimit(80)]
proof fn lemma_add_owner_statement(
    crate_name: Seq<char>,
    login_value: Seq<char>,
    coe: bool,
    repository: Seq<char>,
    cargo: Seq<char>,
)
    ensures
        spec_crates_io_line(
            CratesIOActionV::AddOwner { crate_name, login_value },
            coe,
            cargo,
        ) == spec_render_statement(
            spec_crates_io_invocations(
                CratesIOActionV::AddOwner { crate_name, login_value },
                repository,
                cargo,
            )[0],
            coe,
        ),
{
    let a = CratesIOActionV::AddOwner { crate_name, login_value };
    let inv = spec_crates_io_invocations(a, repository, cargo)[0];
    let ql = spec_shell_quoted(login_value);
    let qc = spec_shell_quoted(crate_name);
    reveal_strlit(" ");
    reveal_strlit("owner");
    reveal_strlit("--add");
    reveal_strlit(" owner --add ");
    assert(spec_shell_safe("owner"@));
    assert(spec_shell_safe("--add"@));
    lemma_quoted_safe("owner"@);
    lemma_quoted_safe("--add"@);
    let a1 = seq!["--add"@, login_value, crate_name];
    let a2 = seq![login_value, crate_name];
    assert(inv.args.skip(1) =~= a1);
    assert(a1.skip(1) =~= a2);
    assert(a2.skip(1) =~= seq![crate_name]);
    lemma_push_args_one(crate_name);
    lemma_push_args_unfold(a2);
    assert(spec_push_args(a2) =~= " "@ + ql + " "@ + qc);
    lemma_push_args_unfold(a1);
    assert(spec_push_args(a1) =~= " "@ + "--add"@ + " "@ + ql + " "@ + qc);
    lemma_push_args_unfold(inv.args);
    assert(spec_push_args(inv.args) =~= " owner --add "@ + ql + " "@ + qc);
    assert(spec_crates_io_line(a, coe, cargo) =~= spec_render_statement(inv, coe));
}

#[verifier::rlimit(80)]
proof fn lemma_remove_owner_statement(
    crate_name: Seq<char>,
    login_value: Seq<char>,
    coe: bool,
    repository: Seq<char>,
    cargo: Seq<char>,
)
    ensures
        spec_crates_io_line(
            CratesIOActionV::RemoveOwner { crate_name, login_value },
            coe,
            cargo,
        ) == spec_render_statement(
            spec_crates_io_invocations(
                CratesIOActionV::RemoveOwner { crate_name, login_value },
                repository,
                cargo,
            )[0],
            coe,
        ),
{
    let a = CratesIOActionV::RemoveOwner { crate_name, login_value };
    let inv = spec_crates_io_invocations(a, repository, cargo)[0];
    let ql = spec_shell_quoted(login_value);
    let qc = spec_shell_quoted(crate_name);
    reveal_strlit(" ");
    reveal_strlit("owner");
    reveal_strlit("--remove");
    reveal_strlit(" owner --remove ");
    assert(spec_shell_safe("owner"@));
    assert(spec_shell_safe("--remove"@));
    lemma_quoted_safe("owner"@);
    lemma_quoted_safe("--remove"@);
    let a1 = seq!["--remove"@, login_value, crate_name];
    let a2 = seq![login_value, crate_name];
    assert(inv.args.skip(1) =~= a1);
    assert(a1.skip(1) =~= a2);
    assert(a2.skip(1) =~= seq![crate_name]);
    lemma_push_args_one(crate_name);
    lemma_push_args_unfold(a2);
    assert(spec_push_args(a2) =~= " "@ + ql + " "@ + qc);
    lemma_push_args_unfold(a1);
    assert(spec_push_args(a1) =~= " "@ + "--remove"@ + " "@ + ql + " "@ + qc);
    lemma_push_args_unfold(inv.args);
    assert(spec_push_args(inv.args) =~= " owner --remove "@ + ql + " "@ + qc);
    assert(spec_crates_io_line(a, coe, cargo) =~= spec_render_statement(inv, coe));
}

#[verifier::rlimit(80)]
proof fn lemma_publish_statement(
    crate_name: Seq<char>,
    dry_run: bool,
    coe: bool,
    repository: Seq<char>,
    cargo: Seq<char>,
)
    ensures
        spec_crates_io_line(
            CratesIOActionV::Publish { crate_name, dry_run },
            coe,
            cargo,
        ) == spec_render_statement(
            spec_crates_io_invocations(
                CratesIOActionV::Publish { crate_name, dry_run },
                repository,
                cargo,
            )[0],
            coe,
        ),
{
    let a = CratesIOActionV::Publish { crate_name, dry_run };
    let inv = spec_crates_io_invocations(a, repository, cargo)[0];
    let qc = spec_shell_quoted(crate_name);
    reveal_strlit(" ");
    reveal_strlit("publish");
    reveal_strlit("--dry-run");
    reveal_strlit("--package");
    reveal_strlit(" publish");
    reveal_strlit(" --dry-run");
    reveal_strlit(" --package ");
    assert(spec_shell_safe("publish"@));
    assert(spec_shell_safe("--dry-run"@));
    assert(spec_shell_safe("--package"@));
    lemma_quoted_safe("publish"@);
    lemma_quoted_safe("--dry-run"@);
    lemma_quoted_safe("--package"@);
    let a2 = seq!["--package"@, crate_name];
    assert(a2.skip(1) =~= seq![crate_name]);
    lemma_push_args_one(crate_name);
    lemma_push_args_unfold(a2);
    assert(spec_push_args(a2) =~= " --package "@ + qc);
    if dry_run {
        let a1 = seq!["--dry-run"@, "--package"@, crate_name];
        assert(inv.args =~= seq!["publish"@, "--dry-run"@, "--package"@, crate_name]);
        assert(inv.args.skip(1) =~= a1);
        assert(a1.skip(1) =~= a2);
        lemma_push_args_unfold(a1);
        assert(spec_push_args(a1) =~= " --dry-run"@ + (" --package "@ + qc));
        lemma_push_args_unfold(inv.args);
        assert(spec_push_args(inv.args) =~= " publish"@ + " --dry-run"@ + " --package "@ + qc);
        assert(spec_crates_io_line(a, coe, cargo) =~= spec_render_statement(inv, coe));
    } else {
        assert(inv.args =~= seq!["publish"@, "--package"@, crate_name]);
        assert(inv.args.skip(1) =~= a2);
        lemma_push_args_unfold(inv.args);
        assert(spec_push_args(inv.args) =~= " publish"@ + " --package "@ + qc);
        assert(spec_crates_io_line(a, coe, cargo) =~= spec_render_statement(inv, coe));
    }
}

/// The registry statement is the rendering of the registry invocation.
proof fn lemma_crates_io_statement(
    a: CratesIOActionV,
    coe: bool,
    repository: Seq<char>,
    cargo: Seq<char>,
)
    ensures
        spec_crates_io_line(a, coe, cargo) == spec_render_statement(
            spec_crates_io_invocations(a, repository, cargo)[0],
            coe,
        ),
{
    match a {
        CratesIOActionV::AddOwner { crate_name, login_value } => {
            lemma_add_owner_statement(crate_name, login_value, coe, repository, cargo);
        },
        CratesIOActionV::RemoveOwner { crate_name, login_value } => {
            lemma_remove_owner_statement(crate_name, login_value, coe, repository, cargo);
        },
        CratesIOActionV::Publish { crate_name, dry_run } => {
            lemma_publish_statement(crate_name, dry_run, coe, repository, cargo);
        },
    }
}

#[verifier::rlimit(80)]
proof fn lemma_release_pr_statement(
    crate_name: Seq<char>,
    new_version: Seq<char>,
    coe: bool,
    repository: Seq<char>,
    gh: Seq<char>,
)
    ensures
        spec_github_line(
            GithubActionV::CreateReleasePR { crate_name, new_version },
            coe,
            gh,
        ) == spec_render_statement(
            spec_github_invocations(
                GithubActionV::CreateReleasePR { crate_name, new_version },
                repository,
                gh,
            )[0],
            coe,
        ),
{
    let a = GithubActionV::CreateReleasePR { crate_name, new_version };
    let inv = spec_github_invocations(a, repository, gh)[0];
    let title = spec_release_pr_title(crate_name, new_version);
    let qt = spec_shell_quoted(title);
    reveal_strlit(" ");
    reveal_strlit("pr");
    reveal_strlit("create");
    reveal_strlit("--title");
    reveal_strlit("--assignee");
    reveal_strlit("@me");
    reveal_strlit(" pr create --title ");
    reveal_strlit(" --assignee @me");
    assert(spec_shell_safe("pr"@));
    assert(spec_shell_safe("create"@));
    assert(spec_shell_safe("--title"@));
    assert(spec_shell_safe("--assignee"@));
    assert(spec_shell_safe("@me"@));
    lemma_quoted_safe("pr"@);
    lemma_quoted_safe("create"@);
    lemma_quoted_safe("--title"@);
    lemma_quoted_safe("--assignee"@);
    lemma_quoted_safe("@me"@);
    let a1 = seq!["create"@, "--title"@, title, "--assignee"@, "@me"@];
    let a2 = seq!["--title"@, title, "--assignee"@, "@me"@];
    let a3 = seq![title, "--assignee"@, "@me"@];
    let a4 = seq!["--assignee"@, "@me"@];
    assert(inv.args.skip(1) =~= a1);
    assert(a1.skip(1) =~= a2);
    assert(a2.skip(1) =~= a3);
    assert(a3.skip(1) =~= a4);
    assert(a4.skip(1) =~= seq!["@me"@]);
    lemma_push_args_one("@me"@);
    lemma_push_args_unfold(a4);
    assert(spec_push_args(a4) =~= " --assignee @me"@);
    lemma_push_args_unfold(a3);
    assert(spec_push_args(a3) =~= " "@ + qt + " --assignee @me"@);
    lemma_push_args_unfold(a2);
    assert(spec_push_args(a2) =~= " "@ + "--title"@ + " "@ + qt + " --assignee @me"@);
    lemma_push_args_unfold(a1);
    assert(spec_push_args(a1) =~= " "@ + "create"@ + " "@ + "--title"@ + " "@ + qt
        + " --assignee @me"@);
    lemma_push_args_unfold(inv.args);
    assert(spec_push_args(inv.args) =~= " pr create --title "@ + qt + " --assignee @me"@);
    assert(spec_github_line(a, coe, gh) =~= spec_render_statement(inv, coe));
}

#[verifier::rlimit(80)]
proof fn lemma_create_release_statement(
    crate_name: Seq<char>,
    tag: Seq<char>,
    version: Seq<char>,
    coe: bool,
    repository: Seq<char>,
    gh: Seq<char>,
)
    ensures
        spec_github_line(
            GithubActionV::CreateRelease { crate_name, tag, version },
            coe,
            gh,
        ) == spec_render_statement(
            spec_github_invocations(
                GithubActionV::CreateRelease { crate_name, tag, version },
                repository,
                gh,
            )[0],
            coe,
        ),
{
    let a = GithubActionV::CreateRelease { crate_name, tag, version };
    let inv = spec_github_invocations(a, repository, gh)[0];
    let title = spec_release_title(crate_name, version);
    let qt = spec_shell_quoted(title);
    let qtag = spec_shell_quoted(tag);
    reveal_strlit(" ");
    reveal_strlit("release");
    reveal_strlit("create");
    reveal_strlit("--latest");
    reveal_strlit("--notes-from-tag");
    reveal_strlit("--verify-tag");
    reveal_strlit("--title");
    reveal_strlit(" release create ");
    reveal_strlit(" --latest --notes-from-tag --verify-tag --title ");
    assert(spec_shell_safe("release"@));
    assert(spec_shell_safe("create"@));
    assert(spec_shell_safe("--latest"@));
    assert(spec_shell_safe("--notes-from-tag"@));
    assert(spec_shell_safe("--verify-tag"@));
    assert(spec_shell_safe("--title"@));
    lemma_quoted_safe("release"@);
    lemma_quoted_safe("create"@);
    lemma_quoted_safe("--latest"@);
    lemma_quoted_safe("--notes-from-tag"@);
    lemma_quoted_safe("--verify-tag"@);
    lemma_quoted_safe("--title"@);
    let a1 = seq![
        "create"@,
        tag,
        "--latest"@,
        "--notes-from-tag"@,
        "--verify-tag"@,
        "--title"@,
        title,
    ];
    let a2 = seq![tag, "--latest"@, "--notes-from-tag"@, "--verify-tag"@, "--title"@, title];
    let a3 = seq!["--latest"@, "--notes-from-tag"@, "--verify-tag"@, "--title"@, title];
    let a4 = seq!["--notes-from-tag"@, "--verify-tag"@, "--title"@, title];
    let a5 = seq!["--verify-tag"@, "--title"@, title];
    let a6 = seq!["--title"@, title];
    assert(inv.args.skip(1) =~= a1);
    assert(a1.skip(1) =~= a2);
    assert(a2.skip(1) =~= a3);
    assert(a3.skip(1) =~= a4);
    assert(a4.skip(1) =~= a5);
    assert(a5.skip(1) =~= a6);
    assert(a6.skip(1) =~= seq![title]);
    lemma_push_args_one(title);
    lemma_push_args_unfold(a6);
    assert(spec_push_args(a6) =~= " "@ + "--title"@ + " "@ + qt);
    lemma_push_args_unfold(a5);
    assert(spec_push_args(a5) =~= " "@ + "--verify-tag"@ + " "@ + "--title"@ + " "@ + qt);
    lemma_push_args_unfold(a4);
    assert(spec_push_args(a4) =~= " "@ + "--notes-from-tag"@ + " "@ + "--verify-tag"@ + " "@
        + "--title"@ + " "@ + qt);
    lemma_push_args_unfold(a3);
    assert(spec_push_args(a3) =~= " --latest --notes-from-tag --verify-tag --title "@ + qt);
    lemma_push_args_unfold(a2);
    assert(spec_push_args(a2) =~= " "@ + qtag
        + " --latest --notes-from-tag --verify-tag --title "@ + qt);
    lemma_push_args_unfold(a1);
    assert(spec_push_args(a1) =~= " "@ + "create"@ + " "@ + qtag
        + " --latest --notes-from-tag --verify-tag --title "@ + qt);
    lemma_push_args_unfold(inv.args);
    assert(spec_push_args(inv.args) =~= " release create "@ + qtag
        + " --latest --notes-from-tag --verify-tag --title "@ + qt);
    assert(spec_github_line(a, coe, gh) =~= spec_render_statement(inv, coe));
}

/// The hosting-service statement is the rendering of the hosting-service
/// invocation.
proof fn lemma_github_statement(a: GithubActionV, coe: bool, repository: Seq<char>, gh: Seq<char>)
    ensures
        spec_github_line(a, coe, gh) == spec_render_statement(
            spec_github_invocations(a, repository, gh)[0],
            coe,
        ),
{
    match a {
        GithubActionV::CreateReleasePR { crate_name, new_version } => {
            lemma_release_pr_statement(crate_name, new_version, coe, repository, gh);
        },
        GithubActionV::CreateRelease { crate_name, tag, version } => {
            lemma_create_release_statement(crate_name, tag, version, coe, repository, gh);
        },
    }
}

/// The tag-creation statement is the rendering of the tag-creation
/// invocation.
#[verifier::rlimit(80)]
proof fn lemma_tag_statement(t: Seq<char>, repository: Seq<char>, coe: bool)
    ensures
        spec_tag_create_line(t, coe) == spec_render_statement(
            spec_tag_invocation(t, repository),
            coe,
        ),
{
    let inv = spec_tag_invocation(t, repository);
    let qt = spec_shell_quoted(t);
    reveal_strlit(" ");
    reveal_strlit("git");
    reveal_strlit("tag");
    reveal_strlit("--annotate");
    reveal_strlit("--file");
    reveal_strlit("-");
    reveal_strlit(" | ");
    reveal_strlit(" | git tag --annotate --file - ");
    assert(spec_shell_safe("git"@));
    assert(spec_shell_safe("tag"@));
    assert(spec_shell_safe("--annotate"@));
    assert(spec_shell_safe("--file"@));
    assert(spec_shell_safe("-"@));
    lemma_quoted_safe("git"@);
    lemma_quoted_safe("tag"@);
    lemma_quoted_safe("--annotate"@);
    lemma_quoted_safe("--file"@);
    lemma_quoted_safe("-"@);
    let a1 = seq!["--annotate"@, "--file"@, "-"@, t];
    let a2 = seq!["--file"@, "-"@, t];
    let a3 = seq!["-"@, t];
    assert(inv.args.skip(1) =~= a1);
    assert(a1.skip(1) =~= a2);
    assert(a2.skip(1) =~= a3);
    assert(a3.skip(1) =~= seq![t]);
    lemma_push_args_one(t);
    lemma_push_args_unfold(a3);
    assert(spec_push_args(a3) =~= " "@ + "-"@ + " "@ + qt);
    lemma_push_args_unfold(a2);
    assert(spec_push_args(a2) =~= " "@ + "--file"@ + " "@ + "-"@ + " "@ + qt);
    lemma_push_args_unfold(a1);
    assert(spec_push_args(a1) =~= " "@ + "--annotate"@ + " "@ + "--file"@ + " "@ + "-"@ + " "@
        + qt);
    lemma_push_args_unfold(inv.args);
    assert(" | "@ + "git"@ + spec_push_args(inv.args) =~= " | git tag --annotate --file - "@
        + qt);
    assert(spec_tag_create_line(t, coe) =~= spec_render_statement(inv, coe));
}

/// The tag-push statement is the rendering of the tag-push invocation.
#[verifier::rlimit(80)]
proof fn lemma_publish_tags_statement(
    tags: Seq<Seq<char>>,
    remote: Option<Seq<char>>,
    repository: Seq<char>,
    coe: bool,
)
    requires
        tags.len() > 0,
    ensures
        spec_publish_tags_line(tags, remote, coe) == spec_render_statement(
            spec_local_invocations(
                LocalActionV::PublishTags { tags, remote },
                repository,
            )->Some_0[0],
            coe,
        ),
{
    let inv = spec_local_invocations(
        LocalActionV::PublishTags { tags, remote },
        repository,
    )->Some_0[0];
    let rem = match remote {
        Some(r) => r,
        None => "upstream"@,
    };
    let qr = spec_shell_quoted(rem);
    reveal_strlit(" ");
    reveal_strlit("git");
    reveal_strlit("push");
    reveal_strlit("git push ");
    assert(spec_shell_safe("git"@));
    assert(spec_shell_safe("push"@));
    lemma_quoted_safe("git"@);
    lemma_quoted_safe("push"@);
    let a1 = seq![rem] + tags;
    assert(inv.args =~= seq!["push"@, rem] + tags);
    assert(inv.args[0] == "push"@);
    assert(inv.args.skip(1) =~= a1);
    assert(a1[0] == rem);
    assert(a1.skip(1) =~= tags);
    lemma_push_args_unfold(a1);
    assert(spec_push_args(a1) =~= " "@ + qr + spec_push_args(tags));
    lemma_push_args_unfold(inv.args);
    assert("git"@ + spec_push_args(inv.args) =~= "git push "@ + qr + spec_push_args(tags));
    assert(spec_publish_tags_line(tags, remote, coe) =~= spec_render_statement(inv, coe));
}

/// The two interpreters agree. For every action other than
/// `AssertDefaultBranch` (whose second query is built from the first
/// query's output and so is not a function of the action alone): direct
/// execution performs a determinate invocation sequence, every invocation
/// works in the action's target repository, and the compiled statements are
/// exactly the rendering of that sequence — a directory change followed by
/// one statement per invocation, in the same order, or no statements at all
/// when the action is a no-op.
pub proof fn lemma_interpreters_agree(a: ActionV, coe: bool, cargo: Seq<char>, gh: Seq<char>)
    requires
        !(a matches ActionV::Local { inner: LocalActionV::AssertDefaultBranch, .. }),
    ensures
        spec_action_invocations(a, cargo, gh) is Some,
        forall|i: int|
            0 <= i < spec_action_invocations(a, cargo, gh)->Some_0.len()
                ==> spec_action_invocations(a, cargo, gh)->Some_0[i].working_dir
                == a.repository(),
        spec_action_lines(a, coe, cargo, gh) == spec_render_invocations(
            spec_action_invocations(a, cargo, gh)->Some_0,
            a.repository(),
            coe,
        ),
{
    let invs = spec_action_invocations(a, cargo, gh)->Some_0;
    let render = |iv: InvocationV| spec_render_statement(iv, coe);
    match a {
        ActionV::CratesIO { repository, inner } => {
            lemma_crates_io_statement(inner, coe, repository, cargo);
            assert(invs.map_values(render) =~= seq![render(invs[0])]);
            assert(spec_action_lines(a, coe, cargo, gh) =~= spec_render_invocations(
                invs,
                repository,
                coe,
            ));
        },
        ActionV::Github { repository, inner } => {
            lemma_github_statement(inner, coe, repository, gh);
            assert(invs.map_values(render) =~= seq![render(invs[0])]);
            assert(spec_action_lines(a, coe, cargo, gh) =~= spec_render_invocations(
                invs,
                repository,
                coe,
            ));
        },
        ActionV::Local { repository, inner } => match inner {
            LocalActionV::AssertDefaultBranch => {
            },
            LocalActionV::CreateTags { new_tags } => {
                assert(invs == new_tags.map_values(
                    |t: Seq<char>| spec_tag_invocation(t, repository),
                ));
                if new_tags.len() == 0 {
                    assert(invs.len() == 0);
                    assert(spec_action_lines(a, coe, cargo, gh) =~= spec_render_invocations(
                        invs,
                        repository,
                        coe,
                    ));
                } else {
                    assert forall|i: int| 0 <= i < invs.len() implies invs.map_values(render)[i]
                        == new_tags.map_values(|t: Seq<char>| spec_tag_create_line(t, coe))[i] by {
                        lemma_tag_statement(new_tags[i], repository, coe);
                    }
                    assert(invs.map_values(render) =~= new_tags.map_values(
                        |t: Seq<char>| spec_tag_create_line(t, coe),
                    ));
                    assert(spec_action_lines(a, coe, cargo, gh) =~= spec_render_invocations(
                        invs,
                        repository,
                        coe,
                    ));
                }
            },
            LocalActionV::PublishTags { tags, remote } => {
                if tags.len() == 0 {
                    assert(invs.len() == 0);
                    assert(spec_action_lines(a, coe, cargo, gh) =~= spec_render_invocations(
                        invs,
                        repository,
                        coe,
                    ));
                } else {
                    lemma_publish_tags_statement(tags, remote, repository, coe);
                    assert(invs.map_values(render) =~= seq![render(invs[0])]);
                    assert(spec_action_lines(a, coe, cargo, gh) =~= spec_render_invocations(
                        invs,
                        repository,
                        coe,
                    ));
                }
            },
        },
    }
}

} // verus!
