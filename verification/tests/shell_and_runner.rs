//! The shell compiler, the assembled script, the interpreters' shared
//! invocation model, and the runner's failure policy.

use release_plan::Context;
use release_plan::actions::{Action, CratesIOAction, GithubAction, LocalAction, Plan, PlanItem};
use release_plan::runner::{ItemDecision, item_decision};
use release_plan::shell::shell_quote;

#[test]
fn safe_words_need_no_quotes() {
    assert_eq!(shell_quote("my-crate_1.2/ok:@+=,"), "my-crate_1.2/ok:@+=,");
}

#[test]
fn unsafe_words_are_single_quoted() {
    assert_eq!(shell_quote("two words"), "'two words'");
    assert_eq!(shell_quote(""), "''");
    assert_eq!(shell_quote("it's"), "'it'\\''s'");
    assert_eq!(shell_quote("a;rm -rf"), "'a;rm -rf'");
}

#[test]
fn add_owner_compiles_to_the_expected_statements() {
    let mut ctx = Context::new();
    let action = Action::CratesIO {
        repository: "/tmp/repo".to_string(),
        inner: CratesIOAction::AddOwner {
            crate_name: "my-crate".to_string(),
            login_value: "alice".to_string(),
        },
    };
    let lines = action.as_shell_command(false, &mut ctx).unwrap();
    assert_eq!(
        lines,
        vec![
            "cd /tmp/repo || exit 1".to_string(),
            "cargo owner --add alice my-crate || exit 1".to_string(),
        ]
    );
}

#[test]
fn continue_on_error_switches_the_suffix() {
    let mut ctx = Context::new();
    let action = Action::CratesIO {
        repository: "/r".to_string(),
        inner: CratesIOAction::Publish { crate_name: "c".to_string(), dry_run: true },
    };
    let lines = action.as_shell_command(true, &mut ctx).unwrap();
    assert_eq!(lines[1], "cargo publish --dry-run --package c || true");
}

#[test]
fn release_pr_title_is_quoted() {
    let mut ctx = Context::new();
    let action = Action::Github {
        repository: "/r".to_string(),
        inner: GithubAction::CreateReleasePR {
            crate_name: "my-crate".to_string(),
            new_version: "1.2.3".to_string(),
        },
    };
    let lines = action.as_shell_command(false, &mut ctx).unwrap();
    assert_eq!(
        lines[1],
        "gh pr create --title 'Bump my-crate to v1.2.3' --assignee @me || exit 1"
    );
}

#[test]
fn empty_tag_lists_compile_to_nothing() {
    let mut ctx = Context::new();
    let create = Action::Local {
        repository: "/r".to_string(),
        inner: LocalAction::CreateTags { new_tags: vec![] },
    };
    let publish = Action::Local {
        repository: "/r".to_string(),
        inner: LocalAction::PublishTags { tags: vec![], remote: None },
    };
    assert_eq!(create.as_shell_command(false, &mut ctx).unwrap(), Vec::<String>::new());
    assert_eq!(publish.as_shell_command(false, &mut ctx).unwrap(), Vec::<String>::new());
}

#[test]
fn tag_creation_pipes_the_annotation() {
    let mut ctx = Context::new();
    let action = Action::Local {
        repository: "/r".to_string(),
        inner: LocalAction::CreateTags { new_tags: vec!["a-v1".to_string()] },
    };
    let lines = action.as_shell_command(false, &mut ctx).unwrap();
    assert_eq!(lines[1], "printf %s a-v1 | git tag --annotate --file - a-v1 || exit 1");
}

#[test]
fn overridden_cargo_binary_is_used() {
    let mut ctx = Context::new();
    ctx.cargo_bin = Some("/opt/tools/cargo nightly".to_string());
    let action = Action::CratesIO {
        repository: "/r".to_string(),
        inner: CratesIOAction::RemoveOwner {
            crate_name: "c".to_string(),
            login_value: "bob".to_string(),
        },
    };
    let lines = action.as_shell_command(false, &mut ctx).unwrap();
    assert_eq!(lines[1], "'/opt/tools/cargo nightly' owner --remove bob c || exit 1");
}

#[test]
fn two_items_one_repository_one_cd() {
    let mut ctx = Context::new();
    let plan = Plan {
        items: vec![
            PlanItem {
                description: None,
                action: Action::CratesIO {
                    repository: "/same".to_string(),
                    inner: CratesIOAction::Publish { crate_name: "a".to_string(), dry_run: false },
                },
                continue_on_error: false,
            },
            PlanItem {
                description: None,
                action: Action::CratesIO {
                    repository: "/same".to_string(),
                    inner: CratesIOAction::Publish { crate_name: "b".to_string(), dry_run: false },
                },
                continue_on_error: false,
            },
        ],
    };
    let script = plan.as_shell_script(&mut ctx).unwrap();
    let cd_count = script.lines().filter(|l| *l == "cd /same || exit 1").count();
    assert_eq!(cd_count, 1);
    assert_eq!(
        script,
        "#!/bin/sh\n\nset -ev\n\ncd /same || exit 1\ncargo publish --package a || exit 1\ncargo publish --package b || exit 1\n"
    );
}

#[test]
fn distinct_repositories_keep_their_cds() {
    let mut ctx = Context::new();
    let plan = Plan {
        items: vec![
            PlanItem {
                description: Some("first".to_string()),
                action: Action::CratesIO {
                    repository: "/one".to_string(),
                    inner: CratesIOAction::Publish { crate_name: "a".to_string(), dry_run: false },
                },
                continue_on_error: false,
            },
            PlanItem {
                description: None,
                action: Action::CratesIO {
                    repository: "/two".to_string(),
                    inner: CratesIOAction::Publish { crate_name: "b".to_string(), dry_run: false },
                },
                continue_on_error: false,
            },
        ],
    };
    let script = plan.as_shell_script(&mut ctx).unwrap();
    assert!(script.contains("# first\n"));
    assert!(script.contains("cd /one || exit 1\n"));
    assert!(script.contains("cd /two || exit 1\n"));
}

#[test]
fn invocations_match_the_compiled_arguments() {
    let ctx = Context::new();
    let action = Action::CratesIO {
        repository: "/r".to_string(),
        inner: CratesIOAction::AddOwner {
            crate_name: "my-crate".to_string(),
            login_value: "alice".to_string(),
        },
    };
    let invs = action.invocations(&ctx).unwrap();
    assert_eq!(invs.len(), 1);
    assert_eq!(invs[0].working_dir, "/r");
    assert_eq!(invs[0].program, "cargo");
    assert_eq!(invs[0].args, vec!["owner", "--add", "alice", "my-crate"]);
    assert_eq!(invs[0].stdin_data, None);
}

#[test]
fn tag_invocations_carry_their_stdin() {
    let ctx = Context::new();
    let action = Action::Local {
        repository: "/r".to_string(),
        inner: LocalAction::CreateTags { new_tags: vec!["t-v1".to_string(), "t-v2".to_string()] },
    };
    let invs = action.invocations(&ctx).unwrap();
    assert_eq!(invs.len(), 2);
    assert_eq!(invs[0].stdin_data.as_deref(), Some("t-v1"));
    assert_eq!(invs[1].args, vec!["tag", "--annotate", "--file", "-", "t-v2"]);
}

#[test]
fn assert_default_branch_has_no_pure_invocations() {
    let ctx = Context::new();
    let action = Action::Local {
        repository: "/r".to_string(),
        inner: LocalAction::AssertDefaultBranch,
    };
    assert!(action.invocations(&ctx).is_none());
}

#[test]
fn branch_check_accepts_equal_and_names_both_on_mismatch() {
    assert!(release_plan::execute::check_default_branch("main", "main").is_ok());
    let err = release_plan::execute::check_default_branch("work", "main").unwrap_err();
    assert_eq!(
        err,
        "Currently checked out branch work is not the default branch (`main`), please check it out."
    );
}

#[test]
fn failure_policy_decides_abort_exactly_on_fatal_failures() {
    assert!(matches!(item_decision(false, true), ItemDecision::Abort));
    assert!(matches!(item_decision(true, true), ItemDecision::Proceed));
    assert!(matches!(item_decision(false, false), ItemDecision::Proceed));
    assert!(matches!(item_decision(true, false), ItemDecision::Proceed));
}

#[test]
fn throttle_spaces_calls_a_second_apart() {
    let mut ctx = Context::new();
    assert_eq!(ctx.registry_throttle(5000), 0);
    assert_eq!(ctx.last_crates_io_call_ms, Some(5000));
    assert_eq!(ctx.registry_throttle(5200), 800);
    assert_eq!(ctx.last_crates_io_call_ms, Some(6000));
    assert_eq!(ctx.registry_throttle(7500), 0);
}

#[test]
fn default_tool_names_resolve() {
    let ctx = Context::new();
    assert_eq!(ctx.cargo_bin_name(), "cargo");
    assert_eq!(ctx.gh_bin_name(), "gh");
}
