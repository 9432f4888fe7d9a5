//! The publish-workflow plan builder, and the text helpers it and the
//! codecs rest on.

use release_plan::actions::{Action, CratesIOAction, GithubAction, LocalAction, Plan};
use release_plan::manifest::{Manifest, Package, manifest_matches};
use release_plan::text::parse_i64;
use release_plan::workflow::build_publish_plan;

fn pkg(name: &str, version: &str) -> Package {
    Package {
        name: name.to_string(),
        version: version.to_string(),
        edition: None,
        authors: vec![],
        description: None,
        repository: None,
        readme: None,
        license: None,
        publish: true,
    }
}

#[test]
fn the_publish_plan_has_the_causal_order() {
    let plan = build_publish_plan(
        &"/tmp/repo".to_string(),
        &vec![pkg("vm-a", "1.0.0"), pkg("vm-b", "2.0.0")],
    );
    assert_eq!(plan.items.len(), 1 + 2 + 2 + 2 + 2);
    assert!(matches!(
        &plan.items[0].action,
        Action::Local { inner: LocalAction::AssertDefaultBranch, .. }
    ));
    assert_eq!(
        plan.items[1].description.as_deref(),
        Some("Publish package `vm-a` to crates.io (dry run)")
    );
    assert!(matches!(
        &plan.items[2].action,
        Action::CratesIO { inner: CratesIOAction::Publish { dry_run: true, .. }, .. }
    ));
    assert_eq!(
        plan.items[3].description.as_deref(),
        Some("Create tags `vm-a-v1.0.0,vm-b-v2.0.0`")
    );
    assert!(matches!(
        &plan.items[3].action,
        Action::Local { inner: LocalAction::CreateTags { new_tags }, .. }
            if new_tags == &vec!["vm-a-v1.0.0".to_string(), "vm-b-v2.0.0".to_string()]
    ));
    assert!(matches!(
        &plan.items[4].action,
        Action::Local { inner: LocalAction::PublishTags { remote: None, .. }, .. }
    ));
    assert!(matches!(
        &plan.items[5].action,
        Action::Github { inner: GithubAction::CreateRelease { tag, .. }, .. }
            if tag == "vm-a-v1.0.0"
    ));
    assert!(matches!(
        &plan.items[7].action,
        Action::CratesIO { inner: CratesIOAction::Publish { dry_run: false, .. }, .. }
    ));
    assert!(plan.items.iter().all(|it| !it.continue_on_error));
}

#[test]
fn the_built_plan_round_trips() {
    let plan = build_publish_plan(&"/r".to_string(), &vec![pkg("vm-a", "1.0.0")]);
    let back = Plan::decode(&plan.encode()).unwrap();
    assert_eq!(back, plan);
}

#[test]
fn manifests_match_by_package_name() {
    let m = Manifest { package: pkg("vm-a", "1.0.0"), dependencies: vec![] };
    assert!(manifest_matches(&m, "vm-a"));
    assert!(!manifest_matches(&m, "vm-b"));
}

#[test]
fn integer_lexemes_parse_exactly() {
    assert_eq!(parse_i64("0"), Some(0));
    assert_eq!(parse_i64("1234567890"), Some(1234567890));
    assert_eq!(parse_i64("-42"), Some(-42));
    assert_eq!(parse_i64("9223372036854775807"), Some(i64::MAX));
    assert_eq!(parse_i64("-9223372036854775808"), Some(i64::MIN));
    assert_eq!(parse_i64("9223372036854775808"), None);
    assert_eq!(parse_i64(""), None);
    assert_eq!(parse_i64("-"), None);
    assert_eq!(parse_i64("12x"), None);
}

#[test]
fn the_default_command_checks_the_given_directory() {
    let c = release_plan::cli::Command::default_command("/work".to_string());
    assert!(matches!(
        c,
        release_plan::cli::Command::HealthCheck {
            repository,
            package: None,
            fix: false,
            json_plan_output: None,
        } if repository == "/work"
    ));
}
