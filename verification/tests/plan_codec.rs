//! The plan document codec: encoding, decoding, and the round trip.

use release_plan::actions::{Action, CratesIOAction, GithubAction, LocalAction, Plan, PlanItem};

fn sample_plan() -> Plan {
    Plan {
        items: vec![
            PlanItem {
                description: Some("add an owner".to_string()),
                action: Action::CratesIO {
                    repository: "/tmp/repo".to_string(),
                    inner: CratesIOAction::AddOwner {
                        crate_name: "my-crate".to_string(),
                        login_value: "alice".to_string(),
                    },
                },
                continue_on_error: true,
            },
            PlanItem {
                description: None,
                action: Action::Github {
                    repository: "/tmp/repo".to_string(),
                    inner: GithubAction::CreateRelease {
                        crate_name: "my-crate".to_string(),
                        tag: "my-crate-v1.2.3".to_string(),
                        version: "1.2.3".to_string(),
                    },
                },
                continue_on_error: false,
            },
            PlanItem {
                description: Some("tags".to_string()),
                action: Action::Local {
                    repository: "/tmp/repo".to_string(),
                    inner: LocalAction::CreateTags {
                        new_tags: vec!["a-v1".to_string(), "b-v2".to_string()],
                    },
                },
                continue_on_error: false,
            },
            PlanItem {
                description: None,
                action: Action::Local {
                    repository: "/tmp/repo".to_string(),
                    inner: LocalAction::PublishTags {
                        tags: vec!["a-v1".to_string()],
                        remote: Some("origin".to_string()),
                    },
                },
                continue_on_error: false,
            },
        ],
    }
}

#[test]
fn plan_round_trips_through_the_document() {
    let plan = sample_plan();
    let text = plan.encode();
    let back = Plan::decode(&text).expect("the encoded plan must decode");
    assert_eq!(back, plan);
}

#[test]
fn round_trip_keeps_exotic_characters() {
    let plan = Plan {
        items: vec![PlanItem {
            description: Some("quote \" backslash \\ newline \n tab \t done".to_string()),
            action: Action::Local {
                repository: "/re po/with space".to_string(),
                inner: LocalAction::AssertDefaultBranch,
            },
            continue_on_error: true,
        }],
    };
    let text = plan.encode();
    let back = Plan::decode(&text).expect("the encoded plan must decode");
    assert_eq!(back, plan);
}

#[test]
fn empty_plan_round_trips() {
    let plan = Plan { items: vec![] };
    let back = Plan::decode(&plan.encode()).expect("the empty plan must decode");
    assert_eq!(back, plan);
}

#[test]
fn encoding_is_the_expected_document() {
    let plan = Plan {
        items: vec![PlanItem {
            description: None,
            action: Action::Local {
                repository: "/r".to_string(),
                inner: LocalAction::AssertDefaultBranch,
            },
            continue_on_error: false,
        }],
    };
    let text = plan.encode();
    assert_eq!(
        text,
        "{\"items\":[{\"description\":null,\"action\":{\"kind\":\"assertDefaultBranch\",\"repository\":\"/r\"},\"continueOnError\":false}]}"
    );
}

#[test]
fn decoding_accepts_whitespace_and_any_field_order() {
    let text = "{ \"items\" : [ { \"continueOnError\" : true ,\n  \"action\" : { \"repository\" : \"/r\" , \"kind\" : \"assertDefaultBranch\" } } ] }";
    let plan = Plan::decode(text).expect("a reordered document must decode");
    assert_eq!(plan.items.len(), 1);
    assert_eq!(plan.items[0].description, None);
    assert!(plan.items[0].continue_on_error);
    assert!(matches!(
        &plan.items[0].action,
        Action::Local { repository, inner: LocalAction::AssertDefaultBranch } if repository == "/r"
    ));
}

#[test]
fn decoding_accepts_absent_defaults() {
    let text = "{\"items\":[{\"action\":{\"kind\":\"publish\",\"repository\":\"/r\",\"crateName\":\"c\",\"dryRun\":true}}]}";
    let plan = Plan::decode(text).expect("absent description and flag must decode");
    assert_eq!(plan.items[0].description, None);
    assert!(!plan.items[0].continue_on_error);
}

#[test]
fn decoding_rejects_an_unknown_kind() {
    let text = "{\"items\":[{\"action\":{\"kind\":\"frobnicate\",\"repository\":\"/r\"}}]}";
    assert_eq!(Plan::decode(text), None);
}

#[test]
fn decoding_rejects_malformed_documents() {
    assert_eq!(Plan::decode("{\"items\":["), None);
    assert_eq!(Plan::decode("[]"), None);
    assert_eq!(Plan::decode("{\"items\":true}"), None);
    assert_eq!(Plan::decode(""), None);
}

#[test]
fn unicode_escapes_decode() {
    let text = "{\"items\":[{\"description\":\"a\\u0041b\\n\",\"action\":{\"kind\":\"assertDefaultBranch\",\"repository\":\"/r\"}}]}";
    let plan = Plan::decode(text).expect("escapes must decode");
    assert_eq!(plan.items[0].description.as_deref(), Some("aAb\n"));
}

#[test]
fn surrogate_pairs_decode_to_one_character() {
    let text = "{\"items\":[{\"description\":\"\\uD83D\\uDE00!\",\"action\":{\"kind\":\"assertDefaultBranch\",\"repository\":\"/r\"}}]}";
    let plan = Plan::decode(text).expect("a surrogate pair must decode");
    assert_eq!(plan.items[0].description.as_deref(), Some("\u{1F600}!"));
}

#[test]
fn lone_surrogates_are_rejected() {
    let high = "{\"items\":[{\"description\":\"\\uD83D\",\"action\":{\"kind\":\"assertDefaultBranch\",\"repository\":\"/r\"}}]}";
    assert_eq!(Plan::decode(high), None);
    let low_first = "{\"items\":[{\"description\":\"\\uDE00\",\"action\":{\"kind\":\"assertDefaultBranch\",\"repository\":\"/r\"}}]}";
    assert_eq!(Plan::decode(low_first), None);
    let high_then_junk = "{\"items\":[{\"description\":\"\\uD83Dxx\",\"action\":{\"kind\":\"assertDefaultBranch\",\"repository\":\"/r\"}}]}";
    assert_eq!(Plan::decode(high_then_junk), None);
}
