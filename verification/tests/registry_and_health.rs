//! The registry client's decoding, pagination and filtering, and the
//! ownership health check.

use release_plan::crates_io::{CratesIoAPIError, CratesIoAPIErrorDetail, DecodeError};
use release_plan::crates_io::reverse_dependencies::{Version, paginate_step, retain_in_org};
use release_plan::crates_io::{get_crate, get_owners, reverse_dependencies};
use release_plan::health_checks::CheckCrateOwners;

fn mk_version(id: i64, repository: Option<&str>) -> Version {
    Version {
        id,
        crate_field: "dep".to_string(),
        num: "0.1.0".to_string(),
        created_at: "2024-01-01".to_string(),
        updated_at: "2024-01-02".to_string(),
        downloads: 7,
        yanked: false,
        license: "Apache-2.0".to_string(),
        checksum: "abc".to_string(),
        description: "d".to_string(),
        repository: repository.map(|s| s.to_string()),
    }
}

#[test]
fn owners_success_decodes() {
    let body = "{\"users\":[{\"id\":1,\"login\":\"alice\",\"kind\":\"user\",\"url\":\"u\",\"name\":\"Alice\",\"avatar\":\"a\"}]}";
    let reply = get_owners::Response::try_deserialize(body).unwrap().unwrap();
    assert_eq!(reply.users.len(), 1);
    assert_eq!(reply.users[0].login, "alice");
    assert_eq!(reply.users[0].id, 1);
}

#[test]
fn error_shape_wins_over_success_shape() {
    let body = "{\"errors\":[{\"detail\":\"Not Found\"}]}";
    let reply = get_owners::Response::try_deserialize(body).unwrap();
    let err = reply.unwrap_err();
    assert_eq!(err.errors.len(), 1);
    assert_eq!(err.errors[0].detail, "Not Found");
}

#[test]
fn malformed_bodies_are_transport_errors() {
    assert_eq!(
        get_owners::Response::try_deserialize("{\"users\":"),
        Err(DecodeError::MalformedJson)
    );
    assert_eq!(
        get_owners::Response::try_deserialize("{\"surprise\":1}"),
        Err(DecodeError::UnexpectedShape)
    );
}

#[test]
fn crate_reply_decodes_and_drives_the_publish_decision() {
    let body = "{\"crate\":{\"id\":\"c\",\"name\":\"c\",\"default_version\":\"1.2.3\",\"max_version\":\"1.2.3\",\"newest_version\":\"1.2.3\",\"downloads\":10,\"num_versions\":3,\"yanked\":false,\"exact_match\":true}}";
    let reply = get_crate::Response::try_deserialize(body).unwrap().unwrap();
    assert_eq!(reply.crate_field.default_version, "1.2.3");
    assert_eq!(reply.crate_field.description, None);
    assert!(get_crate::needs_publish(
        &"1.3.0".to_string(),
        &reply.crate_field.default_version
    ));
    assert!(!get_crate::needs_publish(
        &"1.2.3".to_string(),
        &reply.crate_field.default_version
    ));
}

#[test]
fn reverse_dependencies_page_decodes() {
    let body = "{\"dependencies\":[{\"id\":5,\"version_id\":6,\"crate_id\":\"c\",\"req\":\"^1\",\"optional\":false,\"default_features\":true,\"target\":null,\"kind\":\"normal\",\"downloads\":2}],\"versions\":[{\"id\":9,\"crate\":\"dep\",\"num\":\"0.1.0\",\"created_at\":\"x\",\"updated_at\":\"y\",\"downloads\":3,\"yanked\":false,\"license\":\"MIT\",\"checksum\":\"z\",\"description\":\"d\",\"repository\":\"https://github.com/rust-vmm/dep\"}],\"meta\":{\"total\":25}}";
    let reply = reverse_dependencies::Response::try_deserialize(body).unwrap().unwrap();
    assert_eq!(reply.meta.total, 25);
    assert_eq!(reply.dependencies.len(), 1);
    assert_eq!(reply.versions.len(), 1);
    assert_eq!(
        reply.versions[0].repository.as_deref(),
        Some("https://github.com/rust-vmm/dep")
    );
}

#[test]
fn pagination_requests_exactly_three_pages_for_25() {
    let mut acc: Vec<Version> = Vec::new();
    let total = 25;
    let mut pages_requested = 1;
    let page1: Vec<Version> = (0..10).map(|i| mk_version(i, None)).collect();
    let mut next = paginate_step(&mut acc, page1, total, 1);
    assert_eq!(next, Some(2));
    let page2: Vec<Version> = (10..20).map(|i| mk_version(i, None)).collect();
    pages_requested += 1;
    next = paginate_step(&mut acc, page2, total, next.unwrap());
    assert_eq!(next, Some(3));
    let page3: Vec<Version> = (20..25).map(|i| mk_version(i, None)).collect();
    pages_requested += 1;
    next = paginate_step(&mut acc, page3, total, next.unwrap());
    assert_eq!(next, None);
    assert_eq!(pages_requested, 3);
    assert_eq!(acc.len(), 25);
}

#[test]
fn the_filter_keeps_only_the_organization() {
    let versions = vec![
        mk_version(1, Some("https://github.com/rust-vmm/dep")),
        mk_version(2, Some("https://github.com/elsewhere/dep")),
        mk_version(3, None),
        mk_version(4, Some("https://github.com/rust-vmm-other")),
    ];
    let kept = retain_in_org(versions);
    let ids: Vec<i64> = kept.iter().map(|v| v.id).collect();
    assert_eq!(ids, vec![1, 4]);
}

#[test]
fn reverse_dependencies_endpoint_paginates() {
    let q = reverse_dependencies::Query { crate_name: "vm-memory".to_string() };
    assert_eq!(
        q.endpoint(2),
        "https://crates.io/api/v1/crates/vm-memory/reverse_dependencies?page=2&per_page=10"
    );
    assert_eq!(
        q.endpoint(12),
        "https://crates.io/api/v1/crates/vm-memory/reverse_dependencies?page=12&per_page=10"
    );
}

#[test]
fn owners_endpoint_names_the_crate() {
    let q = get_owners::Query { crate_name: "vm-memory".to_string() };
    assert_eq!(q.endpoint(), "https://crates.io/api/v1/crates/vm-memory/owners");
    let q2 = get_crate::Query { crate_name: "vm-memory".to_string() };
    assert_eq!(
        q2.endpoint(),
        "https://crates.io/api/v1/crates/vm-memory?include=default_version"
    );
}

fn check() -> CheckCrateOwners {
    CheckCrateOwners {
        crate_name: "my-crate".to_string(),
        local_crate_path: "/tmp/repo".to_string(),
    }
}

fn owners_with(logins: &[&str]) -> get_owners::Response {
    get_owners::Response {
        users: logins
            .iter()
            .enumerate()
            .map(|(i, l)| get_owners::User {
                id: i as i64,
                login: l.to_string(),
                kind: "user".to_string(),
                url: "u".to_string(),
                name: "n".to_string(),
                avatar: "a".to_string(),
            })
            .collect(),
    }
}

#[test]
fn a_single_not_found_detail_means_assumed_unpublished() {
    let err = CratesIoAPIError {
        errors: vec![CratesIoAPIErrorDetail { detail: "Not Found".to_string() }],
    };
    let r = check().evaluate_reply(Err(err), &vec![]);
    assert_eq!(
        r.unwrap_err(),
        "Crate my-crate was not found on crates.io and is assumed unpublished."
    );
}

#[test]
fn other_error_payloads_are_surfaced_generically() {
    let err = CratesIoAPIError {
        errors: vec![
            CratesIoAPIErrorDetail { detail: "Not Found".to_string() },
            CratesIoAPIErrorDetail { detail: "rate limited".to_string() },
        ],
    };
    let r = check().evaluate_reply(Err(err), &vec![]);
    assert_eq!(
        r.unwrap_err(),
        "crates.io error: CratesIoAPIError { errors: [CratesIoAPIErrorDetail { detail: \"Not Found\" }, CratesIoAPIErrorDetail { detail: \"rate limited\" }] }"
    );
    let err2 = CratesIoAPIError {
        errors: vec![CratesIoAPIErrorDetail { detail: "boom".to_string() }],
    };
    let r2 = check().evaluate_reply(Err(err2), &vec![]);
    assert_eq!(
        r2.unwrap_err(),
        "crates.io error: CratesIoAPIError { errors: [CratesIoAPIErrorDetail { detail: \"boom\" }] }"
    );
}

#[test]
fn missing_gatekeepers_team_is_reported_with_its_fix() {
    let owners = owners_with(&["alice"]);
    let findings = check().evaluate(&owners, &vec![]);
    assert_eq!(findings.len(), 1);
    assert_eq!(
        findings[0].description,
        "rust-vmm:gatekeepers team must be in \"my-crate\"'s owners."
    );
    let fix = findings[0].fix_action.as_ref().unwrap();
    assert!(matches!(
        fix,
        release_plan::actions::Action::CratesIO { repository, inner: release_plan::actions::CratesIOAction::AddOwner { crate_name, login_value } }
            if repository == "/tmp/repo" && crate_name == "my-crate" && login_value == "rust-vmm:gatekeepers"
    ));
}

#[test]
fn code_owner_handles_are_trimmed_and_checked() {
    let owners = owners_with(&["github:rust-vmm:gatekeepers", "alice"]);
    let code_owners = vec!["@alice".to_string(), "@bob".to_string()];
    let findings = check().evaluate(&owners, &code_owners);
    assert_eq!(findings.len(), 1);
    assert_eq!(findings[0].description, "bob user must be in \"my-crate\"'s owners.");
}

#[test]
fn a_complete_ownership_passes_cleanly() {
    let owners = owners_with(&["github:rust-vmm:gatekeepers", "alice"]);
    let r = check().evaluate_reply(Ok(owners), &vec!["@alice".to_string()]);
    assert_eq!(r.unwrap().len(), 0);
}

#[test]
fn an_error_page_aborts_the_accumulation() {
    let mut acc = vec![mk_version(1, None)];
    let err = CratesIoAPIError {
        errors: vec![CratesIoAPIErrorDetail { detail: "boom".to_string() }],
    };
    let r = paginate_step_reply_err(&mut acc, err.clone());
    assert_eq!(r.unwrap_err(), err);
    assert_eq!(acc.len(), 1);
}

fn paginate_step_reply_err(
    acc: &mut Vec<Version>,
    err: CratesIoAPIError,
) -> Result<Option<u64>, CratesIoAPIError> {
    release_plan::crates_io::reverse_dependencies::paginate_reply(acc, Err(err), 1)
}

#[test]
fn a_success_page_continues_or_finishes_by_the_total() {
    let mut acc: Vec<Version> = Vec::new();
    let page = reverse_dependencies::Response {
        dependencies: vec![],
        versions: vec![mk_version(1, None), mk_version(2, None)],
        meta: reverse_dependencies::Meta { total: 3 },
    };
    let next = release_plan::crates_io::reverse_dependencies::paginate_reply(
        &mut acc,
        Ok(page),
        1,
    )
    .unwrap();
    assert_eq!(next, Some(2));
    let last = reverse_dependencies::Response {
        dependencies: vec![],
        versions: vec![mk_version(3, None)],
        meta: reverse_dependencies::Meta { total: 3 },
    };
    let done = release_plan::crates_io::reverse_dependencies::paginate_reply(
        &mut acc,
        Ok(last),
        2,
    )
    .unwrap();
    assert_eq!(done, None);
    assert_eq!(acc.len(), 3);
}
