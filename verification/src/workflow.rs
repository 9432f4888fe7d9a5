//! The publish workflow: from the packages that need publishing, build
//! the release plan — branch assertion, dry-run publishes, tag creation
//! and push, releases, and the real publishes, in that order.

use vstd::prelude::*;
use vstd::string::StringExecFns;

use crate::actions::{
    Action, ActionV, CratesIOAction, CratesIOActionV, GithubAction, GithubActionV, LocalAction,
    LocalActionV, Plan, PlanItem, PlanItemV, PlanV, view_strings,
};
use crate::compile::spec_release_title;
use crate::manifest::Package;

verus! {

/// Tag names joined for a description, separated by commas.
pub open spec fn spec_join_comma(parts: Seq<Seq<char>>) -> Seq<char>
    decreases parts.len(),
{
    if parts.len() == 0 {
        Seq::empty()
    } else if parts.len() == 1 {
        parts[0]
    } else {
        parts[0] + ","@ + spec_join_comma(parts.skip(1))
    }
}

/// The release tag of each package: its name, `-v`, its version.
pub open spec fn spec_release_tags(pkgs: Seq<(Seq<char>, Seq<char>)>) -> Seq<Seq<char>> {
    pkgs.map_values(|p: (Seq<char>, Seq<char>)| spec_release_title(p.0, p.1))
}

/// The opening item: assert the checkout is on the default branch.
pub open spec fn spec_branch_item(repo: Seq<char>) -> PlanItemV {
    PlanItemV {
        description: Some("Ensure we are in default branch"@),
        action: ActionV::Local { repository: repo, inner: LocalActionV::AssertDefaultBranch },
        continue_on_error: false,
    }
}

/// A dry-run publish of one package.
pub open spec fn spec_dry_run_item(repo: Seq<char>, p: (Seq<char>, Seq<char>)) -> PlanItemV {
    PlanItemV {
        description: Some("Publish package `"@ + p.0 + "` to crates.io (dry run)"@),
        action: ActionV::CratesIO {
            repository: repo,
            inner: CratesIOActionV::Publish { crate_name: p.0, dry_run: true },
        },
        continue_on_error: false,
    }
}

/// Creating every release tag.
pub open spec fn spec_create_tags_item(repo: Seq<char>, tags: Seq<Seq<char>>) -> PlanItemV {
    PlanItemV {
        description: Some("Create tags `"@ + spec_join_comma(tags) + "`"@),
        action: ActionV::Local { repository: repo, inner: LocalActionV::CreateTags {
            new_tags: tags,
        } },
        continue_on_error: false,
    }
}

/// Pushing every release tag to the default remote.
pub open spec fn spec_push_tags_item(repo: Seq<char>, tags: Seq<Seq<char>>) -> PlanItemV {
    PlanItemV {
        description: Some("Push tags `"@ + spec_join_comma(tags) + "` to remote"@),
        action: ActionV::Local { repository: repo, inner: LocalActionV::PublishTags {
            tags,
            remote: None,
        } },
        continue_on_error: false,
    }
}

/// The hosted release of one package, from its pushed tag.
pub open spec fn spec_release_item(repo: Seq<char>, p: (Seq<char>, Seq<char>)) -> PlanItemV {
    PlanItemV {
        description: Some("Create a GitHub release for crate `"@ + p.0 + "` v"@ + p.1),
        action: ActionV::Github {
            repository: repo,
            inner: GithubActionV::CreateRelease {
                crate_name: p.0,
                tag: spec_release_title(p.0, p.1),
                version: p.1,
            },
        },
        continue_on_error: false,
    }
}

/// The real publish of one package.
pub open spec fn spec_publish_item(repo: Seq<char>, p: (Seq<char>, Seq<char>)) -> PlanItemV {
    PlanItemV {
        description: Some("Publish package `"@ + p.0 + "` to crates.io"@),
        action: ActionV::CratesIO {
            repository: repo,
            inner: CratesIOActionV::Publish { crate_name: p.0, dry_run: false },
        },
        continue_on_error: false,
    }
}

/// The whole publish plan, in its causal order: branch assertion, dry
/// runs, tag creation, tag push, releases, publishes.
pub open spec fn spec_publish_plan(repo: Seq<char>, pkgs: Seq<(Seq<char>, Seq<char>)>) -> PlanV {
    PlanV {
        items: seq![spec_branch_item(repo)] + pkgs.map_values(
            |p: (Seq<char>, Seq<char>)| spec_dry_run_item(repo, p),
        ) + seq![
            spec_create_tags_item(repo, spec_release_tags(pkgs)),
            spec_push_tags_item(repo, spec_release_tags(pkgs)),
        ] + pkgs.map_values(|p: (Seq<char>, Seq<char>)| spec_release_item(repo, p))
            + pkgs.map_values(|p: (Seq<char>, Seq<char>)| spec_publish_item(repo, p)),
    }
}

fn join_comma(parts: &Vec<String>) -> (r: String)
    ensures
        r@ == spec_join_comma(view_strings(parts@)),
{
    let ghost pv = view_strings(parts@);
    let mut r = String::new();
    let mut i: usize = 0;
    proof {
        assert(pv.skip(0) =~= pv);
    }
    while i < parts.len()
        invariant
            i <= parts@.len(),
            pv == view_strings(parts@),
            pv.len() == parts@.len(),
            spec_join_comma(pv) == r@ + (if 0 < i < pv.len() {
                ","@ + spec_join_comma(pv.skip(i as int))
            } else {
                spec_join_comma(pv.skip(i as int))
            }),
        decreases parts@.len() - i,
    {
        proof {
            assert(pv.skip(i as int)[0] == pv[i as int]);
            assert(pv.skip(i as int).skip(1) =~= pv.skip(i + 1));
            assert(pv[i as int] == parts@[i as int]@);
        }
        let ghost r0 = r@;
        if i > 0 {
            r.append(",");
        }
        r.append(parts[i].as_str());
        proof {
            if pv.skip(i as int).len() > 1 {
                assert(spec_join_comma(pv.skip(i as int)) == pv[i as int] + ","@
                    + spec_join_comma(pv.skip(i + 1)));
            } else {
                assert(spec_join_comma(pv.skip(i as int)) == pv[i as int]);
            }
            if i == 0 {
                assert(r@ =~= r0 + pv[i as int]);
                if pv.len() > 1 {
                    assert(r0 + (pv[i as int] + ","@ + spec_join_comma(pv.skip(i + 1))) =~= r@
                        + ","@ + spec_join_comma(pv.skip(i + 1)));
                }
            } else {
                assert(r@ =~= r0 + ","@ + pv[i as int]);
                if pv.skip(i as int).len() > 1 {
                    assert(r0 + (","@ + (pv[i as int] + ","@ + spec_join_comma(pv.skip(i + 1))))
                        =~= r@ + ","@ + spec_join_comma(pv.skip(i + 1)));
                } else {
                    assert(r0 + (","@ + pv[i as int]) =~= r@);
                }
            }
        }
        i += 1;
    }
    proof {
        assert(spec_join_comma(pv.skip(pv.len() as int)) == Seq::<char>::empty());
        assert(r@ + Seq::<char>::empty() =~= r@);
    }
    r
}

/// Build the publish plan for the packages that need publishing, all in
/// the one repository checkout. Order is causal: tags must exist before
/// they are pushed, and be pushed before releases are cut from them.
#[verifier::loop_isolation(false)]
#[verifier::rlimit(100)]
pub fn build_publish_plan(repository: &String, packages: &Vec<Package>) -> (r: Plan)
    requires
        packages@.len() > 0,
    ensures
        r@ == spec_publish_plan(
            repository@,
            packages@.map_values(|p: Package| (p.name@, p.version@)),
        ),
{
    let ghost repo = repository@;
    let ghost pkgs = packages@.map_values(|p: Package| (p.name@, p.version@));
    let mut items: Vec<PlanItem> = Vec::new();
    // Branch assertion.
    items.push(
        PlanItem {
            description: Some("Ensure we are in default branch".to_owned()),
            action: Action::Local {
                repository: repository.clone(),
                inner: LocalAction::AssertDefaultBranch,
            },
            continue_on_error: false,
        },
    );
    proof {
        assert(items@.map_values(|it: PlanItem| it@) =~= seq![spec_branch_item(repo)]);
    }
    // Dry-run publishes.
    let mut i: usize = 0;
    while i < packages.len()
        invariant
            i <= packages@.len(),
            items@.map_values(|it: PlanItem| it@) == seq![spec_branch_item(repo)]
                + pkgs.subrange(0, i as int).map_values(
                |p: (Seq<char>, Seq<char>)| spec_dry_run_item(repo, p),
            ),
        decreases packages@.len() - i,
    {
        let mut description = "Publish package `".to_owned();
        description.append(packages[i].name.as_str());
        description.append("` to crates.io (dry run)");
        let ghost prev = items@.map_values(|it: PlanItem| it@);
        items.push(
            PlanItem {
                description: Some(description),
                action: Action::CratesIO {
                    repository: repository.clone(),
                    inner: CratesIOAction::Publish {
                        crate_name: packages[i].name.clone(),
                        dry_run: true,
                    },
                },
                continue_on_error: false,
            },
        );
        proof {
            assert(pkgs[i as int] == (packages@[i as int].name@, packages@[i as int].version@));
            assert(items@.map_values(|it: PlanItem| it@) =~= prev.push(
                spec_dry_run_item(repo, pkgs[i as int]),
            ));
            assert(pkgs.subrange(0, i + 1) =~= pkgs.subrange(0, i as int).push(pkgs[i as int]));
            assert(items@.map_values(|it: PlanItem| it@) =~= seq![spec_branch_item(repo)]
                + pkgs.subrange(0, i + 1).map_values(
                |p: (Seq<char>, Seq<char>)| spec_dry_run_item(repo, p),
            ));
        }
        i += 1;
    }
    proof {
        assert(pkgs.subrange(0, pkgs.len() as int) =~= pkgs);
    }
    let ghost after_dry = items@.map_values(|it: PlanItem| it@);
    // The release tags.
    let mut tags: Vec<String> = Vec::new();
    let mut i: usize = 0;
    while i < packages.len()
        invariant
            i <= packages@.len(),
            view_strings(tags@) == spec_release_tags(pkgs).subrange(0, i as int),
        decreases packages@.len() - i,
    {
        let mut tag = packages[i].name.clone();
        tag.append("-v");
        tag.append(packages[i].version.as_str());
        let ghost prev = view_strings(tags@);
        tags.push(tag);
        proof {
            assert(pkgs[i as int] == (packages@[i as int].name@, packages@[i as int].version@));
            assert(spec_release_tags(pkgs)[i as int] == spec_release_title(
                pkgs[i as int].0,
                pkgs[i as int].1,
            ));
            assert(view_strings(tags@) =~= prev.push(spec_release_tags(pkgs)[i as int]));
            assert(spec_release_tags(pkgs).subrange(0, i + 1) =~= spec_release_tags(
                pkgs,
            ).subrange(0, i as int).push(spec_release_tags(pkgs)[i as int]));
        }
        i += 1;
    }
    proof {
        assert(spec_release_tags(pkgs).subrange(0, spec_release_tags(pkgs).len() as int)
            =~= spec_release_tags(pkgs));
        assert(view_strings(tags@) == spec_release_tags(pkgs));
    }
    let joined = join_comma(&tags);
    // Create the tags.
    let mut description = "Create tags `".to_owned();
    description.append(joined.as_str());
    description.append("`");
    let ghost prev = items@.map_values(|it: PlanItem| it@);
    items.push(
        PlanItem {
            description: Some(description),
            action: Action::Local {
                repository: repository.clone(),
                inner: LocalAction::CreateTags { new_tags: clone_strings(&tags) },
            },
            continue_on_error: false,
        },
    );
    proof {
        assert(items@.map_values(|it: PlanItem| it@) =~= prev.push(
            spec_create_tags_item(repo, spec_release_tags(pkgs)),
        ));
    }
    // Push the tags.
    let mut description = "Push tags `".to_owned();
    description.append(joined.as_str());
    description.append("` to remote");
    let ghost prev = items@.map_values(|it: PlanItem| it@);
    items.push(
        PlanItem {
            description: Some(description),
            action: Action::Local {
                repository: repository.clone(),
                inner: LocalAction::PublishTags { tags: clone_strings(&tags), remote: None },
            },
            continue_on_error: false,
        },
    );
    proof {
        assert(items@.map_values(|it: PlanItem| it@) =~= prev.push(
            spec_push_tags_item(repo, spec_release_tags(pkgs)),
        ));
        assert(items@.map_values(|it: PlanItem| it@) =~= after_dry + seq![
            spec_create_tags_item(repo, spec_release_tags(pkgs)),
            spec_push_tags_item(repo, spec_release_tags(pkgs)),
        ]);
    }
    let ghost after_tags = items@.map_values(|it: PlanItem| it@);
    // The releases.
    let mut i: usize = 0;
    while i < packages.len()
        invariant
            i <= packages@.len(),
            i <= tags@.len(),
            tags@.len() == packages@.len(),
            items@.map_values(|it: PlanItem| it@) == after_tags + pkgs.subrange(
                0,
                i as int,
            ).map_values(|p: (Seq<char>, Seq<char>)| spec_release_item(repo, p)),
        decreases packages@.len() - i,
    {
        let mut description = "Create a GitHub release for crate `".to_owned();
        description.append(packages[i].name.as_str());
        description.append("` v");
        description.append(packages[i].version.as_str());
        let ghost prev = items@.map_values(|it: PlanItem| it@);
        items.push(
            PlanItem {
                description: Some(description),
                action: Action::Github {
                    repository: repository.clone(),
                    inner: GithubAction::CreateRelease {
                        crate_name: packages[i].name.clone(),
                        tag: tags[i].clone(),
                        version: packages[i].version.clone(),
                    },
                },
                continue_on_error: false,
            },
        );
        proof {
            assert(pkgs[i as int] == (packages@[i as int].name@, packages@[i as int].version@));
            assert(view_strings(tags@)[i as int] == tags@[i as int]@);
            assert(spec_release_tags(pkgs)[i as int] == spec_release_title(
                pkgs[i as int].0,
                pkgs[i as int].1,
            ));
            assert(tags@[i as int]@ == spec_release_title(pkgs[i as int].0, pkgs[i as int].1));
            assert(items@.map_values(|it: PlanItem| it@) =~= prev.push(
                spec_release_item(repo, pkgs[i as int]),
            ));
            assert(pkgs.subrange(0, i + 1) =~= pkgs.subrange(0, i as int).push(pkgs[i as int]));
            assert(items@.map_values(|it: PlanItem| it@) =~= after_tags + pkgs.subrange(
                0,
                i + 1,
            ).map_values(|p: (Seq<char>, Seq<char>)| spec_release_item(repo, p)));
        }
        i += 1;
    }
    proof {
        assert(pkgs.subrange(0, pkgs.len() as int) =~= pkgs);
    }
    let ghost after_releases = items@.map_values(|it: PlanItem| it@);
    // The real publishes.
    let mut i: usize = 0;
    while i < packages.len()
        invariant
            i <= packages@.len(),
            items@.map_values(|it: PlanItem| it@) == after_releases + pkgs.subrange(
                0,
                i as int,
            ).map_values(|p: (Seq<char>, Seq<char>)| spec_publish_item(repo, p)),
        decreases packages@.len() - i,
    {
        let mut description = "Publish package `".to_owned();
        description.append(packages[i].name.as_str());
        description.append("` to crates.io");
        let ghost prev = items@.map_values(|it: PlanItem| it@);
        items.push(
            PlanItem {
                description: Some(description),
                action: Action::CratesIO {
                    repository: repository.clone(),
                    inner: CratesIOAction::Publish {
                        crate_name: packages[i].name.clone(),
                        dry_run: false,
                    },
                },
                continue_on_error: false,
            },
        );
        proof {
            assert(pkgs[i as int] == (packages@[i as int].name@, packages@[i as int].version@));
            assert(items@.map_values(|it: PlanItem| it@) =~= prev.push(
                spec_publish_item(repo, pkgs[i as int]),
            ));
            assert(pkgs.subrange(0, i + 1) =~= pkgs.subrange(0, i as int).push(pkgs[i as int]));
            assert(items@.map_values(|it: PlanItem| it@) =~= after_releases + pkgs.subrange(
                0,
                i + 1,
            ).map_values(|p: (Seq<char>, Seq<char>)| spec_publish_item(repo, p)));
        }
        i += 1;
    }
    proof {
        assert(pkgs.subrange(0, pkgs.len() as int) =~= pkgs);
        assert(items@.map_values(|it: PlanItem| it@) =~= spec_publish_plan(repo, pkgs).items);
    }
    Plan { items }
}

fn clone_strings(v: &Vec<String>) -> (r: Vec<String>)
    ensures
        view_strings(r@) == view_strings(v@),
{
    let mut r: Vec<String> = Vec::new();
    let mut i: usize = 0;
    while i < v.len()
        invariant
            i <= v@.len(),
            view_strings(r@) == view_strings(v@).subrange(0, i as int),
        decreases v@.len() - i,
    {
        let ghost prev = view_strings(r@);
        r.push(v[i].clone());
        proof {
            assert(view_strings(r@) =~= prev.push(v@[i as int]@));
            assert(view_strings(v@).subrange(0, i + 1) =~= view_strings(v@).subrange(
                0,
                i as int,
            ).push(v@[i as int]@));
        }
        i += 1;
    }
    proof {
        assert(view_strings(v@).subrange(0, v@.len() as int) =~= view_strings(v@));
    }
    r
}

} // verus!
