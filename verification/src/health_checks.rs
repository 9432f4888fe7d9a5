//! The crate-ownership health check: the gatekeepers team and every code
//! owner of the repository must be among the crate's registry owners; a
//! missing owner yields a report with the action that would fix it. A
//! registry error payload holding exactly one "Not Found" detail means the
//! crate is assumed unpublished — a failure distinct from every other
//! registry error.

use vstd::prelude::*;
use vstd::string::{StrSliceExecFns, StringExecFns};

use crate::actions::{Action, ActionV, CratesIOAction, CratesIOActionV, view_strings};
use crate::crates_io::CratesIoAPIError;
use crate::crates_io::get_owners::{Response, User, UserV};
use crate::text::{push_char, spec_debug_quoted, write_debug_quoted};

verus! {

/// One finding: what is wrong, and the action that would fix it.
#[derive(Debug, Clone, PartialEq)]
pub struct HealthCheckError {
    pub description: String,
    pub fix_action: Option<Action>,
}

/// Mathematical model of a finding.
pub struct HealthCheckErrorV {
    pub description: Seq<char>,
    pub fix_action: Option<ActionV>,
}

impl View for HealthCheckError {
    type V = HealthCheckErrorV;

    open spec fn view(&self) -> HealthCheckErrorV {
        HealthCheckErrorV {
            description: self.description@,
            fix_action: match self.fix_action {
                Some(a) => Some(a@),
                None => None,
            },
        }
    }
}

/// The ownership health check for one crate and its local checkout.
#[derive(Debug)]
pub struct CheckCrateOwners {
    pub crate_name: String,
    pub local_crate_path: String,
}

/// The team login that must own every crate.
pub open spec fn spec_gatekeepers_login() -> Seq<char> {
    "github:rust-vmm:gatekeepers"@
}

/// Whether some owner carries the login.
pub open spec fn spec_has_login(users: Seq<UserV>, login: Seq<char>) -> bool {
    exists|i: int| 0 <= i < users.len() && users[i].login == login
}

/// A code-owner handle with its leading at-signs removed.
pub open spec fn spec_trim_leading_at(s: Seq<char>) -> Seq<char>
    decreases s.len(),
{
    if s.len() > 0 && s[0] == '@' {
        spec_trim_leading_at(s.skip(1))
    } else {
        s
    }
}

/// The fix for a missing owner: add it on the registry.
pub open spec fn spec_add_owner_fix(
    path: Seq<char>,
    crate_name: Seq<char>,
    login: Seq<char>,
) -> ActionV {
    ActionV::CratesIO {
        repository: path,
        inner: CratesIOActionV::AddOwner { crate_name, login_value: login },
    }
}

/// The finding for the missing gatekeepers team.
pub open spec fn spec_gatekeepers_error(crate_name: Seq<char>, path: Seq<char>) -> HealthCheckErrorV {
    HealthCheckErrorV {
        description: "rust-vmm:gatekeepers team must be in "@ + spec_debug_quoted(crate_name)
            + "'s owners."@,
        fix_action: Some(spec_add_owner_fix(path, crate_name, "rust-vmm:gatekeepers"@)),
    }
}

/// The finding for one missing code owner.
pub open spec fn spec_code_owner_error(
    crate_name: Seq<char>,
    path: Seq<char>,
    login: Seq<char>,
) -> HealthCheckErrorV {
    HealthCheckErrorV {
        description: login + " user must be in "@ + spec_debug_quoted(crate_name)
            + "'s owners."@,
        fix_action: Some(spec_add_owner_fix(path, crate_name, login)),
    }
}

/// The findings for the code owners, in their order: one per trimmed
/// handle missing from the owners.
pub open spec fn spec_code_owner_errors(
    crate_name: Seq<char>,
    path: Seq<char>,
    users: Seq<UserV>,
    code_owners: Seq<Seq<char>>,
) -> Seq<HealthCheckErrorV>
    decreases code_owners.len(),
{
    if code_owners.len() == 0 {
        Seq::empty()
    } else {
        let t = spec_trim_leading_at(code_owners[0]);
        (if !spec_has_login(users, t) {
            seq![spec_code_owner_error(crate_name, path, t)]
        } else {
            Seq::<HealthCheckErrorV>::empty()
        }) + spec_code_owner_errors(crate_name, path, users, code_owners.skip(1))
    }
}

/// All findings of the ownership check: the gatekeepers team first, then
/// the code owners in order.
pub open spec fn spec_owner_errors(
    crate_name: Seq<char>,
    path: Seq<char>,
    users: Seq<UserV>,
    code_owners: Seq<Seq<char>>,
) -> Seq<HealthCheckErrorV> {
    (if !spec_has_login(users, spec_gatekeepers_login()) {
        seq![spec_gatekeepers_error(crate_name, path)]
    } else {
        Seq::<HealthCheckErrorV>::empty()
    }) + spec_code_owner_errors(crate_name, path, users, code_owners)
}

/// A registry error payload that means "not found, assumed unpublished":
/// exactly one entry, whose detail is "Not Found".
pub open spec fn spec_not_found(e: CratesIoAPIError) -> bool {
    e.errors@.len() == 1 && e.errors@[0].detail@ == "Not Found"@
}

fn trim_leading_at(s: &str) -> (r: String)
    ensures
        r@ == spec_trim_leading_at(s@),
{
    let n = s.unicode_len();
    let mut i: usize = 0;
    proof {
        assert(s@.skip(0) =~= s@);
    }
    while i < n && s.get_char(i) == '@'
        invariant
            i <= n,
            n == s@.len(),
            spec_trim_leading_at(s@) == spec_trim_leading_at(s@.skip(i as int)),
        decreases n - i,
    {
        proof {
            assert(s@.skip(i as int)[0] == s@[i as int]);
            assert(s@.skip(i as int).skip(1) =~= s@.skip(i + 1));
        }
        i += 1;
    }
    proof {
        let t = s@.skip(i as int);
        if i < n {
            assert(t[0] == s@[i as int]);
        }
        assert(spec_trim_leading_at(t) == t);
    }
    let mut r = String::new();
    let mut k: usize = i;
    while k < n
        invariant
            i <= k <= n,
            n == s@.len(),
            r@ == s@.subrange(i as int, k as int),
        decreases n - k,
    {
        push_char(&mut r, s.get_char(k));
        proof {
            assert(r@ =~= s@.subrange(i as int, k + 1));
        }
        k += 1;
    }
    proof {
        assert(s@.subrange(i as int, n as int) =~= s@.skip(i as int));
    }
    r
}

fn has_login(users: &Vec<User>, login: &String) -> (r: bool)
    ensures
        r == spec_has_login(users@.map_values(|u: User| u@), login@),
{
    let ghost uv = users@.map_values(|u: User| u@);
    let mut i: usize = 0;
    while i < users.len()
        invariant
            i <= users@.len(),
            uv == users@.map_values(|u: User| u@),
            uv.len() == users@.len(),
            forall|k: int| 0 <= k < i ==> (#[trigger] uv[k]).login != login@,
        decreases users@.len() - i,
    {
        if users[i].login == *login {
            assert(uv[i as int].login == login@);
            return true;
        }
        i += 1;
    }
    false
}

impl CheckCrateOwners {
    /// The check's findings, given the owners the registry reports and the
    /// repository's parsed code-owner handles: the gatekeepers team must
    /// be an owner, and so must every code owner (handle trimmed of its
    /// leading at-signs); each missing owner yields a finding carrying the
    /// add-owner action that would fix it.
    #[verifier::loop_isolation(false)]
    #[verifier::rlimit(80)]
    pub fn evaluate(&self, owners: &Response, code_owners: &Vec<String>) -> (r: Vec<
        HealthCheckError,
    >)
        ensures
            r@.map_values(|e: HealthCheckError| e@) == spec_owner_errors(
                self.crate_name@,
                self.local_crate_path@,
                owners@,
                view_strings(code_owners@),
            ),
    {
        let ghost users = owners@;
        let ghost cov = view_strings(code_owners@);
        let mut r: Vec<HealthCheckError> = Vec::new();
        let gatekeepers = "github:rust-vmm:gatekeepers".to_owned();
        if !has_login(&owners.users, &gatekeepers) {
            let mut description = "rust-vmm:gatekeepers team must be in ".to_owned();
            write_debug_quoted(self.crate_name.as_str(), &mut description);
            description.append("'s owners.");
            let fix = Action::CratesIO {
                repository: self.local_crate_path.clone(),
                inner: CratesIOAction::AddOwner {
                    crate_name: self.crate_name.clone(),
                    login_value: "rust-vmm:gatekeepers".to_owned(),
                },
            };
            r.push(HealthCheckError { description, fix_action: Some(fix) });
        }
        let ghost head = r@.map_values(|e: HealthCheckError| e@);
        proof {
            assert(head =~= (if !spec_has_login(users, spec_gatekeepers_login()) {
                seq![spec_gatekeepers_error(self.crate_name@, self.local_crate_path@)]
            } else {
                Seq::<HealthCheckErrorV>::empty()
            }));
            assert(cov.skip(0) =~= cov);
        }
        let mut i: usize = 0;
        while i < code_owners.len()
            invariant
                i <= code_owners@.len(),
                head + spec_code_owner_errors(
                    self.crate_name@,
                    self.local_crate_path@,
                    users,
                    cov.skip(i as int),
                ) == spec_owner_errors(
                    self.crate_name@,
                    self.local_crate_path@,
                    users,
                    cov,
                ),
                r@.map_values(|e: HealthCheckError| e@) == head,
            decreases code_owners@.len() - i,
        {
            proof {
                assert(cov.skip(i as int)[0] == cov[i as int]);
                assert(cov.skip(i as int).skip(1) =~= cov.skip(i + 1));
                assert(cov[i as int] == code_owners@[i as int]@);
            }
            let trimmed = trim_leading_at(code_owners[i].as_str());
            if !has_login(&owners.users, &trimmed) {
                let mut description = trimmed.clone();
                description.append(" user must be in ");
                write_debug_quoted(self.crate_name.as_str(), &mut description);
                description.append("'s owners.");
                let fix = Action::CratesIO {
                    repository: self.local_crate_path.clone(),
                    inner: CratesIOAction::AddOwner {
                        crate_name: self.crate_name.clone(),
                        login_value: trimmed,
                    },
                };
                let ghost r0 = r@.map_values(|e: HealthCheckError| e@);
                r.push(HealthCheckError { description, fix_action: Some(fix) });
                proof {
                    assert(r@.map_values(|e: HealthCheckError| e@) =~= r0.push(
                        spec_code_owner_error(
                            self.crate_name@,
                            self.local_crate_path@,
                            spec_trim_leading_at(cov[i as int]),
                        ),
                    ));
                }
            }
            proof {
                let ghost newhead = r@.map_values(|e: HealthCheckError| e@);
                assert(newhead + spec_code_owner_errors(
                    self.crate_name@,
                    self.local_crate_path@,
                    users,
                    cov.skip(i + 1),
                ) =~= head + spec_code_owner_errors(
                    self.crate_name@,
                    self.local_crate_path@,
                    users,
                    cov.skip(i as int),
                ));
            }
            let ghost newhead = r@.map_values(|e: HealthCheckError| e@);
            proof {
                head = newhead;
            }
            i += 1;
        }
        proof {
            assert(spec_code_owner_errors(
                self.crate_name@,
                self.local_crate_path@,
                users,
                cov.skip(cov.len() as int),
            ) == Seq::<HealthCheckErrorV>::empty());
            assert(head + Seq::<HealthCheckErrorV>::empty() =~= head);
        }
        r
    }

    /// React to the owners reply. A well-formed registry error with
    /// exactly one "Not Found" detail is the distinct "not found, assumed
    /// unpublished" failure; any other registry error is surfaced
    /// generically; a success payload yields the check's findings.
    pub fn evaluate_reply(
        &self,
        reply: Result<Response, CratesIoAPIError>,
        code_owners: &Vec<String>,
    ) -> (r: Result<Vec<HealthCheckError>, String>)
        ensures
            reply matches Ok(owners) ==> r matches Ok(es) && es@.map_values(
                |e: HealthCheckError| e@,
            ) == spec_owner_errors(
                self.crate_name@,
                self.local_crate_path@,
                owners@,
                view_strings(code_owners@),
            ),
            reply matches Err(e) ==> (r matches Err(m) && m@ == (if spec_not_found(e) {
                "Crate "@ + self.crate_name@
                    + " was not found on crates.io and is assumed unpublished."@
            } else {
                "crates.io error: "@ + spec_error_value_debug(
                    e.errors@.map_values(
                        |d: crate::crates_io::CratesIoAPIErrorDetail| d.detail@,
                    ),
                )
            })),
    {
        match reply {
            Ok(owners) => Ok(self.evaluate(&owners, code_owners)),
            Err(e) => {
                let not_found = "Not Found".to_owned();
                if e.errors.len() == 1 && e.errors[0].detail == not_found {
                    let mut m = "Crate ".to_owned();
                    m.append(self.crate_name.as_str());
                    m.append(" was not found on crates.io and is assumed unpublished.");
                    Err(m)
                } else {
                    let ghost dv = e.errors@.map_values(
                        |d: crate::crates_io::CratesIoAPIErrorDetail| d.detail@,
                    );
                    let mut entries = String::new();
                    let mut i: usize = 0;
                    proof {
                        assert(dv.skip(0) =~= dv);
                    }
                    while i < e.errors.len()
                        invariant
                            i <= e.errors@.len(),
                            dv == e.errors@.map_values(
                                |d: crate::crates_io::CratesIoAPIErrorDetail| d.detail@,
                            ),
                            dv.len() == e.errors@.len(),
                            spec_error_entries_debug(dv) == entries@ + (if 0 < i < dv.len() {
                                ", "@ + spec_error_entries_debug(dv.skip(i as int))
                            } else {
                                spec_error_entries_debug(dv.skip(i as int))
                            }),
                        decreases e.errors@.len() - i,
                    {
                        proof {
                            assert(dv.skip(i as int)[0] == dv[i as int]);
                            assert(dv.skip(i as int).skip(1) =~= dv.skip(i + 1));
                            assert(dv[i as int] == e.errors@[i as int].detail@);
                        }
                        let ghost m0 = entries@;
                        if i > 0 {
                            entries.append(", ");
                        }
                        entries.append("CratesIoAPIErrorDetail { detail: ");
                        write_debug_quoted(e.errors[i].detail.as_str(), &mut entries);
                        entries.append(" }");
                        proof {
                            let piece = spec_error_detail_debug(dv[i as int]);
                            if dv.skip(i as int).len() > 1 {
                                assert(spec_error_entries_debug(dv.skip(i as int)) == piece
                                    + ", "@ + spec_error_entries_debug(dv.skip(i + 1)));
                            } else {
                                assert(spec_error_entries_debug(dv.skip(i as int)) == piece);
                            }
                            if i == 0 {
                                assert(entries@ =~= m0 + piece);
                                if dv.len() > 1 {
                                    assert(m0 + (piece + ", "@ + spec_error_entries_debug(
                                        dv.skip(i + 1),
                                    )) =~= entries@ + ", "@ + spec_error_entries_debug(
                                        dv.skip(i + 1),
                                    ));
                                }
                            } else {
                                assert(entries@ =~= m0 + ", "@ + piece);
                                if dv.skip(i as int).len() > 1 {
                                    assert(m0 + (", "@ + (piece + ", "@
                                        + spec_error_entries_debug(dv.skip(i + 1)))) =~= entries@
                                        + ", "@ + spec_error_entries_debug(dv.skip(i + 1)));
                                } else {
                                    assert(m0 + (", "@ + piece) =~= entries@);
                                }
                            }
                        }
                        i += 1;
                    }
                    proof {
                        assert(spec_error_entries_debug(dv.skip(dv.len() as int))
                            == Seq::<char>::empty());
                        assert(entries@ + Seq::<char>::empty() =~= entries@);
                        assert(entries@ == spec_error_entries_debug(dv));
                    }
                    let mut m = "crates.io error: CratesIoAPIError { errors: [".to_owned();
                    proof {
                        reveal_strlit("crates.io error: CratesIoAPIError { errors: [");
                        reveal_strlit("crates.io error: ");
                        reveal_strlit("CratesIoAPIError { errors: [");
                        assert(m@ =~= "crates.io error: "@ + "CratesIoAPIError { errors: ["@);
                    }
                    m.append(entries.as_str());
                    m.append("] }");
                    proof {
                        assert(m@ =~= "crates.io error: "@ + spec_error_value_debug(dv));
                    }
                    Err(m)
                }
            },
        }
    }
}

/// One error entry in its debug rendering.
pub open spec fn spec_error_detail_debug(detail: Seq<char>) -> Seq<char> {
    "CratesIoAPIErrorDetail { detail: "@ + spec_debug_quoted(detail) + " }"@
}

/// The error entries in their debug rendering, comma separated.
pub open spec fn spec_error_entries_debug(details: Seq<Seq<char>>) -> Seq<char>
    decreases details.len(),
{
    if details.len() == 0 {
        Seq::empty()
    } else if details.len() == 1 {
        spec_error_detail_debug(details[0])
    } else {
        spec_error_detail_debug(details[0]) + ", "@ + spec_error_entries_debug(details.skip(1))
    }
}

/// A whole error payload in its debug rendering, as a report shows it.
pub open spec fn spec_error_value_debug(details: Seq<Seq<char>>) -> Seq<char> {
    "CratesIoAPIError { errors: ["@ + spec_error_entries_debug(details) + "] }"@
}

} // verus!
