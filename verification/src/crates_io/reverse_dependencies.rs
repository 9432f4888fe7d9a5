//! The reverse-dependencies query: who depends on a crate. The registry
//! returns fixed-size pages annotated with a total count; the client
//! accumulates pages until the total is reached, then keeps only entries
//! whose declared source repository lies in the expected organization.

use vstd::prelude::*;
use vstd::string::StringExecFns;

use crate::crates_io::{
    CratesIoAPIError, DecodeError, get_bool, get_i64, get_opt_str, get_str,
    spec_error_details_of, spec_get_bool, spec_get_i64, spec_get_opt_str, spec_get_str,
    spec_registry_error_of, try_registry_error,
};
use crate::json::{Json, JsonV, json_views, spec_parse_json};
use crate::plan_doc::spec_obj_lookup;
use crate::text::{spec_dec_digits, str_starts_with, u64_to_dec_string};

verus! {

/// How many results one page carries.
pub const PAGE_SIZE: u64 = 10;

/// The reverse-dependencies query for one crate.
pub struct Query {
    pub crate_name: String,
}

/// One page of the reply.
#[derive(Debug, Clone, PartialEq)]
pub struct Response {
    pub dependencies: Vec<Dependency>,
    pub versions: Vec<Version>,
    pub meta: Meta,
}

/// One dependency edge pointing at the queried crate.
#[derive(Debug, Clone, PartialEq)]
pub struct Dependency {
    pub id: i64,
    pub version_id: i64,
    pub crate_id: String,
    pub req: String,
    pub optional: bool,
    pub default_features: bool,
    pub target: Option<String>,
    pub kind: String,
    pub downloads: i64,
}

/// One depending crate version.
#[derive(Debug, Clone, PartialEq)]
pub struct Version {
    pub id: i64,
    pub crate_field: String,
    pub num: String,
    pub created_at: String,
    pub updated_at: String,
    pub downloads: i64,
    pub yanked: bool,
    pub license: String,
    pub checksum: String,
    pub description: String,
    pub repository: Option<String>,
}

/// A registry user, as the reply shapes it.
#[derive(Debug, Clone, PartialEq)]
pub struct User {
    pub id: i64,
    pub login: String,
    pub name: Option<String>,
    pub avatar: String,
    pub url: String,
}

/// The page annotation: the total number of results over all pages.
#[derive(Debug, Clone, Copy, PartialEq)]
pub struct Meta {
    pub total: usize,
}

/// Mathematical model of a dependency edge.
pub struct DependencyV {
    pub id: i64,
    pub version_id: i64,
    pub crate_id: Seq<char>,
    pub req: Seq<char>,
    pub optional: bool,
    pub default_features: bool,
    pub target: Option<Seq<char>>,
    pub kind: Seq<char>,
    pub downloads: i64,
}

/// Mathematical model of a depending version.
pub struct VersionV {
    pub id: i64,
    pub crate_field: Seq<char>,
    pub num: Seq<char>,
    pub created_at: Seq<char>,
    pub updated_at: Seq<char>,
    pub downloads: i64,
    pub yanked: bool,
    pub license: Seq<char>,
    pub checksum: Seq<char>,
    pub description: Seq<char>,
    pub repository: Option<Seq<char>>,
}

impl View for Dependency {
    type V = DependencyV;

    open spec fn view(&self) -> DependencyV {
        DependencyV {
            id: self.id,
            version_id: self.version_id,
            crate_id: self.crate_id@,
            req: self.req@,
            optional: self.optional,
            default_features: self.default_features,
            target: crate::actions::view_opt_string(self.target),
            kind: self.kind@,
            downloads: self.downloads,
        }
    }
}

impl View for Version {
    type V = VersionV;

    open spec fn view(&self) -> VersionV {
        VersionV {
            id: self.id,
            crate_field: self.crate_field@,
            num: self.num@,
            created_at: self.created_at@,
            updated_at: self.updated_at@,
            downloads: self.downloads,
            yanked: self.yanked,
            license: self.license@,
            checksum: self.checksum@,
            description: self.description@,
            repository: crate::actions::view_opt_string(self.repository),
        }
    }
}

impl View for Response {
    type V = (Seq<DependencyV>, Seq<VersionV>, usize);

    open spec fn view(&self) -> (Seq<DependencyV>, Seq<VersionV>, usize) {
        (
            self.dependencies@.map_values(|d: Dependency| d@),
            self.versions@.map_values(|v: Version| v@),
            self.meta.total,
        )
    }
}

/// One dependency edge read from its JSON object.
pub open spec fn spec_dependency_of(j: JsonV) -> Option<DependencyV> {
    match j {
        JsonV::Obj(f) => match (
            spec_get_i64(f, "id"@),
            spec_get_i64(f, "version_id"@),
            spec_get_str(f, "crate_id"@),
            spec_get_str(f, "req"@),
            spec_get_bool(f, "optional"@),
            spec_get_bool(f, "default_features"@),
            spec_get_opt_str(f, "target"@),
            spec_get_str(f, "kind"@),
            spec_get_i64(f, "downloads"@),
        ) {
            (
                Some(id),
                Some(version_id),
                Some(crate_id),
                Some(req),
                Some(optional),
                Some(default_features),
                Some(target),
                Some(kind),
                Some(downloads),
            ) => Some(
                DependencyV {
                    id,
                    version_id,
                    crate_id,
                    req,
                    optional,
                    default_features,
                    target,
                    kind,
                    downloads,
                },
            ),
            _ => None,
        },
        _ => None,
    }
}

/// One depending version read from its JSON object.
pub open spec fn spec_version_of(j: JsonV) -> Option<VersionV> {
    match j {
        JsonV::Obj(f) => match (
            spec_get_i64(f, "id"@),
            spec_get_str(f, "crate"@),
            spec_get_str(f, "num"@),
            spec_get_str(f, "created_at"@),
            spec_get_str(f, "updated_at"@),
            spec_get_i64(f, "downloads"@),
            spec_get_bool(f, "yanked"@),
            spec_get_str(f, "license"@),
            spec_get_str(f, "checksum"@),
            spec_get_str(f, "description"@),
            spec_get_opt_str(f, "repository"@),
        ) {
            (
                Some(id),
                Some(crate_field),
                Some(num),
                Some(created_at),
                Some(updated_at),
                Some(downloads),
                Some(yanked),
                Some(license),
                Some(checksum),
                Some(description),
                Some(repository),
            ) => Some(
                VersionV {
                    id,
                    crate_field,
                    num,
                    created_at,
                    updated_at,
                    downloads,
                    yanked,
                    license,
                    checksum,
                    description,
                    repository,
                },
            ),
            _ => None,
        },
        _ => None,
    }
}

/// The dependency edges read in order.
pub open spec fn spec_dependencies_of(entries: Seq<JsonV>) -> Option<Seq<DependencyV>>
    decreases entries.len(),
{
    if entries.len() == 0 {
        Some(Seq::empty())
    } else {
        match spec_dependency_of(entries[0]) {
            Some(d) => match spec_dependencies_of(entries.skip(1)) {
                Some(rest) => Some(seq![d] + rest),
                None => None,
            },
            None => None,
        }
    }
}

/// The depending versions read in order.
pub open spec fn spec_versions_of(entries: Seq<JsonV>) -> Option<Seq<VersionV>>
    decreases entries.len(),
{
    if entries.len() == 0 {
        Some(Seq::empty())
    } else {
        match spec_version_of(entries[0]) {
            Some(v) => match spec_versions_of(entries.skip(1)) {
                Some(rest) => Some(seq![v] + rest),
                None => None,
            },
            None => None,
        }
    }
}

/// The page annotation: a nonnegative `total` that fits the platform.
pub open spec fn spec_meta_of(j: JsonV) -> Option<usize> {
    match j {
        JsonV::Obj(f) => match spec_get_i64(f, "total"@) {
            Some(v) => if 0 <= v <= usize::MAX {
                Some(v as usize)
            } else {
                None
            },
            None => None,
        },
        _ => None,
    }
}

/// The success shape of one page.
pub open spec fn spec_page_of(j: JsonV) -> Option<(Seq<DependencyV>, Seq<VersionV>, usize)> {
    match j {
        JsonV::Obj(fields) => match (
            spec_obj_lookup(fields, "dependencies"@),
            spec_obj_lookup(fields, "versions"@),
            spec_obj_lookup(fields, "meta"@),
        ) {
            (Some(JsonV::Arr(deps)), Some(JsonV::Arr(vers)), Some(meta)) => match (
                spec_dependencies_of(deps),
                spec_versions_of(vers),
                spec_meta_of(meta),
            ) {
                (Some(d), Some(v), Some(total)) => Some((d, v, total)),
                _ => None,
            },
            _ => None,
        },
        _ => None,
    }
}

fn decode_dependency(j: &Json) -> (r: Option<Dependency>)
    ensures
        match r {
            Some(d) => spec_dependency_of(j@) == Some(d@),
            None => spec_dependency_of(j@) is None,
        },
{
    let f = match j {
        Json::Obj(f) => f,
        _ => {
            return None;
        },
    };
    let id = match get_i64(f, "id") {
        Some(v) => v,
        None => {
            return None;
        },
    };
    let version_id = match get_i64(f, "version_id") {
        Some(v) => v,
        None => {
            return None;
        },
    };
    let crate_id = match get_str(f, "crate_id") {
        Some(v) => v,
        None => {
            return None;
        },
    };
    let req = match get_str(f, "req") {
        Some(v) => v,
        None => {
            return None;
        },
    };
    let optional = match get_bool(f, "optional") {
        Some(v) => v,
        None => {
            return None;
        },
    };
    let default_features = match get_bool(f, "default_features") {
        Some(v) => v,
        None => {
            return None;
        },
    };
    let target = match get_opt_str(f, "target") {
        Some(v) => v,
        None => {
            return None;
        },
    };
    let kind = match get_str(f, "kind") {
        Some(v) => v,
        None => {
            return None;
        },
    };
    let downloads = match get_i64(f, "downloads") {
        Some(v) => v,
        None => {
            return None;
        },
    };
    Some(
        Dependency {
            id,
            version_id,
            crate_id,
            req,
            optional,
            default_features,
            target,
            kind,
            downloads,
        },
    )
}

fn decode_version(j: &Json) -> (r: Option<Version>)
    ensures
        match r {
            Some(v) => spec_version_of(j@) == Some(v@),
            None => spec_version_of(j@) is None,
        },
{
    let f = match j {
        Json::Obj(f) => f,
        _ => {
            return None;
        },
    };
    let id = match get_i64(f, "id") {
        Some(v) => v,
        None => {
            return None;
        },
    };
    let crate_field = match get_str(f, "crate") {
        Some(v) => v,
        None => {
            return None;
        },
    };
    let num = match get_str(f, "num") {
        Some(v) => v,
        None => {
            return None;
        },
    };
    let created_at = match get_str(f, "created_at") {
        Some(v) => v,
        None => {
            return None;
        },
    };
    let updated_at = match get_str(f, "updated_at") {
        Some(v) => v,
        None => {
            return None;
        },
    };
    let downloads = match get_i64(f, "downloads") {
        Some(v) => v,
        None => {
            return None;
        },
    };
    let yanked = match get_bool(f, "yanked") {
        Some(v) => v,
        None => {
            return None;
        },
    };
    let license = match get_str(f, "license") {
        Some(v) => v,
        None => {
            return None;
        },
    };
    let checksum = match get_str(f, "checksum") {
        Some(v) => v,
        None => {
            return None;
        },
    };
    let description = match get_str(f, "description") {
        Some(v) => v,
        None => {
            return None;
        },
    };
    let repository = match get_opt_str(f, "repository") {
        Some(v) => v,
        None => {
            return None;
        },
    };
    Some(
        Version {
            id,
            crate_field,
            num,
            created_at,
            updated_at,
            downloads,
            yanked,
            license,
            checksum,
            description,
            repository,
        },
    )
}

#[verifier::loop_isolation(false)]
#[verifier::rlimit(80)]
fn decode_dependencies(entries: &Vec<Json>) -> (r: Option<Vec<Dependency>>)
    ensures
        match r {
            Some(v) => spec_dependencies_of(json_views(entries@)) == Some(
                v@.map_values(|d: Dependency| d@),
            ),
            None => spec_dependencies_of(json_views(entries@)) is None,
        },
{
    proof {
        crate::json::lemma_json_views_index(entries@);
    }
    let ghost jvs = json_views(entries@);
    let mut out: Vec<Dependency> = Vec::new();
    let mut i: usize = 0;
    proof {
        assert(jvs.skip(0) =~= jvs);
        if spec_dependencies_of(jvs) is Some {
            assert(out@.map_values(|d: Dependency| d@) + spec_dependencies_of(jvs)->Some_0
                =~= spec_dependencies_of(jvs)->Some_0);
        }
    }
    while i < entries.len()
        invariant
            i <= entries@.len(),
            (match spec_dependencies_of(jvs.skip(i as int)) {
                Some(rest) => spec_dependencies_of(jvs) == Some(
                    out@.map_values(|d: Dependency| d@) + rest,
                ),
                None => spec_dependencies_of(jvs) is None,
            }),
        decreases entries@.len() - i,
    {
        proof {
            assert(jvs.skip(i as int)[0] == jvs[i as int]);
            assert(jvs.skip(i as int).skip(1) =~= jvs.skip(i + 1));
        }
        match decode_dependency(&entries[i]) {
            Some(d) => {
                let ghost out0 = out@;
                let ghost dv = d@;
                out.push(d);
                proof {
                    assert(out@.map_values(|x: Dependency| x@) =~= out0.map_values(
                        |x: Dependency| x@,
                    ).push(dv));
                    if spec_dependencies_of(jvs.skip(i + 1)) is Some {
                        let rest = spec_dependencies_of(jvs.skip(i + 1))->Some_0;
                        assert(out0.map_values(|x: Dependency| x@) + (seq![dv] + rest)
                            =~= (out0.map_values(|x: Dependency| x@).push(dv)) + rest);
                    }
                }
                i += 1;
            },
            None => {
                return None;
            },
        }
    }
    proof {
        assert(jvs.skip(entries@.len() as int).len() == 0);
        assert(out@.map_values(|d: Dependency| d@) + Seq::<DependencyV>::empty()
            =~= out@.map_values(|d: Dependency| d@));
    }
    Some(out)
}

#[verifier::loop_isolation(false)]
#[verifier::rlimit(80)]
fn decode_versions(entries: &Vec<Json>) -> (r: Option<Vec<Version>>)
    ensures
        match r {
            Some(v) => spec_versions_of(json_views(entries@)) == Some(
                v@.map_values(|x: Version| x@),
            ),
            None => spec_versions_of(json_views(entries@)) is None,
        },
{
    proof {
        crate::json::lemma_json_views_index(entries@);
    }
    let ghost jvs = json_views(entries@);
    let mut out: Vec<Version> = Vec::new();
    let mut i: usize = 0;
    proof {
        assert(jvs.skip(0) =~= jvs);
        if spec_versions_of(jvs) is Some {
            assert(out@.map_values(|x: Version| x@) + spec_versions_of(jvs)->Some_0
                =~= spec_versions_of(jvs)->Some_0);
        }
    }
    while i < entries.len()
        invariant
            i <= entries@.len(),
            (match spec_versions_of(jvs.skip(i as int)) {
                Some(rest) => spec_versions_of(jvs) == Some(
                    out@.map_values(|x: Version| x@) + rest,
                ),
                None => spec_versions_of(jvs) is None,
            }),
        decreases entries@.len() - i,
    {
        proof {
            assert(jvs.skip(i as int)[0] == jvs[i as int]);
            assert(jvs.skip(i as int).skip(1) =~= jvs.skip(i + 1));
        }
        match decode_version(&entries[i]) {
            Some(v) => {
                let ghost out0 = out@;
                let ghost vv = v@;
                out.push(v);
                proof {
                    assert(out@.map_values(|x: Version| x@) =~= out0.map_values(
                        |x: Version| x@,
                    ).push(vv));
                    if spec_versions_of(jvs.skip(i + 1)) is Some {
                        let rest = spec_versions_of(jvs.skip(i + 1))->Some_0;
                        assert(out0.map_values(|x: Version| x@) + (seq![vv] + rest)
                            =~= (out0.map_values(|x: Version| x@).push(vv)) + rest);
                    }
                }
                i += 1;
            },
            None => {
                return None;
            },
        }
    }
    proof {
        assert(jvs.skip(entries@.len() as int).len() == 0);
        assert(out@.map_values(|x: Version| x@) + Seq::<VersionV>::empty() =~= out@.map_values(
            |x: Version| x@,
        ));
    }
    Some(out)
}

fn decode_meta(j: &Json) -> (r: Option<Meta>)
    ensures
        match r {
            Some(m) => spec_meta_of(j@) == Some(m.total),
            None => spec_meta_of(j@) is None,
        },
{
    let f = match j {
        Json::Obj(f) => f,
        _ => {
            return None;
        },
    };
    let v = match get_i64(f, "total") {
        Some(v) => v,
        None => {
            return None;
        },
    };
    if v >= 0 && (v as u64) <= (usize::MAX as u64) {
        Some(Meta { total: v as usize })
    } else {
        None
    }
}

impl Response {
    /// Decode one page: the error shape first, then the page shape.
    #[verifier::rlimit(80)]
    pub fn try_deserialize(body: &str) -> (r: Result<Result<Response, CratesIoAPIError>, DecodeError>)
        ensures
            match spec_parse_json(body@) {
                None => r matches Err(DecodeError::MalformedJson),
                Some(j) => match spec_registry_error_of(j) {
                    Some(details) => r matches Ok(Err(e)) && spec_error_details_of(e) == details,
                    None => match spec_page_of(j) {
                        Some(page) => r matches Ok(Ok(resp)) && resp@ == page,
                        None => r matches Err(DecodeError::UnexpectedShape),
                    },
                },
            },
    {
        let j = match crate::json::parse_json(body) {
            Some(j) => j,
            None => {
                return Err(DecodeError::MalformedJson);
            },
        };
        if let Some(e) = try_registry_error(&j) {
            return Ok(Err(e));
        }
        let fields = match &j {
            Json::Obj(fields) => fields,
            _ => {
                return Err(DecodeError::UnexpectedShape);
            },
        };
        let deps_entries = match crate::plan_doc::obj_lookup(fields, "dependencies") {
            Some(Json::Arr(entries)) => entries,
            _ => {
                return Err(DecodeError::UnexpectedShape);
            },
        };
        let vers_entries = match crate::plan_doc::obj_lookup(fields, "versions") {
            Some(Json::Arr(entries)) => entries,
            _ => {
                return Err(DecodeError::UnexpectedShape);
            },
        };
        let meta_j = match crate::plan_doc::obj_lookup(fields, "meta") {
            Some(meta_j) => meta_j,
            None => {
                return Err(DecodeError::UnexpectedShape);
            },
        };
        let dependencies = match decode_dependencies(deps_entries) {
            Some(v) => v,
            None => {
                return Err(DecodeError::UnexpectedShape);
            },
        };
        let versions = match decode_versions(vers_entries) {
            Some(v) => v,
            None => {
                return Err(DecodeError::UnexpectedShape);
            },
        };
        let meta = match decode_meta(meta_j) {
            Some(m) => m,
            None => {
                return Err(DecodeError::UnexpectedShape);
            },
        };
        Ok(Ok(Response { dependencies, versions, meta }))
    }
}

impl Query {
    /// The reverse-dependencies endpoint for this crate and page.
    pub fn endpoint(&self, page: u64) -> (r: String)
        ensures
            r@ == "https://crates.io/api/v1/crates/"@ + self.crate_name@
                + "/reverse_dependencies?page="@ + spec_dec_digits(page as nat)
                + "&per_page=10"@,
    {
        let mut r = "https://crates.io/api/v1/crates/".to_owned();
        r.append(self.crate_name.as_str());
        r.append("/reverse_dependencies?page=");
        let p = u64_to_dec_string(page);
        r.append(p.as_str());
        r.append("&per_page=10");
        r
    }
}

/// One accumulation step: take a fetched page's versions into the
/// accumulator; request the next page exactly while the accumulated count
/// has not reached the reported total.
pub fn paginate_step(
    acc: &mut Vec<Version>,
    page_versions: Vec<Version>,
    total: usize,
    page: u64,
) -> (r: Option<u64>)
    requires
        page < u64::MAX,
    ensures
        final(acc)@ == old(acc)@ + page_versions@,
        r matches Some(next) ==> next == page + 1 && final(acc)@.len() < total,
        (r is None) == (final(acc)@.len() >= total),
{
    let mut page_versions = page_versions;
    acc.append(&mut page_versions);
    if acc.len() >= total {
        None
    } else {
        Some(page + 1)
    }
}

/// What accumulation does with one fetched page's decoded outcome: a
/// registry error aborts the accumulation, leaving it untouched, and is
/// surfaced to the caller; a success page's versions are taken in and the
/// next page is requested exactly while the reported total is unreached.
pub fn paginate_reply(
    acc: &mut Vec<Version>,
    reply: Result<Response, CratesIoAPIError>,
    page: u64,
) -> (r: Result<Option<u64>, CratesIoAPIError>)
    requires
        page < u64::MAX,
    ensures
        reply matches Err(e) ==> (r matches Err(e2) && e2 == e && final(acc)@ == old(acc)@),
        reply matches Ok(resp) ==> (final(acc)@ == old(acc)@ + resp.versions@ && (r matches Ok(
            next,
        ) && (next matches Some(p2) ==> p2 == page + 1 && final(acc)@.len() < resp.meta.total)
            && ((next is None) == (final(acc)@.len() >= resp.meta.total)))),
{
    match reply {
        Ok(resp) => {
            let Response { dependencies: _, versions, meta } = resp;
            Ok(paginate_step(acc, versions, meta.total, page))
        },
        Err(e) => Err(e),
    }
}

/// Whether a version's declared source repository lies in the expected
/// organization's namespace.
pub open spec fn spec_in_org(v: VersionV) -> bool {
    match v.repository {
        Some(u) => u.len() >= 27 && u.subrange(0, 27) == "https://github.com/rust-vmm"@,
        None => false,
    }
}

/// Keep only the versions whose repository lies in the expected
/// organization; everything else is discarded, not reported.
pub fn retain_in_org(versions: Vec<Version>) -> (r: Vec<Version>)
    ensures
        r@.map_values(|v: Version| v@) == versions@.map_values(|v: Version| v@).filter(
            |v: VersionV| spec_in_org(v),
        ),
{
    let ghost viewed = versions@.map_values(|v: Version| v@);
    let mut r: Vec<Version> = Vec::new();
    let mut i: usize = 0;
    proof {
        reveal(Seq::filter);
        assert(viewed.subrange(0, 0) =~= Seq::<VersionV>::empty());
        assert(Seq::<VersionV>::empty().filter(|v: VersionV| spec_in_org(v))
            =~= Seq::<VersionV>::empty());
        assert(r@.map_values(|v: Version| v@) =~= viewed.subrange(0, 0).filter(
            |v: VersionV| spec_in_org(v),
        ));
    }
    while i < versions.len()
        invariant
            i <= versions@.len(),
            viewed == versions@.map_values(|v: Version| v@),
            viewed.len() == versions@.len(),
            r@.map_values(|v: Version| v@) == viewed.subrange(0, i as int).filter(
                |v: VersionV| spec_in_org(v),
            ),
        decreases versions@.len() - i,
    {
        let keep = match &versions[i].repository {
            Some(u) => str_starts_with(u.as_str(), "https://github.com/rust-vmm"),
            None => false,
        };
        proof {
            reveal_strlit("https://github.com/rust-vmm");
            assert(viewed[i as int] == versions@[i as int]@);
            assert(keep == spec_in_org(viewed[i as int]));
        }
        let ghost r0 = r@.map_values(|v: Version| v@);
        if keep {
            r.push(versions[i].clone_version());
        }
        proof {
            reveal(Seq::filter);
            let pr: spec_fn(VersionV) -> bool = |v: VersionV| spec_in_org(v);
            assert(viewed.subrange(0, i + 1) =~= viewed.subrange(0, i as int) + seq![
                viewed[i as int],
            ]);
            Seq::<VersionV>::filter_distributes_over_add(
                viewed.subrange(0, i as int),
                seq![viewed[i as int]],
                pr,
            );
            assert(seq![viewed[i as int]].len() == 1);
            assert(seq![viewed[i as int]].last() == viewed[i as int]);
            assert(seq![viewed[i as int]].drop_last() =~= Seq::<VersionV>::empty());
            assert(Seq::<VersionV>::empty().filter(pr) =~= Seq::<VersionV>::empty());
            assert(seq![viewed[i as int]].filter(pr) =~= (if pr(viewed[i as int]) {
                seq![viewed[i as int]]
            } else {
                Seq::<VersionV>::empty()
            }));
            if keep {
                assert(r@.map_values(|v: Version| v@) =~= r0.push(viewed[i as int]));
                assert(r0.push(viewed[i as int]) =~= r0 + seq![viewed[i as int]]);
            } else {
                assert(r@.map_values(|v: Version| v@) + Seq::<VersionV>::empty()
                    =~= r@.map_values(|v: Version| v@));
            }
            assert(r@.map_values(|v: Version| v@) =~= viewed.subrange(0, i + 1).filter(pr));
        }
        i += 1;
    }
    proof {
        assert(viewed.subrange(0, viewed.len() as int) =~= viewed);
    }
    r
}

impl Version {
    /// A field-for-field copy.
    pub fn clone_version(&self) -> (r: Version)
        ensures
            r@ == self@,
    {
        Version {
            id: self.id,
            crate_field: self.crate_field.clone(),
            num: self.num.clone(),
            created_at: self.created_at.clone(),
            updated_at: self.updated_at.clone(),
            downloads: self.downloads,
            yanked: self.yanked,
            license: self.license.clone(),
            checksum: self.checksum.clone(),
            description: self.description.clone(),
            repository: match &self.repository {
                Some(s) => Some(s.clone()),
                None => None,
            },
        }
    }
}

/// How many pages the accumulation requests, starting from `fetched`
/// results already gathered, when the registry serves full pages while
/// enough results remain.
pub open spec fn spec_pages_requested(total: nat, fetched: nat) -> nat
    decreases total - fetched,
{
    if fetched >= total {
        0
    } else {
        1 + spec_pages_requested(
            total,
            fetched + (if total - fetched >= PAGE_SIZE {
                PAGE_SIZE as nat
            } else {
                (total - fetched) as nat
            }),
        )
    }
}

/// Pagination requests exactly the pages the total demands: one per full
/// page and one more for a remainder.
pub proof fn lemma_pagination_page_count(total: nat, fetched: nat)
    requires
        fetched <= total,
    ensures
        spec_pages_requested(total, fetched) == (total - fetched + (PAGE_SIZE - 1)) / (
        PAGE_SIZE as int),
    decreases total - fetched,
{
    let remaining = total - fetched;
    if fetched >= total {
        assert((0 + (PAGE_SIZE - 1)) / (PAGE_SIZE as int) == 0);
    } else if remaining >= PAGE_SIZE {
        lemma_pagination_page_count(total, fetched + PAGE_SIZE as nat);
        assert((remaining + (PAGE_SIZE - 1)) / (PAGE_SIZE as int) == 1 + ((remaining - PAGE_SIZE)
            + (PAGE_SIZE - 1)) / (PAGE_SIZE as int)) by (nonlinear_arith)
            requires
                remaining >= PAGE_SIZE,
                PAGE_SIZE == 10,
        ;
    } else {
        lemma_pagination_page_count(total, total);
        assert((remaining + (PAGE_SIZE - 1)) / (PAGE_SIZE as int) == 1) by (nonlinear_arith)
            requires
                1 <= remaining < PAGE_SIZE,
                PAGE_SIZE == 10,
        ;
    }
}

} // verus!
