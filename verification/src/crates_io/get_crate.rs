//! The crate query: what the registry currently publishes for a crate —
//! in particular its default version, which the publish workflow compares
//! against the locally checked out version.

use vstd::prelude::*;
use vstd::string::StringExecFns;

use crate::crates_io::{
    CratesIoAPIError, DecodeError, get_bool, get_i64, get_opt_str, get_str,
    spec_error_details_of, spec_get_bool, spec_get_i64, spec_get_opt_str, spec_get_str,
    spec_registry_error_of, try_registry_error,
};
use crate::json::{Json, JsonV, spec_parse_json};
use crate::plan_doc::spec_obj_lookup;

verus! {

/// The crate query for one crate.
pub struct Query {
    pub crate_name: String,
}

/// The crate reply.
#[derive(Debug, Clone, PartialEq)]
pub struct Response {
    pub crate_field: Crate,
}

/// What the registry publishes for a crate.
#[derive(Debug, Clone, PartialEq)]
pub struct Crate {
    pub id: String,
    pub name: String,
    pub default_version: String,
    pub max_version: String,
    pub newest_version: String,
    pub downloads: i64,
    pub num_versions: i64,
    pub yanked: bool,
    pub exact_match: bool,
    pub description: Option<String>,
    pub repository: Option<String>,
}

/// Mathematical model of the published crate.
pub struct CrateV {
    pub id: Seq<char>,
    pub name: Seq<char>,
    pub default_version: Seq<char>,
    pub max_version: Seq<char>,
    pub newest_version: Seq<char>,
    pub downloads: i64,
    pub num_versions: i64,
    pub yanked: bool,
    pub exact_match: bool,
    pub description: Option<Seq<char>>,
    pub repository: Option<Seq<char>>,
}

impl View for Crate {
    type V = CrateV;

    open spec fn view(&self) -> CrateV {
        CrateV {
            id: self.id@,
            name: self.name@,
            default_version: self.default_version@,
            max_version: self.max_version@,
            newest_version: self.newest_version@,
            downloads: self.downloads,
            num_versions: self.num_versions,
            yanked: self.yanked,
            exact_match: self.exact_match,
            description: crate::actions::view_opt_string(self.description),
            repository: crate::actions::view_opt_string(self.repository),
        }
    }
}

impl View for Response {
    type V = CrateV;

    open spec fn view(&self) -> CrateV {
        self.crate_field@
    }
}

/// The published crate read from its JSON object.
pub open spec fn spec_crate_of(j: JsonV) -> Option<CrateV> {
    match j {
        JsonV::Obj(f) => match (
            spec_get_str(f, "id"@),
            spec_get_str(f, "name"@),
            spec_get_str(f, "default_version"@),
            spec_get_str(f, "max_version"@),
            spec_get_str(f, "newest_version"@),
            spec_get_i64(f, "downloads"@),
            spec_get_i64(f, "num_versions"@),
            spec_get_bool(f, "yanked"@),
            spec_get_bool(f, "exact_match"@),
            spec_get_opt_str(f, "description"@),
            spec_get_opt_str(f, "repository"@),
        ) {
            (
                Some(id),
                Some(name),
                Some(default_version),
                Some(max_version),
                Some(newest_version),
                Some(downloads),
                Some(num_versions),
                Some(yanked),
                Some(exact_match),
                Some(description),
                Some(repository),
            ) => Some(
                CrateV {
                    id,
                    name,
                    default_version,
                    max_version,
                    newest_version,
                    downloads,
                    num_versions,
                    yanked,
                    exact_match,
                    description,
                    repository,
                },
            ),
            _ => None,
        },
        _ => None,
    }
}

/// The success shape: an object whose `crate` member holds the crate.
pub open spec fn spec_crate_reply_of(j: JsonV) -> Option<CrateV> {
    match j {
        JsonV::Obj(fields) => match spec_obj_lookup(fields, "crate"@) {
            Some(cj) => spec_crate_of(cj),
            None => None,
        },
        _ => None,
    }
}

#[verifier::rlimit(100)]
fn decode_crate(j: &Json) -> (r: Option<Crate>)
    ensures
        match r {
            Some(c) => spec_crate_of(j@) == Some(c@),
            None => spec_crate_of(j@) is None,
        },
{
    let f = match j {
        Json::Obj(f) => f,
        _ => {
            return None;
        },
    };
    let id = match get_str(f, "id") {
        Some(v) => v,
        None => {
            return None;
        },
    };
    let name = match get_str(f, "name") {
        Some(v) => v,
        None => {
            return None;
        },
    };
    let default_version = match get_str(f, "default_version") {
        Some(v) => v,
        None => {
            return None;
        },
    };
    let max_version = match get_str(f, "max_version") {
        Some(v) => v,
        None => {
            return None;
        },
    };
    let newest_version = match get_str(f, "newest_version") {
        Some(v) => v,
        None => {
            return None;
        },
    };
    let downloads = match get_i64(f, "downloads") {
        Some(v) => v,
        None => {
            return None;
        },
    };
    let num_versions = match get_i64(f, "num_versions") {
        Some(v) => v,
        None => {
            return None;
        },
    };
    let yanked = match get_bool(f, "yanked") {
        Some(v) => v,
        None => {
            return None;
        },
    };
    let exact_match = match get_bool(f, "exact_match") {
        Some(v) => v,
        None => {
            return None;
        },
    };
    let description = match get_opt_str(f, "description") {
        Some(v) => v,
        None => {
            return None;
        },
    };
    let repository = match get_opt_str(f, "repository") {
        Some(v) => v,
        None => {
            return None;
        },
    };
    Some(
        Crate {
            id,
            name,
            default_version,
            max_version,
            newest_version,
            downloads,
            num_versions,
            yanked,
            exact_match,
            description,
            repository,
        },
    )
}

impl Response {
    /// Decode a reply body: the error shape first, then the crate shape.
    #[verifier::rlimit(100)]
    pub fn try_deserialize(body: &str) -> (r: Result<Result<Response, CratesIoAPIError>, DecodeError>)
        ensures
            match spec_parse_json(body@) {
                None => r matches Err(DecodeError::MalformedJson),
                Some(j) => match spec_registry_error_of(j) {
                    Some(details) => r matches Ok(Err(e)) && spec_error_details_of(e) == details,
                    None => match spec_crate_reply_of(j) {
                        Some(c) => r matches Ok(Ok(resp)) && resp@ == c,
                        None => r matches Err(DecodeError::UnexpectedShape),
                    },
                },
            },
    {
        let j = match crate::json::parse_json(body) {
            Some(j) => j,
            None => {
                return Err(DecodeError::MalformedJson);
            },
        };
        if let Some(e) = try_registry_error(&j) {
            return Ok(Err(e));
        }
        let fields = match &j {
            Json::Obj(fields) => fields,
            _ => {
                return Err(DecodeError::UnexpectedShape);
            },
        };
        let cj = match crate::plan_doc::obj_lookup(fields, "crate") {
            Some(cj) => cj,
            None => {
                return Err(DecodeError::UnexpectedShape);
            },
        };
        match decode_crate(cj) {
            Some(crate_field) => Ok(Ok(Response { crate_field })),
            None => Err(DecodeError::UnexpectedShape),
        }
    }
}

impl Query {
    /// The crate endpoint for this crate, asking for the default version.
    pub fn endpoint(&self) -> (r: String)
        ensures
            r@ == "https://crates.io/api/v1/crates/"@ + self.crate_name@
                + "?include=default_version"@,
    {
        let mut r = "https://crates.io/api/v1/crates/".to_owned();
        r.append(self.crate_name.as_str());
        r.append("?include=default_version");
        r
    }
}

/// Whether a locally checked out version still needs publishing: the
/// registry's default version differs from it.
pub fn needs_publish(local_version: &String, published_default: &String) -> (r: bool)
    ensures
        r == (local_version@ != published_default@),
{
    !(*local_version == *published_default)
}

} // verus!
