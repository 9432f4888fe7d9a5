//! The registry API client's typed layer: every query names its endpoint,
//! and every response body is decoded by first attempting the error shape
//! `{"errors":[{"detail":...}]}` and only then the query's success shape.
//! A body matching neither is a transport-level decoding failure.

use vstd::prelude::*;

use crate::json::{Json, JsonV, json_view, json_views};
use crate::plan_doc::{obj_lookup, spec_obj_lookup};
use crate::text::spec_parse_i64;

pub mod get_crate;
pub mod get_owners;
pub mod reverse_dependencies;

verus! {

/// One entry of a registry error payload.
#[derive(Debug, Clone, PartialEq)]
pub struct CratesIoAPIErrorDetail {
    pub detail: String,
}

/// A well-formed registry error payload: an ordered list of details.
#[derive(Debug, Clone, PartialEq)]
pub struct CratesIoAPIError {
    pub errors: Vec<CratesIoAPIErrorDetail>,
}

/// The details carried by an error payload, as text.
pub open spec fn spec_error_details_of(e: CratesIoAPIError) -> Seq<Seq<char>> {
    e.errors@.map_values(|d: CratesIoAPIErrorDetail| d.detail@)
}

/// A transport-level decoding failure: the body was not JSON, or matched
/// neither the error shape nor the success shape.
#[derive(Debug, Clone, Copy, PartialEq, Eq)]
pub enum DecodeError {
    MalformedJson,
    UnexpectedShape,
}

impl DecodeError {
    /// A diagnostic line for reports.
    pub fn message(&self) -> (r: &'static str)
        ensures
            r@ == (match self {
                DecodeError::MalformedJson => "registry reply is not valid JSON"@,
                DecodeError::UnexpectedShape => "registry reply matches neither the error shape nor the success shape"@,
            }),
    {
        match self {
            DecodeError::MalformedJson => "registry reply is not valid JSON",
            DecodeError::UnexpectedShape => "registry reply matches neither the error shape nor the success shape",
        }
    }
}

/// A string field of an object.
pub open spec fn spec_get_str(fields: Seq<(Seq<char>, JsonV)>, key: Seq<char>) -> Option<
    Seq<char>,
> {
    match spec_obj_lookup(fields, key) {
        Some(JsonV::Str(s)) => Some(s),
        _ => None,
    }
}

/// An integer field of an object.
pub open spec fn spec_get_i64(fields: Seq<(Seq<char>, JsonV)>, key: Seq<char>) -> Option<i64> {
    match spec_obj_lookup(fields, key) {
        Some(JsonV::Num(lex)) => spec_parse_i64(lex),
        _ => None,
    }
}

/// A boolean field of an object.
pub open spec fn spec_get_bool(fields: Seq<(Seq<char>, JsonV)>, key: Seq<char>) -> Option<bool> {
    match spec_obj_lookup(fields, key) {
        Some(JsonV::Bool(b)) => Some(b),
        _ => None,
    }
}

/// An optional string field: absent or null reads as nothing.
pub open spec fn spec_get_opt_str(fields: Seq<(Seq<char>, JsonV)>, key: Seq<char>) -> Option<
    Option<Seq<char>>,
> {
    match spec_obj_lookup(fields, key) {
        Some(JsonV::Str(s)) => Some(Some(s)),
        Some(JsonV::Null) | None => Some(None),
        _ => None,
    }
}

pub(crate) fn get_str(fields: &Vec<(String, Json)>, key: &str) -> (r: Option<String>)
    ensures
        match r {
            Some(s) => spec_get_str(crate::json::json_field_views(fields@), key@) == Some(s@),
            None => spec_get_str(crate::json::json_field_views(fields@), key@) is None,
        },
{
    match obj_lookup(fields, key) {
        Some(Json::Str(s)) => Some(s.clone()),
        _ => None,
    }
}

pub(crate) fn get_i64(fields: &Vec<(String, Json)>, key: &str) -> (r: Option<i64>)
    ensures
        r == spec_get_i64(crate::json::json_field_views(fields@), key@),
{
    match obj_lookup(fields, key) {
        Some(Json::Num(lex)) => crate::text::parse_i64(lex.as_str()),
        _ => None,
    }
}

pub(crate) fn get_bool(fields: &Vec<(String, Json)>, key: &str) -> (r: Option<bool>)
    ensures
        r == spec_get_bool(crate::json::json_field_views(fields@), key@),
{
    match obj_lookup(fields, key) {
        Some(Json::Bool(b)) => Some(*b),
        _ => None,
    }
}

pub(crate) fn get_opt_str(fields: &Vec<(String, Json)>, key: &str) -> (r: Option<
    Option<String>,
>)
    ensures
        match r {
            Some(Some(s)) => spec_get_opt_str(crate::json::json_field_views(fields@), key@)
                == Some(Some(s@)),
            Some(None) => spec_get_opt_str(crate::json::json_field_views(fields@), key@) == Some(
                None::<Seq<char>>,
            ),
            None => spec_get_opt_str(crate::json::json_field_views(fields@), key@) is None,
        },
{
    match obj_lookup(fields, key) {
        Some(Json::Str(s)) => Some(Some(s.clone())),
        Some(Json::Null) | None => Some(None),
        _ => None,
    }
}

/// The details of an error payload's entries, each an object with a
/// string `detail`.
pub open spec fn spec_error_entries(entries: Seq<JsonV>) -> Option<Seq<Seq<char>>>
    decreases entries.len(),
{
    if entries.len() == 0 {
        Some(Seq::empty())
    } else {
        match entries[0] {
            JsonV::Obj(f) => match spec_get_str(f, "detail"@) {
                Some(d) => match spec_error_entries(entries.skip(1)) {
                    Some(rest) => Some(seq![d] + rest),
                    None => None,
                },
                None => None,
            },
            _ => None,
        }
    }
}

/// The error shape, read from a whole document value: an object whose
/// `errors` member is an array of detail entries.
pub open spec fn spec_registry_error_of(j: JsonV) -> Option<Seq<Seq<char>>> {
    match j {
        JsonV::Obj(fields) => match spec_obj_lookup(fields, "errors"@) {
            Some(JsonV::Arr(entries)) => spec_error_entries(entries),
            _ => None,
        },
        _ => None,
    }
}

/// Attempt the error shape on a parsed document.
#[verifier::rlimit(80)]
pub fn try_registry_error(j: &Json) -> (r: Option<CratesIoAPIError>)
    ensures
        match r {
            Some(e) => spec_registry_error_of(j@) == Some(spec_error_details_of(e)),
            None => spec_registry_error_of(j@) is None,
        },
{
    let fields = match j {
        Json::Obj(fields) => fields,
        _ => {
            return None;
        },
    };
    let entries = match obj_lookup(fields, "errors") {
        Some(Json::Arr(entries)) => entries,
        _ => {
            return None;
        },
    };
    proof {
        crate::json::lemma_json_views_index(entries@);
    }
    let ghost jvs = json_views(entries@);
    let mut out: Vec<CratesIoAPIErrorDetail> = Vec::new();
    let mut i: usize = 0;
    proof {
        assert(jvs.skip(0) =~= jvs);
        if spec_error_entries(jvs) is Some {
            assert(spec_error_details_of(CratesIoAPIError { errors: out }) + spec_error_entries(
                jvs,
            )->Some_0 =~= spec_error_entries(jvs)->Some_0);
        }
    }
    while i < entries.len()
        invariant
            i <= entries@.len(),
            j@ == JsonV::Obj(crate::json::json_field_views(j->Obj_0@)),
            spec_obj_lookup(crate::json::json_field_views(j->Obj_0@), "errors"@) == Some(
                JsonV::Arr(jvs),
            ),
            jvs == json_views(entries@),
            jvs.len() == entries@.len(),
            forall|m: int|
                0 <= m < entries@.len() ==> jvs[m] == json_view(#[trigger] entries@[m]),
            (match spec_error_entries(jvs.skip(i as int)) {
                Some(rest) => spec_error_entries(jvs) == Some(
                    out@.map_values(|d: CratesIoAPIErrorDetail| d.detail@) + rest,
                ),
                None => spec_error_entries(jvs) is None,
            }),
        decreases entries@.len() - i,
    {
        proof {
            assert(jvs.skip(i as int)[0] == jvs[i as int]);
            assert(jvs.skip(i as int).skip(1) =~= jvs.skip(i + 1));
        }
        let ef = match &entries[i] {
            Json::Obj(ef) => ef,
            _ => {
                return None;
            },
        };
        let d = match get_str(ef, "detail") {
            Some(d) => d,
            None => {
                return None;
            },
        };
        let ghost out0 = out@;
        let ghost dv = d@;
        out.push(CratesIoAPIErrorDetail { detail: d });
        proof {
            assert(out@.map_values(|x: CratesIoAPIErrorDetail| x.detail@) =~= out0.map_values(
                |x: CratesIoAPIErrorDetail| x.detail@,
            ).push(dv));
            if spec_error_entries(jvs.skip(i + 1)) is Some {
                let rest = spec_error_entries(jvs.skip(i + 1))->Some_0;
                assert(out0.map_values(|x: CratesIoAPIErrorDetail| x.detail@) + (seq![dv] + rest)
                    =~= (out0.map_values(|x: CratesIoAPIErrorDetail| x.detail@).push(dv)) + rest);
            }
        }
        i += 1;
    }
    proof {
        assert(jvs.skip(entries@.len() as int).len() == 0);
        assert(spec_error_entries(jvs.skip(entries@.len() as int)) == Some(
            Seq::<Seq<char>>::empty(),
        ));
        assert(out@.map_values(|x: CratesIoAPIErrorDetail| x.detail@) + Seq::<Seq<char>>::empty()
            =~= out@.map_values(|x: CratesIoAPIErrorDetail| x.detail@));
    }
    Some(CratesIoAPIError { errors: out })
}

} // verus!
