//! The owners query: who owns a crate on the registry.

use vstd::prelude::*;

use crate::crates_io::{
    CratesIoAPIError, DecodeError, get_i64, get_str, spec_error_details_of, spec_get_i64,
    spec_get_str, spec_registry_error_of, try_registry_error,
};
use crate::json::{Json, JsonV, json_view, json_views, spec_parse_json};
use crate::plan_doc::spec_obj_lookup;
use vstd::string::StringExecFns;

verus! {

/// The owners query for one crate.
pub struct Query {
    pub crate_name: String,
}

/// The owners reply: the crate's current owners.
#[derive(Debug, Clone, PartialEq)]
pub struct Response {
    pub users: Vec<User>,
}

/// One owner.
#[derive(Debug, Clone, PartialEq)]
pub struct User {
    pub id: i64,
    pub login: String,
    pub kind: String,
    pub url: String,
    pub name: String,
    pub avatar: String,
}

/// Mathematical model of an owner.
pub struct UserV {
    pub id: i64,
    pub login: Seq<char>,
    pub kind: Seq<char>,
    pub url: Seq<char>,
    pub name: Seq<char>,
    pub avatar: Seq<char>,
}

impl View for User {
    type V = UserV;

    open spec fn view(&self) -> UserV {
        UserV {
            id: self.id,
            login: self.login@,
            kind: self.kind@,
            url: self.url@,
            name: self.name@,
            avatar: self.avatar@,
        }
    }
}

impl View for Response {
    type V = Seq<UserV>;

    open spec fn view(&self) -> Seq<UserV> {
        self.users@.map_values(|u: User| u@)
    }
}

/// One owner read from its JSON object.
pub open spec fn spec_user_of(j: JsonV) -> Option<UserV> {
    match j {
        JsonV::Obj(f) => match (
            spec_get_i64(f, "id"@),
            spec_get_str(f, "login"@),
            spec_get_str(f, "kind"@),
            spec_get_str(f, "url"@),
            spec_get_str(f, "name"@),
            spec_get_str(f, "avatar"@),
        ) {
            (Some(id), Some(login), Some(kind), Some(url), Some(name), Some(avatar)) => Some(
                UserV { id, login, kind, url, name, avatar },
            ),
            _ => None,
        },
        _ => None,
    }
}

/// The owners read in order from the reply's `users` array.
pub open spec fn spec_users_of(entries: Seq<JsonV>) -> Option<Seq<UserV>>
    decreases entries.len(),
{
    if entries.len() == 0 {
        Some(Seq::empty())
    } else {
        match spec_user_of(entries[0]) {
            Some(u) => match spec_users_of(entries.skip(1)) {
                Some(rest) => Some(seq![u] + rest),
                None => None,
            },
            None => None,
        }
    }
}

/// The success shape: an object whose `users` member lists the owners.
pub open spec fn spec_owners_of(j: JsonV) -> Option<Seq<UserV>> {
    match j {
        JsonV::Obj(fields) => match spec_obj_lookup(fields, "users"@) {
            Some(JsonV::Arr(entries)) => spec_users_of(entries),
            _ => None,
        },
        _ => None,
    }
}

fn decode_user(j: &Json) -> (r: Option<User>)
    ensures
        match r {
            Some(u) => spec_user_of(j@) == Some(u@),
            None => spec_user_of(j@) is None,
        },
{
    let f = match j {
        Json::Obj(f) => f,
        _ => {
            return None;
        },
    };
    let id = match get_i64(f, "id") {
        Some(v) => v,
        None => {
            return None;
        },
    };
    let login = match get_str(f, "login") {
        Some(v) => v,
        None => {
            return None;
        },
    };
    let kind = match get_str(f, "kind") {
        Some(v) => v,
        None => {
            return None;
        },
    };
    let url = match get_str(f, "url") {
        Some(v) => v,
        None => {
            return None;
        },
    };
    let name = match get_str(f, "name") {
        Some(v) => v,
        None => {
            return None;
        },
    };
    let avatar = match get_str(f, "avatar") {
        Some(v) => v,
        None => {
            return None;
        },
    };
    Some(User { id, login, kind, url, name, avatar })
}

impl Response {
    /// Decode a reply body: the error shape is attempted first and, when
    /// it matches, surfaced as a registry-domain error; otherwise the
    /// success shape; a body matching neither is a decoding failure.
    #[verifier::rlimit(80)]
    pub fn try_deserialize(body: &str) -> (r: Result<Result<Response, CratesIoAPIError>, DecodeError>)
        ensures
            match spec_parse_json(body@) {
                None => r matches Err(DecodeError::MalformedJson),
                Some(j) => match spec_registry_error_of(j) {
                    Some(details) => r matches Ok(Err(e)) && spec_error_details_of(e) == details,
                    None => match spec_owners_of(j) {
                        Some(users) => r matches Ok(Ok(resp)) && resp@ == users,
                        None => r matches Err(DecodeError::UnexpectedShape),
                    },
                },
            },
    {
        let j = match crate::json::parse_json(body) {
            Some(j) => j,
            None => {
                return Err(DecodeError::MalformedJson);
            },
        };
        if let Some(e) = try_registry_error(&j) {
            return Ok(Err(e));
        }
        let fields = match &j {
            Json::Obj(fields) => fields,
            _ => {
                return Err(DecodeError::UnexpectedShape);
            },
        };
        let entries = match crate::plan_doc::obj_lookup(fields, "users") {
            Some(Json::Arr(entries)) => entries,
            _ => {
                return Err(DecodeError::UnexpectedShape);
            },
        };
        proof {
            crate::json::lemma_json_views_index(entries@);
        }
        let ghost jvs = json_views(entries@);
        let mut users: Vec<User> = Vec::new();
        let mut i: usize = 0;
        proof {
            assert(jvs.skip(0) =~= jvs);
            if spec_users_of(jvs) is Some {
                assert(users@.map_values(|u: User| u@) + spec_users_of(jvs)->Some_0
                    =~= spec_users_of(jvs)->Some_0);
            }
        }
        while i < entries.len()
            invariant
                i <= entries@.len(),
                j@ == JsonV::Obj(crate::json::json_field_views(j->Obj_0@)),
                spec_registry_error_of(j@) is None,
                spec_obj_lookup(crate::json::json_field_views(j->Obj_0@), "users"@) == Some(
                    JsonV::Arr(jvs),
                ),
                jvs == json_views(entries@),
                jvs.len() == entries@.len(),
                forall|m: int|
                    0 <= m < entries@.len() ==> jvs[m] == json_view(#[trigger] entries@[m]),
                spec_parse_json(body@) == Some(j@),
                (match spec_users_of(jvs.skip(i as int)) {
                    Some(rest) => spec_users_of(jvs) == Some(
                        users@.map_values(|u: User| u@) + rest,
                    ),
                    None => spec_users_of(jvs) is None,
                }),
            decreases entries@.len() - i,
        {
            proof {
                assert(jvs.skip(i as int)[0] == jvs[i as int]);
                assert(jvs.skip(i as int).skip(1) =~= jvs.skip(i + 1));
            }
            match decode_user(&entries[i]) {
                Some(u) => {
                    let ghost users0 = users@;
                    let ghost uv = u@;
                    users.push(u);
                    proof {
                        assert(users@.map_values(|x: User| x@) =~= users0.map_values(
                            |x: User| x@,
                        ).push(uv));
                        if spec_users_of(jvs.skip(i + 1)) is Some {
                            let rest = spec_users_of(jvs.skip(i + 1))->Some_0;
                            assert(users0.map_values(|x: User| x@) + (seq![uv] + rest)
                                =~= (users0.map_values(|x: User| x@).push(uv)) + rest);
                        }
                    }
                    i += 1;
                },
                None => {
                    return Err(DecodeError::UnexpectedShape);
                },
            }
        }
        proof {
            assert(jvs.skip(entries@.len() as int).len() == 0);
            assert(spec_users_of(jvs.skip(entries@.len() as int)) == Some(Seq::<UserV>::empty()));
            assert(users@.map_values(|u: User| u@) + Seq::<UserV>::empty() =~= users@.map_values(
                |u: User| u@,
            ));
        }
        Ok(Ok(Response { users }))
    }
}

impl Query {
    /// The owners endpoint for this crate.
    pub fn endpoint(&self) -> (r: String)
        ensures
            r@ == "https://crates.io/api/v1/crates/"@ + self.crate_name@ + "/owners"@,
    {
        let mut r = "https://crates.io/api/v1/crates/".to_owned();
        r.append(self.crate_name.as_str());
        r.append("/owners");
        r
    }
}

} // verus!
