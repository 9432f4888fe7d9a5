//! The plan document: a plan is written as a JSON document shaped exactly
//! like the data model — lowerCamelCase field names, each action carrying
//! a `kind` tag with the variant's own fields flattened beside its
//! `repository` — and read back without loss.

use vstd::prelude::*;
use vstd::string::StringExecFns;

use crate::actions::{
    Action, ActionV, CratesIOAction, CratesIOActionV, GithubAction, GithubActionV, LocalAction,
    LocalActionV, Plan, PlanItem, PlanItemV, PlanV, view_strings,
};
use crate::json::{
    Json, JsonV, json_field_views, json_view, json_views, lemma_json_field_views_index,
    lemma_json_views_index, spec_parse_json, spec_ser,
};

verus! {

/// The first value bound to a key in an object, if any.
pub open spec fn spec_obj_lookup(fields: Seq<(Seq<char>, JsonV)>, key: Seq<char>) -> Option<
    JsonV,
>
    decreases fields.len(),
{
    if fields.len() == 0 {
        None
    } else if fields[0].0 == key {
        Some(fields[0].1)
    } else {
        spec_obj_lookup(fields.skip(1), key)
    }
}

/// A list of tag names as a JSON array of strings.
pub open spec fn spec_strings_to_json(tags: Seq<Seq<char>>) -> Seq<JsonV> {
    tags.map_values(|t: Seq<char>| JsonV::Str(t))
}

/// An action as a JSON object: a `kind` tag, the target `repository`, and
/// the variant's own fields at the same nesting level.
pub open spec fn spec_action_to_json(a: ActionV) -> JsonV {
    match a {
        ActionV::CratesIO { repository, inner } => match inner {
            CratesIOActionV::AddOwner { crate_name, login_value } => JsonV::Obj(
                seq![
                    ("kind"@, JsonV::Str("addOwner"@)),
                    ("repository"@, JsonV::Str(repository)),
                    ("crateName"@, JsonV::Str(crate_name)),
                    ("loginValue"@, JsonV::Str(login_value)),
                ],
            ),
            CratesIOActionV::RemoveOwner { crate_name, login_value } => JsonV::Obj(
                seq![
                    ("kind"@, JsonV::Str("removeOwner"@)),
                    ("repository"@, JsonV::Str(repository)),
                    ("crateName"@, JsonV::Str(crate_name)),
                    ("loginValue"@, JsonV::Str(login_value)),
                ],
            ),
            CratesIOActionV::Publish { crate_name, dry_run } => JsonV::Obj(
                seq![
                    ("kind"@, JsonV::Str("publish"@)),
                    ("repository"@, JsonV::Str(repository)),
                    ("crateName"@, JsonV::Str(crate_name)),
                    ("dryRun"@, JsonV::Bool(dry_run)),
                ],
            ),
        },
        ActionV::Github { repository, inner } => match inner {
            GithubActionV::CreateReleasePR { crate_name, new_version } => JsonV::Obj(
                seq![
                    ("kind"@, JsonV::Str("createReleasePR"@)),
                    ("repository"@, JsonV::Str(repository)),
                    ("crateName"@, JsonV::Str(crate_name)),
                    ("newVersion"@, JsonV::Str(new_version)),
                ],
            ),
            GithubActionV::CreateRelease { crate_name, tag, version } => JsonV::Obj(
                seq![
                    ("kind"@, JsonV::Str("createRelease"@)),
                    ("repository"@, JsonV::Str(repository)),
                    ("crateName"@, JsonV::Str(crate_name)),
                    ("tag"@, JsonV::Str(tag)),
                    ("version"@, JsonV::Str(version)),
                ],
            ),
        },
        ActionV::Local { repository, inner } => match inner {
            LocalActionV::AssertDefaultBranch => JsonV::Obj(
                seq![
                    ("kind"@, JsonV::Str("assertDefaultBranch"@)),
                    ("repository"@, JsonV::Str(repository)),
                ],
            ),
            LocalActionV::CreateTags { new_tags } => JsonV::Obj(
                seq![
                    ("kind"@, JsonV::Str("createTags"@)),
                    ("repository"@, JsonV::Str(repository)),
                    ("newTags"@, JsonV::Arr(spec_strings_to_json(new_tags))),
                ],
            ),
            LocalActionV::PublishTags { tags, remote } => JsonV::Obj(
                seq![
                    ("kind"@, JsonV::Str("publishTags"@)),
                    ("repository"@, JsonV::Str(repository)),
                    ("tags"@, JsonV::Arr(spec_strings_to_json(tags))),
                    (
                        "remote"@,
                        match remote {
                            Some(r) => JsonV::Str(r),
                            None => JsonV::Null,
                        },
                    ),
                ],
            ),
        },
    }
}

/// A plan item as a JSON object.
pub open spec fn spec_item_to_json(it: PlanItemV) -> JsonV {
    JsonV::Obj(
        seq![
            (
                "description"@,
                match it.description {
                    Some(d) => JsonV::Str(d),
                    None => JsonV::Null,
                },
            ),
            ("action"@, spec_action_to_json(it.action)),
            ("continueOnError"@, JsonV::Bool(it.continue_on_error)),
        ],
    )
}

/// A plan as a JSON object holding its items in order.
pub open spec fn spec_plan_to_json(p: PlanV) -> JsonV {
    JsonV::Obj(
        seq![
            ("items"@, JsonV::Arr(p.items.map_values(|it: PlanItemV| spec_item_to_json(it)))),
        ],
    )
}

/// The serialized plan document.
pub open spec fn spec_encode_plan(p: PlanV) -> Seq<char> {
    spec_ser(spec_plan_to_json(p))
}

/// A JSON array of strings read back as the tag names, if every entry is
/// a string.
pub open spec fn spec_json_to_strings(items: Seq<JsonV>) -> Option<Seq<Seq<char>>>
    decreases items.len(),
{
    if items.len() == 0 {
        Some(Seq::empty())
    } else {
        match items[0] {
            JsonV::Str(t) => match spec_json_to_strings(items.skip(1)) {
                Some(rest) => Some(seq![t] + rest),
                None => None,
            },
            _ => None,
        }
    }
}

/// An action read back from its JSON object: the `kind` tag picks the
/// variant, whose fields are read beside `repository`. Unknown keys are
/// ignored; a missing or ill-typed field refuses the document.
pub open spec fn spec_json_to_action(j: JsonV) -> Option<ActionV> {
    match j {
        JsonV::Obj(fields) => match (
            spec_obj_lookup(fields, "kind"@),
            spec_obj_lookup(fields, "repository"@),
        ) {
            (Some(JsonV::Str(kind)), Some(JsonV::Str(repository))) => {
                if kind == "addOwner"@ {
                    match (
                        spec_obj_lookup(fields, "crateName"@),
                        spec_obj_lookup(fields, "loginValue"@),
                    ) {
                        (Some(JsonV::Str(crate_name)), Some(JsonV::Str(login_value))) => Some(
                            ActionV::CratesIO {
                                repository,
                                inner: CratesIOActionV::AddOwner { crate_name, login_value },
                            },
                        ),
                        _ => None,
                    }
                } else if kind == "removeOwner"@ {
                    match (
                        spec_obj_lookup(fields, "crateName"@),
                        spec_obj_lookup(fields, "loginValue"@),
                    ) {
                        (Some(JsonV::Str(crate_name)), Some(JsonV::Str(login_value))) => Some(
                            ActionV::CratesIO {
                                repository,
                                inner: CratesIOActionV::RemoveOwner { crate_name, login_value },
                            },
                        ),
                        _ => None,
                    }
                } else if kind == "publish"@ {
                    match (
                        spec_obj_lookup(fields, "crateName"@),
                        spec_obj_lookup(fields, "dryRun"@),
                    ) {
                        (Some(JsonV::Str(crate_name)), Some(JsonV::Bool(dry_run))) => Some(
                            ActionV::CratesIO {
                                repository,
                                inner: CratesIOActionV::Publish { crate_name, dry_run },
                            },
                        ),
                        _ => None,
                    }
                } else if kind == "createReleasePR"@ {
                    match (
                        spec_obj_lookup(fields, "crateName"@),
                        spec_obj_lookup(fields, "newVersion"@),
                    ) {
                        (Some(JsonV::Str(crate_name)), Some(JsonV::Str(new_version))) => Some(
                            ActionV::Github {
                                repository,
                                inner: GithubActionV::CreateReleasePR { crate_name, new_version },
                            },
                        ),
                        _ => None,
                    }
                } else if kind == "createRelease"@ {
                    match (
                        spec_obj_lookup(fields, "crateName"@),
                        spec_obj_lookup(fields, "tag"@),
                        spec_obj_lookup(fields, "version"@),
                    ) {
                        (
                            Some(JsonV::Str(crate_name)),
                            Some(JsonV::Str(tag)),
                            Some(JsonV::Str(version)),
                        ) => Some(
                            ActionV::Github {
                                repository,
                                inner: GithubActionV::CreateRelease { crate_name, tag, version },
                            },
                        ),
                        _ => None,
                    }
                } else if kind == "assertDefaultBranch"@ {
                    Some(ActionV::Local { repository, inner: LocalActionV::AssertDefaultBranch })
                } else if kind == "createTags"@ {
                    match spec_obj_lookup(fields, "newTags"@) {
                        Some(JsonV::Arr(entries)) => match spec_json_to_strings(entries) {
                            Some(new_tags) => Some(
                                ActionV::Local {
                                    repository,
                                    inner: LocalActionV::CreateTags { new_tags },
                                },
                            ),
                            None => None,
                        },
                        _ => None,
                    }
                } else if kind == "publishTags"@ {
                    match spec_obj_lookup(fields, "tags"@) {
                        Some(JsonV::Arr(entries)) => match spec_json_to_strings(entries) {
                            Some(tags) => match spec_obj_lookup(fields, "remote"@) {
                                Some(JsonV::Str(r)) => Some(
                                    ActionV::Local {
                                        repository,
                                        inner: LocalActionV::PublishTags {
                                            tags,
                                            remote: Some(r),
                                        },
                                    },
                                ),
                                Some(JsonV::Null) | None => Some(
                                    ActionV::Local {
                                        repository,
                                        inner: LocalActionV::PublishTags { tags, remote: None },
                                    },
                                ),
                                _ => None,
                            },
                            None => None,
                        },
                        _ => None,
                    }
                } else {
                    None
                }
            },
            _ => None,
        },
        _ => None,
    }
}

/// A plan item read back from its JSON object. An absent description is
/// no description; an absent continue-on-error flag is `false`.
pub open spec fn spec_json_to_item(j: JsonV) -> Option<PlanItemV> {
    match j {
        JsonV::Obj(fields) => {
            let description = match spec_obj_lookup(fields, "description"@) {
                Some(JsonV::Str(d)) => Some(Some(d)),
                Some(JsonV::Null) | None => Some(None),
                _ => None,
            };
            let continue_on_error = match spec_obj_lookup(fields, "continueOnError"@) {
                Some(JsonV::Bool(b)) => Some(b),
                None => Some(false),
                _ => None,
            };
            match (description, continue_on_error) {
                (Some(description), Some(continue_on_error)) => match spec_obj_lookup(
                    fields,
                    "action"@,
                ) {
                    Some(aj) => match spec_json_to_action(aj) {
                        Some(action) => Some(PlanItemV { description, action, continue_on_error }),
                        None => None,
                    },
                    None => None,
                },
                _ => None,
            }
        },
        _ => None,
    }
}

/// The items of a plan read back in order, if each is a valid item.
pub open spec fn spec_json_to_items(entries: Seq<JsonV>) -> Option<Seq<PlanItemV>>
    decreases entries.len(),
{
    if entries.len() == 0 {
        Some(Seq::empty())
    } else {
        match spec_json_to_item(entries[0]) {
            Some(it) => match spec_json_to_items(entries.skip(1)) {
                Some(rest) => Some(seq![it] + rest),
                None => None,
            },
            None => None,
        }
    }
}

/// A plan read back from its JSON value.
pub open spec fn spec_json_to_plan(j: JsonV) -> Option<PlanV> {
    match j {
        JsonV::Obj(fields) => match spec_obj_lookup(fields, "items"@) {
            Some(JsonV::Arr(entries)) => match spec_json_to_items(entries) {
                Some(items) => Some(PlanV { items }),
                None => None,
            },
            _ => None,
        },
        _ => None,
    }
}

/// A plan read back from document text: parse the JSON, then the plan.
pub open spec fn spec_decode_plan(s: Seq<char>) -> Option<PlanV> {
    match spec_parse_json(s) {
        Some(j) => spec_json_to_plan(j),
        None => None,
    }
}


fn jstr(s: &String) -> (r: Json)
    ensures
        r@ == JsonV::Str(s@),
{
    Json::Str(s.clone())
}

fn jkey(k: &str, v: Json) -> (r: (String, Json))
    ensures
        r.0@ == k@,
        r.1 == v,
{
    (k.to_owned(), v)
}

fn strings_to_json(tags: &Vec<String>) -> (r: Json)
    ensures
        r@ == JsonV::Arr(spec_strings_to_json(view_strings(tags@))),
{
    let mut v: Vec<Json> = Vec::new();
    let mut i: usize = 0;
    while i < tags.len()
        invariant
            i <= tags@.len(),
            v@.len() == i,
            forall|k: int|
                0 <= k < i ==> json_view(#[trigger] v@[k]) == JsonV::Str(tags@[k]@),
        decreases tags@.len() - i,
    {
        v.push(Json::Str(tags[i].clone()));
        i += 1;
    }
    proof {
        lemma_json_views_index(v@);
        assert forall|k: int| 0 <= k < tags@.len() implies json_views(v@)[k]
            == spec_strings_to_json(view_strings(tags@))[k] by {
            assert(view_strings(tags@)[k] == tags@[k]@);
            assert(spec_strings_to_json(view_strings(tags@))[k] == JsonV::Str(tags@[k]@));
            assert(json_views(v@)[k] == json_view(v@[k]));
        }
        assert(json_views(v@) =~= spec_strings_to_json(view_strings(tags@)));
    }
    Json::Arr(v)
}

impl Action {
    /// This action as a JSON object: its `kind` tag, its `repository`, and
    /// the variant's own fields beside them.
    #[verifier::rlimit(100)]
    pub fn to_json(&self) -> (r: Json)
        ensures
            r@ == spec_action_to_json(self@),
    {
        match self {
            Action::CratesIO { repository, inner } => {
                match inner {
                    CratesIOAction::AddOwner { crate_name, login_value } => {
                        let mut fields: Vec<(String, Json)> = Vec::new();
                        fields.push(jkey("kind", Json::Str("addOwner".to_owned())));
                        fields.push(jkey("repository", jstr(repository)));
                        fields.push(jkey("crateName", jstr(crate_name)));
                        fields.push(jkey("loginValue", jstr(login_value)));
                        proof {
                            lemma_json_field_views_index(fields@);
                            assert(json_field_views(fields@) =~= spec_action_to_json(
                                self@,
                            )->Obj_0);
                        }
                        Json::Obj(fields)
                    },
                    CratesIOAction::RemoveOwner { crate_name, login_value } => {
                        let mut fields: Vec<(String, Json)> = Vec::new();
                        fields.push(jkey("kind", Json::Str("removeOwner".to_owned())));
                        fields.push(jkey("repository", jstr(repository)));
                        fields.push(jkey("crateName", jstr(crate_name)));
                        fields.push(jkey("loginValue", jstr(login_value)));
                        proof {
                            lemma_json_field_views_index(fields@);
                            assert(json_field_views(fields@) =~= spec_action_to_json(
                                self@,
                            )->Obj_0);
                        }
                        Json::Obj(fields)
                    },
                    CratesIOAction::Publish { crate_name, dry_run } => {
                        let mut fields: Vec<(String, Json)> = Vec::new();
                        fields.push(jkey("kind", Json::Str("publish".to_owned())));
                        fields.push(jkey("repository", jstr(repository)));
                        fields.push(jkey("crateName", jstr(crate_name)));
                        fields.push(jkey("dryRun", Json::Bool(*dry_run)));
                        proof {
                            lemma_json_field_views_index(fields@);
                            assert(json_field_views(fields@) =~= spec_action_to_json(
                                self@,
                            )->Obj_0);
                        }
                        Json::Obj(fields)
                    },
                }
            },
            Action::Github { repository, inner } => {
                match inner {
                    GithubAction::CreateReleasePR { crate_name, new_version } => {
                        let mut fields: Vec<(String, Json)> = Vec::new();
                        fields.push(jkey("kind", Json::Str("createReleasePR".to_owned())));
                        fields.push(jkey("repository", jstr(repository)));
                        fields.push(jkey("crateName", jstr(crate_name)));
                        fields.push(jkey("newVersion", jstr(new_version)));
                        proof {
                            lemma_json_field_views_index(fields@);
                            assert(json_field_views(fields@) =~= spec_action_to_json(
                                self@,
                            )->Obj_0);
                        }
                        Json::Obj(fields)
                    },
                    GithubAction::CreateRelease { crate_name, tag, version } => {
                        let mut fields: Vec<(String, Json)> = Vec::new();
                        fields.push(jkey("kind", Json::Str("createRelease".to_owned())));
                        fields.push(jkey("repository", jstr(repository)));
                        fields.push(jkey("crateName", jstr(crate_name)));
                        fields.push(jkey("tag", jstr(tag)));
                        fields.push(jkey("version", jstr(version)));
                        proof {
                            lemma_json_field_views_index(fields@);
                            assert(json_field_views(fields@) =~= spec_action_to_json(
                                self@,
                            )->Obj_0);
                        }
                        Json::Obj(fields)
                    },
                }
            },
            Action::Local { repository, inner } => {
                match inner {
                    LocalAction::AssertDefaultBranch => {
                        let mut fields: Vec<(String, Json)> = Vec::new();
                        fields.push(jkey("kind", Json::Str("assertDefaultBranch".to_owned())));
                        fields.push(jkey("repository", jstr(repository)));
                        proof {
                            lemma_json_field_views_index(fields@);
                            assert(json_field_views(fields@) =~= spec_action_to_json(
                                self@,
                            )->Obj_0);
                        }
                        Json::Obj(fields)
                    },
                    LocalAction::CreateTags { new_tags } => {
                        let mut fields: Vec<(String, Json)> = Vec::new();
                        fields.push(jkey("kind", Json::Str("createTags".to_owned())));
                        fields.push(jkey("repository", jstr(repository)));
                        fields.push(jkey("newTags", strings_to_json(new_tags)));
                        proof {
                            lemma_json_field_views_index(fields@);
                            assert(json_field_views(fields@) =~= spec_action_to_json(
                                self@,
                            )->Obj_0);
                        }
                        Json::Obj(fields)
                    },
                    LocalAction::PublishTags { tags, remote } => {
                        let mut fields: Vec<(String, Json)> = Vec::new();
                        fields.push(jkey("kind", Json::Str("publishTags".to_owned())));
                        fields.push(jkey("repository", jstr(repository)));
                        fields.push(jkey("tags", strings_to_json(tags)));
                        match remote {
                            Some(r) => fields.push(jkey("remote", jstr(r))),
                            None => fields.push(jkey("remote", Json::Null)),
                        }
                        proof {
                            lemma_json_field_views_index(fields@);
                            assert(json_field_views(fields@) =~= spec_action_to_json(
                                self@,
                            )->Obj_0);
                        }
                        Json::Obj(fields)
                    },
                }
            },
        }
    }
}

impl PlanItem {
    /// This item as a JSON object.
    #[verifier::rlimit(100)]
    pub fn to_json(&self) -> (r: Json)
        ensures
            r@ == spec_item_to_json(self@),
    {
        let dj: Json = match &self.description {
            Some(d) => jstr(d),
            None => Json::Null,
        };
        assert(json_view(dj) == (match self@.description {
            Some(d) => JsonV::Str(d),
            None => JsonV::Null,
        }));
        let mut fields: Vec<(String, Json)> = Vec::new();
        fields.push(jkey("description", dj));
        fields.push(jkey("action", self.action.to_json()));
        fields.push(jkey("continueOnError", Json::Bool(self.continue_on_error)));
        proof {
            lemma_json_field_views_index(fields@);
            assert(json_field_views(fields@) =~= spec_item_to_json(self@)->Obj_0);
        }
        Json::Obj(fields)
    }
}

impl Plan {
    /// This plan as a JSON object holding its items in order.
    pub fn to_json(&self) -> (r: Json)
        ensures
            r@ == spec_plan_to_json(self@),
    {
        let mut entries: Vec<Json> = Vec::new();
        let mut i: usize = 0;
        while i < self.items.len()
            invariant
                i <= self.items@.len(),
                entries@.len() == i,
                forall|k: int|
                    0 <= k < i ==> json_view(#[trigger] entries@[k]) == spec_item_to_json(
                        self.items@[k]@,
                    ),
            decreases self.items@.len() - i,
        {
            entries.push(self.items[i].to_json());
            i += 1;
        }
        proof {
            lemma_json_views_index(entries@);
            assert forall|k: int| 0 <= k < self.items@.len() implies json_views(entries@)[k]
                == self@.items.map_values(|it: PlanItemV| spec_item_to_json(it))[k] by {
                assert(self@.items[k] == self.items@[k]@);
                assert(self@.items.map_values(|it: PlanItemV| spec_item_to_json(it))[k]
                    == spec_item_to_json(self.items@[k]@));
                assert(json_views(entries@)[k] == json_view(entries@[k]));
            }
            assert(json_views(entries@) =~= self@.items.map_values(
                |it: PlanItemV| spec_item_to_json(it),
            ));
        }
        let mut fields: Vec<(String, Json)> = Vec::new();
        fields.push(jkey("items", Json::Arr(entries)));
        proof {
            lemma_json_field_views_index(fields@);
            assert(json_field_views(fields@) =~= spec_plan_to_json(self@)->Obj_0);
        }
        Json::Obj(fields)
    }

    /// This plan's document text.
    pub fn encode(&self) -> (r: String)
        ensures
            r@ == spec_encode_plan(self@),
    {
        self.to_json().to_json_string()
    }
}

pub(crate) fn obj_lookup<'a>(fields: &'a Vec<(String, Json)>, key: &str) -> (r: Option<&'a Json>)
    ensures
        match r {
            Some(j) => spec_obj_lookup(json_field_views(fields@), key@) == Some(j@),
            None => spec_obj_lookup(json_field_views(fields@), key@) is None,
        },
{
    proof {
        lemma_json_field_views_index(fields@);
    }
    let ghost fvs = json_field_views(fields@);
    let k = key.to_owned();
    let mut i: usize = 0;
    proof {
        assert(fvs.skip(0) =~= fvs);
    }
    while i < fields.len()
        invariant
            i <= fields@.len(),
            k@ == key@,
            fvs == json_field_views(fields@),
            fvs.len() == fields@.len(),
            forall|m: int|
                0 <= m < fields@.len() ==> fvs[m] == ((#[trigger] fields@[m]).0@, json_view(
                    fields@[m].1,
                )),
            spec_obj_lookup(fvs, key@) == spec_obj_lookup(fvs.skip(i as int), key@),
        decreases fields@.len() - i,
    {
        proof {
            assert(fvs.skip(i as int)[0] == fvs[i as int]);
            assert(fvs.skip(i as int).skip(1) =~= fvs.skip(i + 1));
        }
        if fields[i].0 == k {
            return Some(&fields[i].1);
        }
        i += 1;
    }
    proof {
        assert(fvs.skip(fields@.len() as int).len() == 0);
    }
    None
}

fn json_to_strings(entries: &Vec<Json>) -> (r: Option<Vec<String>>)
    ensures
        match r {
            Some(v) => spec_json_to_strings(json_views(entries@)) == Some(view_strings(v@)),
            None => spec_json_to_strings(json_views(entries@)) is None,
        },
{
    proof {
        lemma_json_views_index(entries@);
    }
    let ghost jvs = json_views(entries@);
    let mut out: Vec<String> = Vec::new();
    let mut i: usize = 0;
    proof {
        assert(jvs.skip(0) =~= jvs);
        if spec_json_to_strings(jvs) is Some {
            assert(view_strings(out@) + spec_json_to_strings(jvs)->Some_0
                =~= spec_json_to_strings(jvs)->Some_0);
        }
    }
    while i < entries.len()
        invariant
            i <= entries@.len(),
            jvs == json_views(entries@),
            jvs.len() == entries@.len(),
            forall|m: int|
                0 <= m < entries@.len() ==> jvs[m] == json_view(#[trigger] entries@[m]),
            (match spec_json_to_strings(jvs.skip(i as int)) {
                Some(rest) => spec_json_to_strings(jvs) == Some(view_strings(out@) + rest),
                None => spec_json_to_strings(jvs) is None,
            }),
        decreases entries@.len() - i,
    {
        proof {
            assert(jvs.skip(i as int)[0] == jvs[i as int]);
            assert(jvs.skip(i as int).skip(1) =~= jvs.skip(i + 1));
        }
        match &entries[i] {
            Json::Str(s) => {
                let ghost out0 = out@;
                let ghost sv = s@;
                out.push(s.clone());
                proof {
                    assert(view_strings(out@) =~= view_strings(out0).push(sv));
                    if spec_json_to_strings(jvs.skip(i + 1)) is Some {
                        let rest = spec_json_to_strings(jvs.skip(i + 1))->Some_0;
                        assert(view_strings(out0) + (seq![sv] + rest) =~= (view_strings(
                            out0,
                        ).push(sv)) + rest);
                    }
                }
                i += 1;
            },
            _ => {
                return None;
            },
        }
    }
    proof {
        assert(jvs.skip(entries@.len() as int).len() == 0);
        assert(spec_json_to_strings(jvs.skip(entries@.len() as int)) == Some(
            Seq::<Seq<char>>::empty(),
        ));
        assert(view_strings(out@) + Seq::<Seq<char>>::empty() =~= view_strings(out@));
    }
    Some(out)
}

/// An action read back from its JSON object.
#[verifier::rlimit(100)]
pub fn json_to_action(j: &Json) -> (r: Option<Action>)
    ensures
        match r {
            Some(a) => spec_json_to_action(j@) == Some(a@),
            None => spec_json_to_action(j@) is None,
        },
{
    let fields = match j {
        Json::Obj(fields) => fields,
        _ => {
            return None;
        },
    };
    let kind = match obj_lookup(fields, "kind") {
        Some(Json::Str(kind)) => kind,
        _ => {
            return None;
        },
    };
    let repository = match obj_lookup(fields, "repository") {
        Some(Json::Str(repository)) => repository,
        _ => {
            return None;
        },
    };
    if *kind == "addOwner".to_owned() {
        match (obj_lookup(fields, "crateName"), obj_lookup(fields, "loginValue")) {
            (Some(Json::Str(crate_name)), Some(Json::Str(login_value))) => Some(
                Action::CratesIO {
                    repository: repository.clone(),
                    inner: CratesIOAction::AddOwner {
                        crate_name: crate_name.clone(),
                        login_value: login_value.clone(),
                    },
                },
            ),
            _ => None,
        }
    } else if *kind == "removeOwner".to_owned() {
        match (obj_lookup(fields, "crateName"), obj_lookup(fields, "loginValue")) {
            (Some(Json::Str(crate_name)), Some(Json::Str(login_value))) => Some(
                Action::CratesIO {
                    repository: repository.clone(),
                    inner: CratesIOAction::RemoveOwner {
                        crate_name: crate_name.clone(),
                        login_value: login_value.clone(),
                    },
                },
            ),
            _ => None,
        }
    } else if *kind == "publish".to_owned() {
        match (obj_lookup(fields, "crateName"), obj_lookup(fields, "dryRun")) {
            (Some(Json::Str(crate_name)), Some(Json::Bool(dry_run))) => Some(
                Action::CratesIO {
                    repository: repository.clone(),
                    inner: CratesIOAction::Publish {
                        crate_name: crate_name.clone(),
                        dry_run: *dry_run,
                    },
                },
            ),
            _ => None,
        }
    } else if *kind == "createReleasePR".to_owned() {
        match (obj_lookup(fields, "crateName"), obj_lookup(fields, "newVersion")) {
            (Some(Json::Str(crate_name)), Some(Json::Str(new_version))) => Some(
                Action::Github {
                    repository: repository.clone(),
                    inner: GithubAction::CreateReleasePR {
                        crate_name: crate_name.clone(),
                        new_version: new_version.clone(),
                    },
                },
            ),
            _ => None,
        }
    } else if *kind == "createRelease".to_owned() {
        match (
            obj_lookup(fields, "crateName"),
            obj_lookup(fields, "tag"),
            obj_lookup(fields, "version"),
        ) {
            (Some(Json::Str(crate_name)), Some(Json::Str(tag)), Some(Json::Str(version))) => Some(
                Action::Github {
                    repository: repository.clone(),
                    inner: GithubAction::CreateRelease {
                        crate_name: crate_name.clone(),
                        tag: tag.clone(),
                        version: version.clone(),
                    },
                },
            ),
            _ => None,
        }
    } else if *kind == "assertDefaultBranch".to_owned() {
        Some(
            Action::Local {
                repository: repository.clone(),
                inner: LocalAction::AssertDefaultBranch,
            },
        )
    } else if *kind == "createTags".to_owned() {
        match obj_lookup(fields, "newTags") {
            Some(Json::Arr(entries)) => match json_to_strings(entries) {
                Some(new_tags) => Some(
                    Action::Local {
                        repository: repository.clone(),
                        inner: LocalAction::CreateTags { new_tags },
                    },
                ),
                None => None,
            },
            _ => None,
        }
    } else if *kind == "publishTags".to_owned() {
        match obj_lookup(fields, "tags") {
            Some(Json::Arr(entries)) => match json_to_strings(entries) {
                Some(tags) => match obj_lookup(fields, "remote") {
                    Some(Json::Str(r)) => Some(
                        Action::Local {
                            repository: repository.clone(),
                            inner: LocalAction::PublishTags { tags, remote: Some(r.clone()) },
                        },
                    ),
                    Some(Json::Null) | None => Some(
                        Action::Local {
                            repository: repository.clone(),
                            inner: LocalAction::PublishTags { tags, remote: None },
                        },
                    ),
                    _ => None,
                },
                None => None,
            },
            _ => None,
        }
    } else {
        None
    }
}

/// A plan item read back from its JSON object.
pub fn json_to_item(j: &Json) -> (r: Option<PlanItem>)
    ensures
        match r {
            Some(it) => spec_json_to_item(j@) == Some(it@),
            None => spec_json_to_item(j@) is None,
        },
{
    let fields = match j {
        Json::Obj(fields) => fields,
        _ => {
            return None;
        },
    };
    let description = match obj_lookup(fields, "description") {
        Some(Json::Str(d)) => Some(d.clone()),
        Some(Json::Null) | None => None,
        _ => {
            return None;
        },
    };
    let continue_on_error = match obj_lookup(fields, "continueOnError") {
        Some(Json::Bool(b)) => *b,
        None => false,
        _ => {
            return None;
        },
    };
    let action = match obj_lookup(fields, "action") {
        Some(aj) => match json_to_action(aj) {
            Some(action) => action,
            None => {
                return None;
            },
        },
        None => {
            return None;
        },
    };
    Some(PlanItem { description, action, continue_on_error })
}

impl Plan {
    /// A plan read back from its JSON value.
    #[verifier::loop_isolation(false)]
    pub fn from_json(j: &Json) -> (r: Option<Plan>)
        ensures
            match r {
                Some(p) => spec_json_to_plan(j@) == Some(p@),
                None => spec_json_to_plan(j@) is None,
            },
    {
        let fields = match j {
            Json::Obj(fields) => fields,
            _ => {
                return None;
            },
        };
        let entries = match obj_lookup(fields, "items") {
            Some(Json::Arr(entries)) => entries,
            _ => {
                return None;
            },
        };
        proof {
            lemma_json_views_index(entries@);
        }
        let ghost jvs = json_views(entries@);
        let mut items: Vec<PlanItem> = Vec::new();
        let mut i: usize = 0;
        proof {
            assert(jvs.skip(0) =~= jvs);
            if spec_json_to_items(jvs) is Some {
                assert(items@.map_values(|it: PlanItem| it@) + spec_json_to_items(jvs)->Some_0
                    =~= spec_json_to_items(jvs)->Some_0);
            }
        }
        while i < entries.len()
            invariant
                i <= entries@.len(),
                jvs == json_views(entries@),
                jvs.len() == entries@.len(),
                forall|m: int|
                    0 <= m < entries@.len() ==> jvs[m] == json_view(#[trigger] entries@[m]),
                (match spec_json_to_items(jvs.skip(i as int)) {
                    Some(rest) => spec_json_to_items(jvs) == Some(
                        items@.map_values(|it: PlanItem| it@) + rest,
                    ),
                    None => spec_json_to_items(jvs) is None,
                }),
            decreases entries@.len() - i,
        {
            proof {
                assert(jvs.skip(i as int)[0] == jvs[i as int]);
                assert(jvs.skip(i as int).skip(1) =~= jvs.skip(i + 1));
            }
            match json_to_item(&entries[i]) {
                Some(it) => {
                    let ghost items0 = items@;
                    let ghost itv = it@;
                    items.push(it);
                    proof {
                        assert(items@.map_values(|x: PlanItem| x@) =~= items0.map_values(
                            |x: PlanItem| x@,
                        ).push(itv));
                        if spec_json_to_items(jvs.skip(i + 1)) is Some {
                            let rest = spec_json_to_items(jvs.skip(i + 1))->Some_0;
                            assert(items0.map_values(|x: PlanItem| x@) + (seq![itv] + rest)
                                =~= (items0.map_values(|x: PlanItem| x@).push(itv)) + rest);
                        }
                    }
                    i += 1;
                },
                None => {
                    return None;
                },
            }
        }
        proof {
            assert(jvs.skip(entries@.len() as int).len() == 0);
            assert(spec_json_to_items(jvs.skip(entries@.len() as int)) == Some(
                Seq::<PlanItemV>::empty(),
            ));
            assert(items@.map_values(|x: PlanItem| x@) + Seq::<PlanItemV>::empty()
                =~= items@.map_values(|x: PlanItem| x@));
        }
        Some(Plan { items })
    }

    /// A plan read back from document text.
    pub fn decode(text: &str) -> (r: Option<Plan>)
        ensures
            match r {
                Some(p) => spec_decode_plan(text@) == Some(p@),
                None => spec_decode_plan(text@) is None,
            },
    {
        match crate::json::parse_json(text) {
            Some(j) => Plan::from_json(&j),
            None => None,
        }
    }
}

/// Looking a key up skips a member bound to another key.
proof fn lemma_lookup_skip(fields: Seq<(Seq<char>, JsonV)>, key: Seq<char>)
    requires
        fields.len() > 0,
        fields[0].0 != key,
    ensures
        spec_obj_lookup(fields, key) == spec_obj_lookup(fields.skip(1), key),
{
}

/// Looking a key up finds the member bound to it in front.
proof fn lemma_lookup_hit(fields: Seq<(Seq<char>, JsonV)>, key: Seq<char>)
    requires
        fields.len() > 0,
        fields[0].0 == key,
    ensures
        spec_obj_lookup(fields, key) == Some(fields[0].1),
{
}

/// A written tag list reads back as the same tags.
proof fn lemma_strings_inverse(tags: Seq<Seq<char>>)
    ensures
        spec_json_to_strings(spec_strings_to_json(tags)) == Some(tags),
    decreases tags.len(),
{
    let m = spec_strings_to_json(tags);
    if tags.len() == 0 {
        assert(m.len() == 0);
        assert(spec_json_to_strings(m) == Some(Seq::<Seq<char>>::empty()));
        assert(Seq::<Seq<char>>::empty() =~= tags);
    } else {
        assert(m[0] == JsonV::Str(tags[0]));
        assert(m.skip(1) =~= spec_strings_to_json(tags.skip(1)));
        lemma_strings_inverse(tags.skip(1));
        assert(seq![tags[0]] + tags.skip(1) =~= tags);
    }
}

/// The lengths of the document's key and tag literals, named so that the
/// literal axioms apply.
proof fn lemma_doc_literal_lengths()
    ensures
        ("kind"@).len() == 4,
        ("repository"@).len() == 10,
        ("crateName"@).len() == 9,
        ("loginValue"@).len() == 10,
        ("dryRun"@).len() == 6,
        ("newVersion"@).len() == 10,
        ("tag"@).len() == 3,
        ("version"@).len() == 7,
        ("newTags"@).len() == 7,
        ("tags"@).len() == 4,
        ("remote"@).len() == 6,
        ("description"@).len() == 11,
        ("action"@).len() == 6,
        ("continueOnError"@).len() == 15,
        ("items"@).len() == 5,
        ("addOwner"@).len() == 8,
        ("removeOwner"@).len() == 11,
        ("publish"@).len() == 7,
        ("createReleasePR"@).len() == 15,
        ("createRelease"@).len() == 13,
        ("assertDefaultBranch"@).len() == 19,
        ("createTags"@).len() == 10,
        ("publishTags"@).len() == 11,
        ("repository"@)[0] == 'r',
        ("loginValue"@)[0] == 'l',
        ("newVersion"@)[0] == 'n',
        ("kind"@)[0] == 'k',
        ("tags"@)[0] == 't',
        ("publishTags"@)[0] == 'p',
        ("removeOwner"@)[0] == 'r',
{
    reveal_strlit("kind");
    reveal_strlit("repository");
    reveal_strlit("crateName");
    reveal_strlit("loginValue");
    reveal_strlit("dryRun");
    reveal_strlit("newVersion");
    reveal_strlit("tag");
    reveal_strlit("version");
    reveal_strlit("newTags");
    reveal_strlit("tags");
    reveal_strlit("remote");
    reveal_strlit("description");
    reveal_strlit("action");
    reveal_strlit("continueOnError");
    reveal_strlit("items");
    reveal_strlit("addOwner");
    reveal_strlit("removeOwner");
    reveal_strlit("publish");
    reveal_strlit("createReleasePR");
    reveal_strlit("createRelease");
    reveal_strlit("assertDefaultBranch");
    reveal_strlit("createTags");
    reveal_strlit("publishTags");
}

/// A written action reads back as the same action.
#[verifier::rlimit(100)]
proof fn lemma_action_inverse(a: ActionV)
    ensures
        spec_json_to_action(spec_action_to_json(a)) == Some(a),
{
    lemma_doc_literal_lengths();
    let f = spec_action_to_json(a)->Obj_0;
    match a {
        ActionV::CratesIO { repository, inner } => match inner {
            CratesIOActionV::AddOwner { crate_name, login_value } => {
                assert(f.skip(1)[0] == f[1]);
                assert(f.skip(1).skip(1)[0] == f[2]);
                assert(f.skip(1).skip(1).skip(1)[0] == f[3]);
                lemma_lookup_hit(f, "kind"@);
                lemma_lookup_skip(f, "repository"@);
                lemma_lookup_hit(f.skip(1), "repository"@);
                lemma_lookup_skip(f, "crateName"@);
                lemma_lookup_skip(f.skip(1), "crateName"@);
                lemma_lookup_hit(f.skip(1).skip(1), "crateName"@);
                lemma_lookup_skip(f, "loginValue"@);
                lemma_lookup_skip(f.skip(1), "loginValue"@);
                lemma_lookup_skip(f.skip(1).skip(1), "loginValue"@);
                lemma_lookup_hit(f.skip(1).skip(1).skip(1), "loginValue"@);
            },
            CratesIOActionV::RemoveOwner { crate_name, login_value } => {
                assert(f.skip(1)[0] == f[1]);
                assert(f.skip(1).skip(1)[0] == f[2]);
                assert(f.skip(1).skip(1).skip(1)[0] == f[3]);
                lemma_lookup_hit(f, "kind"@);
                lemma_lookup_skip(f, "repository"@);
                lemma_lookup_hit(f.skip(1), "repository"@);
                lemma_lookup_skip(f, "crateName"@);
                lemma_lookup_skip(f.skip(1), "crateName"@);
                lemma_lookup_hit(f.skip(1).skip(1), "crateName"@);
                lemma_lookup_skip(f, "loginValue"@);
                lemma_lookup_skip(f.skip(1), "loginValue"@);
                lemma_lookup_skip(f.skip(1).skip(1), "loginValue"@);
                lemma_lookup_hit(f.skip(1).skip(1).skip(1), "loginValue"@);
            },
            CratesIOActionV::Publish { crate_name, dry_run } => {
                assert(f.skip(1)[0] == f[1]);
                assert(f.skip(1).skip(1)[0] == f[2]);
                assert(f.skip(1).skip(1).skip(1)[0] == f[3]);
                lemma_lookup_hit(f, "kind"@);
                lemma_lookup_skip(f, "repository"@);
                lemma_lookup_hit(f.skip(1), "repository"@);
                lemma_lookup_skip(f, "crateName"@);
                lemma_lookup_skip(f.skip(1), "crateName"@);
                lemma_lookup_hit(f.skip(1).skip(1), "crateName"@);
                lemma_lookup_skip(f, "dryRun"@);
                lemma_lookup_skip(f.skip(1), "dryRun"@);
                lemma_lookup_skip(f.skip(1).skip(1), "dryRun"@);
                lemma_lookup_hit(f.skip(1).skip(1).skip(1), "dryRun"@);
            },
        },
        ActionV::Github { repository, inner } => match inner {
            GithubActionV::CreateReleasePR { crate_name, new_version } => {
                assert(f.skip(1)[0] == f[1]);
                assert(f.skip(1).skip(1)[0] == f[2]);
                assert(f.skip(1).skip(1).skip(1)[0] == f[3]);
                lemma_lookup_hit(f, "kind"@);
                lemma_lookup_skip(f, "repository"@);
                lemma_lookup_hit(f.skip(1), "repository"@);
                lemma_lookup_skip(f, "crateName"@);
                lemma_lookup_skip(f.skip(1), "crateName"@);
                lemma_lookup_hit(f.skip(1).skip(1), "crateName"@);
                lemma_lookup_skip(f, "newVersion"@);
                lemma_lookup_skip(f.skip(1), "newVersion"@);
                lemma_lookup_skip(f.skip(1).skip(1), "newVersion"@);
                lemma_lookup_hit(f.skip(1).skip(1).skip(1), "newVersion"@);
            },
            GithubActionV::CreateRelease { crate_name, tag, version } => {
                assert(f.skip(1)[0] == f[1]);
                assert(f.skip(1).skip(1)[0] == f[2]);
                assert(f.skip(1).skip(1).skip(1)[0] == f[3]);
                assert(f.skip(1).skip(1).skip(1).skip(1)[0] == f[4]);
                lemma_lookup_hit(f, "kind"@);
                lemma_lookup_skip(f, "repository"@);
                lemma_lookup_hit(f.skip(1), "repository"@);
                lemma_lookup_skip(f, "crateName"@);
                lemma_lookup_skip(f.skip(1), "crateName"@);
                lemma_lookup_hit(f.skip(1).skip(1), "crateName"@);
                lemma_lookup_skip(f, "tag"@);
                lemma_lookup_skip(f.skip(1), "tag"@);
                lemma_lookup_skip(f.skip(1).skip(1), "tag"@);
                lemma_lookup_hit(f.skip(1).skip(1).skip(1), "tag"@);
                lemma_lookup_skip(f, "version"@);
                lemma_lookup_skip(f.skip(1), "version"@);
                lemma_lookup_skip(f.skip(1).skip(1), "version"@);
                lemma_lookup_skip(f.skip(1).skip(1).skip(1), "version"@);
                lemma_lookup_hit(f.skip(1).skip(1).skip(1).skip(1), "version"@);
            },
        },
        ActionV::Local { repository, inner } => match inner {
            LocalActionV::AssertDefaultBranch => {
                assert(f.skip(1)[0] == f[1]);
                lemma_lookup_hit(f, "kind"@);
                lemma_lookup_skip(f, "repository"@);
                lemma_lookup_hit(f.skip(1), "repository"@);
            },
            LocalActionV::CreateTags { new_tags } => {
                assert(f.skip(1)[0] == f[1]);
                assert(f.skip(1).skip(1)[0] == f[2]);
                lemma_lookup_hit(f, "kind"@);
                lemma_lookup_skip(f, "repository"@);
                lemma_lookup_hit(f.skip(1), "repository"@);
                lemma_lookup_skip(f, "newTags"@);
                lemma_lookup_skip(f.skip(1), "newTags"@);
                lemma_lookup_hit(f.skip(1).skip(1), "newTags"@);
                lemma_strings_inverse(new_tags);
            },
            LocalActionV::PublishTags { tags, remote } => {
                assert(f.skip(1)[0] == f[1]);
                assert(f.skip(1).skip(1)[0] == f[2]);
                assert(f.skip(1).skip(1).skip(1)[0] == f[3]);
                lemma_lookup_hit(f, "kind"@);
                lemma_lookup_skip(f, "repository"@);
                lemma_lookup_hit(f.skip(1), "repository"@);
                lemma_lookup_skip(f, "tags"@);
                lemma_lookup_skip(f.skip(1), "tags"@);
                lemma_lookup_hit(f.skip(1).skip(1), "tags"@);
                lemma_strings_inverse(tags);
                lemma_lookup_skip(f, "remote"@);
                lemma_lookup_skip(f.skip(1), "remote"@);
                lemma_lookup_skip(f.skip(1).skip(1), "remote"@);
                lemma_lookup_hit(f.skip(1).skip(1).skip(1), "remote"@);
            },
        },
    }
}

/// A written item reads back as the same item.
proof fn lemma_item_inverse(it: PlanItemV)
    ensures
        spec_json_to_item(spec_item_to_json(it)) == Some(it),
{
    lemma_doc_literal_lengths();
    let f = spec_item_to_json(it)->Obj_0;
    assert(f.skip(1)[0] == f[1]);
    assert(f.skip(1).skip(1)[0] == f[2]);
    lemma_lookup_hit(f, "description"@);
    lemma_lookup_skip(f, "action"@);
    lemma_lookup_hit(f.skip(1), "action"@);
    lemma_lookup_skip(f, "continueOnError"@);
    lemma_lookup_skip(f.skip(1), "continueOnError"@);
    lemma_lookup_hit(f.skip(1).skip(1), "continueOnError"@);
    lemma_action_inverse(it.action);
}

/// Written items read back as the same items, in order.
proof fn lemma_items_inverse(items: Seq<PlanItemV>)
    ensures
        spec_json_to_items(items.map_values(|it: PlanItemV| spec_item_to_json(it))) == Some(
            items,
        ),
    decreases items.len(),
{
    let m = items.map_values(|it: PlanItemV| spec_item_to_json(it));
    if items.len() == 0 {
        assert(m.len() == 0);
        assert(spec_json_to_items(m) == Some(Seq::<PlanItemV>::empty()));
        assert(Seq::<PlanItemV>::empty() =~= items);
    } else {
        assert(m[0] == spec_item_to_json(items[0]));
        lemma_item_inverse(items[0]);
        assert(m.skip(1) =~= items.skip(1).map_values(|it: PlanItemV| spec_item_to_json(it)));
        lemma_items_inverse(items.skip(1));
        assert(seq![items[0]] + items.skip(1) =~= items);
    }
}

/// The action document value is well formed (it holds no numbers).
proof fn lemma_action_json_wf(a: ActionV)
    ensures
        crate::json::json_wf(spec_action_to_json(a)),
{
    let f = spec_action_to_json(a)->Obj_0;
    assert forall|k: int| 0 <= k < f.len() implies crate::json::json_wf(
        #[trigger] f[k].1,
    ) by {
        match a {
            ActionV::CratesIO { repository, inner } => {
                match inner {
                    CratesIOActionV::AddOwner { .. } => {},
                    CratesIOActionV::RemoveOwner { .. } => {},
                    CratesIOActionV::Publish { .. } => {},
                }
            },
            ActionV::Github { repository, inner } => {},
            ActionV::Local { repository, inner } => {
                match inner {
                    LocalActionV::AssertDefaultBranch => {},
                    LocalActionV::CreateTags { new_tags } => {
                        if k == 2 {
                            let entries = spec_strings_to_json(new_tags);
                            assert forall|m: int| 0 <= m < entries.len() implies
                                crate::json::json_wf(#[trigger] entries[m]) by {
                                assert(entries[m] == JsonV::Str(new_tags[m]));
                            }
                        }
                    },
                    LocalActionV::PublishTags { tags, remote } => {
                        if k == 2 {
                            let entries = spec_strings_to_json(tags);
                            assert forall|m: int| 0 <= m < entries.len() implies
                                crate::json::json_wf(#[trigger] entries[m]) by {
                                assert(entries[m] == JsonV::Str(tags[m]));
                            }
                        }
                    },
                }
            },
        }
    }
}

/// The plan document value is well formed.
proof fn lemma_plan_json_wf(p: PlanV)
    ensures
        crate::json::json_wf(spec_plan_to_json(p)),
{
    let m = p.items.map_values(|it: PlanItemV| spec_item_to_json(it));
    assert forall|k: int| 0 <= k < m.len() implies crate::json::json_wf(#[trigger] m[k]) by {
        assert(m[k] == spec_item_to_json(p.items[k]));
        lemma_action_json_wf(p.items[k].action);
        let f = spec_item_to_json(p.items[k])->Obj_0;
        assert forall|n: int| 0 <= n < f.len() implies crate::json::json_wf(
            #[trigger] f[n].1,
        ) by {
            if n == 0 {
                match p.items[k].description {
                    Some(d) => {
                        assert(f[0].1 == JsonV::Str(d));
                    },
                    None => {
                        assert(f[0].1 == JsonV::Null);
                    },
                }
            }
        }
        assert(crate::json::json_wf(JsonV::Obj(f)));
    }
    let f = spec_plan_to_json(p)->Obj_0;
    assert(f[0].1 == JsonV::Arr(m));
    assert(crate::json::json_wf(JsonV::Arr(m)));
    assert forall|n: int| 0 <= n < f.len() implies crate::json::json_wf(#[trigger] f[n].1) by {
        assert(f[n].1 == JsonV::Arr(m));
    }
}

/// A written plan value reads back as the same plan.
proof fn lemma_plan_json_inverse(p: PlanV)
    ensures
        spec_json_to_plan(spec_plan_to_json(p)) == Some(p),
{
    reveal_strlit("items");
    let f = spec_plan_to_json(p)->Obj_0;
    lemma_lookup_hit(f, "items"@);
    lemma_items_inverse(p.items);
}

/// The plan document round-trips without loss: decoding the encoding of
/// any representable plan yields exactly that plan.
pub proof fn lemma_plan_round_trip(p: PlanV)
    ensures
        spec_decode_plan(spec_encode_plan(p)) == Some(p),
{
    lemma_plan_json_wf(p);
    crate::json::lemma_json_round_trip(spec_plan_to_json(p));
    lemma_plan_json_inverse(p);
}



} // verus!
