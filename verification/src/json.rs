//! JSON documents as the library reads them.
//!
//! Text is parsed by `serde_json`; the parsed tree is carried as a [`Json`]
//! value, over which the lookups that the application makes are verified.
use vstd::prelude::*;

use crate::text::str_eq;

verus! {

/// A parsed JSON value.
///
/// A number keeps its value as a `u64` where it is one (`Value::as_u64`) and
/// its text; an object keeps its members in the order of its keys, each key
/// once, as `serde_json::Map` holds them.
pub enum Json {
    Null,
    Bool(bool),
    Number(Option<u64>, String),
    Str(String),
    Array(Vec<Json>),
    Object(Vec<(String, Json)>),
}

#[verifier::external_type_specification]
#[verifier::external_body]
pub struct ExJsonValue(serde_json::Value);

/// What `serde_json::from_str::<serde_json::Value>` gives for a text, as a [`Json`]
/// value (`None` where it reports an error).
pub uninterp spec fn json_parse(text: Seq<char>) -> Option<Json>;

/// Parses `text` with `serde_json::from_str::<serde_json::Value>`; the result is
/// the named parse of the text.
#[verifier::external_body]
pub(crate) fn parse_json(text: &str) -> (r: Option<Json>)
    ensures
        r == json_parse(text@),
{
    serde_json::from_str::<serde_json::Value>(text).ok().map(json_of_value)
}

/// Rebuilds a `serde_json::Value` as a [`Json`], variant by variant, moving
/// the fields (a number keeps `Number::as_u64` and its `Display` text): the
/// conversion that `parse_json` applies to the parsed tree, recursive for
/// arrays and objects. It promises nothing beyond what `parse_json` states.
#[verifier::external_body]
fn json_of_value(v: serde_json::Value) -> Json {
    match v {
        serde_json::Value::Null => Json::Null,
        serde_json::Value::Bool(b) => Json::Bool(b),
        serde_json::Value::Number(n) => Json::Number(n.as_u64(), n.to_string()),
        serde_json::Value::String(s) => Json::Str(s),
        serde_json::Value::Array(a) => Json::Array(a.into_iter().map(json_of_value).collect()),
        serde_json::Value::Object(m) => Json::Object(
            m.into_iter().map(|(k, x)| (k, json_of_value(x))).collect(),
        ),
    }
}

/// The value of the first member named `key`.
pub open spec fn lookup(members: Seq<(String, Json)>, key: Seq<char>) -> Option<Json>
    decreases members.len(),
{
    if members.len() == 0 {
        None
    } else if members[0].0@ == key {
        Some(members[0].1)
    } else {
        lookup(members.drop_first(), key)
    }
}

/// `v.get(key)`: the member `key` of an object, `None` for anything else.
pub open spec fn field(v: Json, key: Seq<char>) -> Option<Json> {
    match v {
        Json::Object(m) => lookup(m@, key),
        _ => None,
    }
}

/// `as_str` of a value that may be missing (a missing value reads as `null`).
pub open spec fn str_of(v: Option<Json>) -> Option<Seq<char>> {
    match v {
        Some(Json::Str(s)) => Some(s@),
        _ => None,
    }
}

pub open spec fn u64_of(v: Option<Json>) -> Option<u64> {
    match v {
        Some(Json::Number(n, _)) => n,
        _ => None,
    }
}

pub open spec fn bool_of(v: Option<Json>) -> Option<bool> {
    match v {
        Some(Json::Bool(b)) => Some(b),
        _ => None,
    }
}

pub open spec fn array_of(v: Option<Json>) -> Option<Seq<Json>> {
    match v {
        Some(Json::Array(a)) => Some(a@),
        _ => None,
    }
}

/// The text of a number, for the caller that reads it as a float.
pub open spec fn number_text_of(v: Option<Json>) -> Option<Seq<char>> {
    match v {
        Some(Json::Number(_, t)) => Some(t@),
        _ => None,
    }
}

pub open spec fn opt_ref(r: Option<&Json>) -> Option<Json> {
    match r {
        Some(x) => Some(*x),
        None => None,
    }
}

impl Json {
    /// `v.get(key)` (and `v[key]`, where a missing member reads as `null`).
    pub fn get(&self, key: &str) -> (r: Option<&Json>)
        ensures
            opt_ref(r) == field(*self, key@),
    {
        match self {
            Json::Object(m) => {
                let mut i: usize = 0;
                assert(m@.skip(0) =~= m@);
                while i < m.len()
                    invariant
                        i <= m.len(),
                        field(*self, key@) == lookup(m@, key@),
                        lookup(m@.skip(i as int), key@) == lookup(m@, key@),
                    decreases m.len() - i,
                {
                    assert(m@.skip(i as int).drop_first() =~= m@.skip(i + 1));
                    assert(m@.skip(i as int)[0] == m@[i as int]);
                    if str_eq(m[i].0.as_str(), key) {
                        assert(lookup(m@.skip(i as int), key@) == Some(m@[i as int].1));
                        return Some(&m[i].1);
                    }
                    i = i + 1;
                }
                None
            },
            _ => None,
        }
    }

    pub fn as_str(&self) -> (r: Option<&String>)
        ensures
            match r {
                Some(s) => str_of(Some(*self)) == Some(s@),
                None => str_of(Some(*self)) is None,
            },
    {
        match self {
            Json::Str(s) => Some(s),
            _ => None,
        }
    }

    pub fn as_u64(&self) -> (r: Option<u64>)
        ensures
            r == u64_of(Some(*self)),
    {
        match self {
            Json::Number(n, _) => *n,
            _ => None,
        }
    }

    pub fn as_bool(&self) -> (r: Option<bool>)
        ensures
            r == bool_of(Some(*self)),
    {
        match self {
            Json::Bool(b) => Some(*b),
            _ => None,
        }
    }

    pub fn as_array(&self) -> (r: Option<&Vec<Json>>)
        ensures
            match r {
                Some(a) => array_of(Some(*self)) == Some(a@),
                None => array_of(Some(*self)) is None,
            },
    {
        match self {
            Json::Array(a) => Some(a),
            _ => None,
        }
    }

    pub fn number_text(&self) -> (r: Option<&String>)
        ensures
            match r {
                Some(s) => number_text_of(Some(*self)) == Some(s@),
                None => number_text_of(Some(*self)) is None,
            },
    {
        match self {
            Json::Number(_, t) => Some(t),
            _ => None,
        }
    }
}

/// `v[key].as_str()` where `v` may itself be missing.
pub fn field_str(v: Option<&Json>, key: &str) -> (r: Option<String>)
    ensures
        match r {
            Some(s) => str_of(field_or_none(opt_ref(v), key@)) == Some(s@),
            None => str_of(field_or_none(opt_ref(v), key@)) is None,
        },
{
    match v {
        Some(j) => match j.get(key) {
            Some(x) => match x.as_str() {
                Some(s) => Some(s.clone()),
                None => None,
            },
            None => None,
        },
        None => None,
    }
}

pub open spec fn field_or_none(v: Option<Json>, key: Seq<char>) -> Option<Json> {
    match v {
        Some(j) => field(j, key),
        None => None,
    }
}

} // verus!
