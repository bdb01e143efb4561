//! JSON documents as the tools print them (`pw-dump`, `makoctl -j`): a
//! plain tree of what the applets read, the parse behind serde_json, and
//! member lookup with the semantics of indexing a `serde_json::Value`.
use vstd::prelude::*;
use crate::text::text_eq;

verus! {

/// A JSON value.
#[derive(Debug)]
pub enum Json {
    Null,
    Bool(bool),
    /// A number: `Some` with its value where it is an integer that fits in
    /// a `u64`, `None` for any other number.
    Number(Option<u64>),
    Text(String),
    Array(Vec<Json>),
    /// An object's members, in the order the parser hands them out.
    Object(Vec<(String, Json)>),
}

#[verifier::external_type_specification]
#[verifier::external_body]
pub struct ExJsonValue(serde_json::Value);

/// The document serde_json reads from `bytes`, if it reads one.
pub uninterp spec fn json_document(bytes: Seq<u8>) -> Option<Json>;

/// `serde_json::from_slice::<serde_json::Value>`: reads one JSON document
/// from the bytes, `None` where serde_json refuses them. The contract
/// only names the result; what serde_json accepts is not restated here.
#[verifier::external_body]
pub(crate) fn parse_json(bytes: &[u8]) -> (r: Option<Json>)
    ensures
        r == json_document(bytes@),
{
    match serde_json::from_slice::<serde_json::Value>(bytes) {
        Ok(v) => Some(json_from_value(v)),
        Err(_) => None,
    }
}

/// The conversion half of [`parse_json`]: turns the `serde_json::Value`
/// it read into a [`Json`], variant by variant and member by member (a
/// tree needs a recursive function); a number keeps what
/// `serde_json::Number::as_u64` gives of it. Nothing is stated of it: what
/// it gives is part of the document [`json_document`] names.
#[verifier::external_body]
fn json_from_value(v: serde_json::Value) -> Json {
    match v {
        serde_json::Value::Null => Json::Null,
        serde_json::Value::Bool(b) => Json::Bool(b),
        serde_json::Value::Number(n) => Json::Number(n.as_u64()),
        serde_json::Value::String(s) => Json::Text(s),
        serde_json::Value::Array(a) => Json::Array(a.into_iter().map(json_from_value).collect()),
        serde_json::Value::Object(m) => Json::Object(
            m.into_iter().map(|(k, x)| (k, json_from_value(x))).collect(),
        ),
    }
}

/// The value of the first member named `key` among `members`.
pub open spec fn member_among(members: Seq<(String, Json)>, key: Seq<char>) -> Option<Json>
    decreases members.len(),
{
    if members.len() == 0 {
        None
    } else if members[0].0@ == key {
        Some(members[0].1)
    } else {
        member_among(members.drop_first(), key)
    }
}

/// The member `key` of `v`, where `v` is an object that has one.
pub open spec fn member_of(v: Json, key: Seq<char>) -> Option<Json> {
    match v {
        Json::Object(members) => member_among(members@, key),
        _ => None,
    }
}

/// [`member_of`] through a value that may be missing.
pub open spec fn member_in(v: Option<Json>, key: Seq<char>) -> Option<Json> {
    match v {
        Some(j) => member_of(j, key),
        None => None,
    }
}

/// The string a value is, if it is one.
pub open spec fn text_in(v: Option<Json>) -> Option<String> {
    match v {
        Some(Json::Text(s)) => Some(s),
        _ => None,
    }
}

/// The unsigned integer a value is, if it is one.
pub open spec fn unsigned_in(v: Option<Json>) -> Option<u64> {
    match v {
        Some(Json::Number(n)) => n,
        _ => None,
    }
}

pub open spec fn deref_json(v: Option<&Json>) -> Option<Json> {
    match v {
        Some(j) => Some(*j),
        None => None,
    }
}

/// Looks `key` up in `v`, as `value[key]` does on a `serde_json::Value`
/// (a missing value stands for JSON's `null`).
pub fn member<'a>(v: Option<&'a Json>, key: &str) -> (r: Option<&'a Json>)
    ensures
        deref_json(r) == member_in(deref_json(v), key@),
{
    let j: &Json = match v {
        Some(j) => j,
        None => {
            return None;
        },
    };
    let members: &Vec<(String, Json)> = match j {
        Json::Object(members) => members,
        _ => {
            return None;
        },
    };
    let mut i: usize = 0;
    proof {
        assert(members@.skip(0) =~= members@);
    }
    while i < members.len()
        invariant
            i <= members.len(),
            deref_json(v) == Some(Json::Object(*members)),
            member_among(members@, key@) == member_among(members@.skip(i as int), key@),
        decreases members.len() - i,
    {
        if text_eq(members[i].0.as_str(), key) {
            proof {
                assert(members@.skip(i as int)[0] == members@[i as int]);
            }
            return Some(&members[i].1);
        }
        proof {
            assert(members@.skip(i as int).drop_first() =~= members@.skip(i + 1));
        }
        i = i + 1;
    }
    None
}

/// The string `v` is, as `as_str` gives it.
pub fn text_value(v: Option<&Json>) -> (r: Option<String>)
    ensures
        r == text_in(deref_json(v)),
{
    match v {
        Some(Json::Text(s)) => Some(s.clone()),
        _ => None,
    }
}

/// The unsigned integer `v` is, as `as_u64` gives it.
pub fn unsigned_value(v: Option<&Json>) -> (r: Option<u64>)
    ensures
        r == unsigned_in(deref_json(v)),
{
    match v {
        Some(Json::Number(n)) => *n,
        _ => None,
    }
}

} // verus!
