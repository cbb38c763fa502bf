//! A mathematical model of JSON documents, and the few `serde_json` calls the
//! decoder makes to read one, each stated over that model.
use vstd::prelude::*;

verus! {

/// A JSON value as the decoder sees it. Numbers that `serde_json` stores as an
/// integer (signed or unsigned 64-bit) are `Int`; every other number is `Float`,
/// whose value the decoder never reads.
pub enum JsonTree {
    Null,
    Bool(bool),
    Int(int),
    Float,
    Str(Seq<char>),
    Array(Seq<JsonTree>),
    Object(Map<Seq<char>, JsonTree>),
}

/// The member stored under `key`, when `t` is an object that has one.
pub open spec fn member(t: JsonTree, key: Seq<char>) -> Option<JsonTree> {
    match t {
        JsonTree::Object(m) => if m.contains_key(key) {
            Some(m[key])
        } else {
            None
        },
        _ => None,
    }
}

/// What a `serde_json::Value` holds.
pub uninterp spec fn json_tree(v: serde_json::Value) -> JsonTree;

/// The document that `serde_json` reads from a text, or `None` when the text is
/// not a single well-formed JSON document.
pub uninterp spec fn parsed_json(s: Seq<char>) -> Option<JsonTree>;

#[verifier::external_type_specification]
#[verifier::external_body]
pub struct ExValue(serde_json::Value);

#[verifier::external_type_specification]
#[verifier::external_body]
pub struct ExJsonError(serde_json::Error);

/// Relies on `serde_json::from_str::<Value>`: it succeeds exactly on a
/// well-formed document and then holds that document.
#[verifier::external_body]
pub(crate) fn parse_json(text: &str) -> (r: Result<serde_json::Value, serde_json::Error>)
    ensures
        r is Ok <==> parsed_json(text@) is Some,
        r is Ok ==> parsed_json(text@) == Some(json_tree(r->Ok_0)),
{
    serde_json::from_str::<serde_json::Value>(text)
}

/// Relies on `Display` of `serde_json::Error`: a human-readable diagnostic.
#[verifier::external_body]
pub(crate) fn json_error_text(e: &serde_json::Error) -> (r: String) {
    e.to_string()
}

/// Relies on `Value::get` with a `&str` index: the member under that key when
/// the value is an object, `None` otherwise.
#[verifier::external_body]
pub(crate) fn field<'a>(v: &'a serde_json::Value, key: &str) -> (r: Option<&'a serde_json::Value>)
    ensures
        r is Some <==> member(json_tree(*v), key@) is Some,
        r is Some ==> member(json_tree(*v), key@) == Some(json_tree(*r->Some_0)),
{
    v.get(key)
}

pub assume_specification[ serde_json::Value::is_object ](v: &serde_json::Value) -> (r: bool)
    ensures
        r == json_tree(*v) is Object,
;

pub assume_specification[ serde_json::Value::is_null ](v: &serde_json::Value) -> (r: bool)
    ensures
        r == json_tree(*v) is Null,
;

pub assume_specification<'a>[ serde_json::Value::as_str ](v: &'a serde_json::Value) -> (r: Option<
    &'a str,
>)
    ensures
        r is Some <==> json_tree(*v) is Str,
        r is Some ==> json_tree(*v) == JsonTree::Str(r->Some_0@),
;

pub assume_specification[ serde_json::Value::as_u64 ](v: &serde_json::Value) -> (r: Option<u64>)
    ensures
        r is Some <==> (json_tree(*v) is Int && 0 <= json_tree(*v)->Int_0 <= u64::MAX),
        r is Some ==> json_tree(*v) == JsonTree::Int(r->Some_0 as int),
;

pub assume_specification[ serde_json::Value::as_i64 ](v: &serde_json::Value) -> (r: Option<i64>)
    ensures
        r is Some <==> (json_tree(*v) is Int && i64::MIN <= json_tree(*v)->Int_0 <= i64::MAX),
        r is Some ==> json_tree(*v) == JsonTree::Int(r->Some_0 as int),
;

pub assume_specification<'a>[ serde_json::Value::as_array ](v: &'a serde_json::Value) -> (r: Option<
    &'a Vec<serde_json::Value>,
>)
    ensures
        r is Some <==> json_tree(*v) is Array,
        r is Some ==> json_tree(*v) == JsonTree::Array(r->Some_0@.map_values(|x| json_tree(x))),
;

pub assume_specification[ <serde_json::Value as Clone>::clone ](v: &serde_json::Value) -> (r:
    serde_json::Value)
    ensures
        json_tree(r) == json_tree(*v),
;

} // verus!
