//! JSON access, through serde_json, with a mathematical model.
//!
//! `JVal` is the plain-value shape of a parsed JSON document.  What
//! serde_json's parser returns for a given text is a function of the
//! text alone, so it is captured by the uninterpreted name `json_of`;
//! the tree inside one opaque `serde_json::Value` is named by
//! `jmodel`.  Each wrapper's contract ties the call's result to these
//! names, so the verified parsers above can say exactly which values a
//! line denotes.

use vstd::prelude::*;

verus! {

use vstd::string::StringSliceAdditionalSpecFns;

#[verifier::external_type_specification]
#[verifier::external_body]
pub struct ExValue(serde_json::Value);

/// The plain-value model of a JSON document: an object's members keyed
/// by their text (duplicates already resolved by the parser), numbers
/// split into those that are non-negative integers fitting 64 bits and
/// all others.
pub enum JVal {
    Null,
    Bool(bool),
    UInt(u64),
    OtherNum,
    Str(Seq<char>),
    Arr(Seq<JVal>),
    Obj(Map<Seq<char>, JVal>),
}

/// What serde_json's parser makes of a text: `None` exactly when the
/// bytes are not one well-formed JSON document.
pub uninterp spec fn json_of(s: Seq<u8>) -> Option<JVal>;

/// The tree a parsed value holds.
pub uninterp spec fn jmodel(v: serde_json::Value) -> JVal;

/// Relies on `serde_json::from_str`: parses the whole text or fails,
/// deterministically in the text.
#[verifier::external_body]
pub fn json_parse_str(s: &str) -> (r: Option<serde_json::Value>)
    ensures
        r is Some <==> json_of(s.spec_bytes()) is Some,
        r is Some ==> json_of(s.spec_bytes()) == Some(jmodel(r->0)),
{
    serde_json::from_str(s).ok()
}

/// Relies on `Value::get` with a string key: the member of that name
/// in an object, `None` elsewhere.
#[verifier::external_body]
pub fn json_get<'a>(v: &'a serde_json::Value, key: &str) -> (r: Option<&'a serde_json::Value>)
    ensures
        r is Some <==> (jmodel(*v) is Obj && jmodel(*v)->Obj_0.contains_key(key@)),
        r is Some ==> jmodel(*r->0) == jmodel(*v)->Obj_0[key@],
{
    v.get(key)
}

/// Relies on `Value::get` with a numeric key: the `i`-th element of an
/// array, `None` elsewhere.
#[verifier::external_body]
pub fn json_index<'a>(v: &'a serde_json::Value, i: usize) -> (r: Option<&'a serde_json::Value>)
    ensures
        r is Some <==> (jmodel(*v) is Arr && i < jmodel(*v)->Arr_0.len()),
        r is Some ==> jmodel(*r->0) == jmodel(*v)->Arr_0[i as int],
{
    v.get(i)
}

/// Relies on `Value::as_array`: the length of an array value.
#[verifier::external_body]
pub fn json_array_len(v: &serde_json::Value) -> (r: Option<usize>)
    ensures
        r is Some <==> jmodel(*v) is Arr,
        r is Some ==> r->0 == jmodel(*v)->Arr_0.len(),
{
    v.as_array().map(|a| a.len())
}

/// Relies on `Value::as_u64`: the value of a number that is a
/// non-negative integer fitting 64 bits, `None` for every other value.
#[verifier::external_body]
pub fn json_as_u64(v: &serde_json::Value) -> (r: Option<u64>)
    ensures
        r is Some <==> jmodel(*v) is UInt,
        r is Some ==> jmodel(*v) == JVal::UInt(r->0),
{
    v.as_u64()
}

/// Relies on `Value::as_str`: the contents of a string value.
#[verifier::external_body]
pub fn json_as_string(v: &serde_json::Value) -> (r: Option<String>)
    ensures
        r is Some <==> jmodel(*v) is Str,
        r is Some ==> jmodel(*v) == JVal::Str(r->0@),
{
    v.as_str().map(|s| s.to_owned())
}

} // verus!
