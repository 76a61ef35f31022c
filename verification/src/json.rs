//! JSON values of the `serde_json` crate, carried through the library as
//! they are, and the few reads of them that the library makes.
use vstd::prelude::*;

use serde_json::Value;

verus! {

/// `serde_json::Value`, opaque to the proofs.
#[verifier::external_type_specification]
#[verifier::external_body]
pub struct ExJsonValue(Value);

/// `serde_json::Value::clone`, which the crate derives: the copy is the
/// same JSON value.
pub assume_specification[ <Value as Clone>::clone ](v: &Value) -> (r: Value)
    ensures
        r == *v,
;

/// Whether `payload` is one JSON text, as `serde_json::from_slice` reads
/// it into a `Value`.
pub uninterp spec fn json_parses(payload: Seq<u8>) -> bool;

/// `serde_json::from_slice::<Value>`: the value where the bytes are JSON.
/// Whether they are depends on the bytes alone; which value comes out is
/// not stated, since `Value` is opaque here.
#[verifier::external_body]
pub(crate) fn parse_json(payload: &[u8]) -> (r: Option<Value>)
    ensures
        r is Some <==> json_parses(payload@),
{
    serde_json::from_slice::<Value>(payload).ok()
}

/// `serde_json::Value::get` with a string key: the member of an object.
/// Nothing is stated of the result, since `Value` is opaque here.
#[verifier::external_body]
pub(crate) fn json_member<'a>(v: &'a Value, key: &str) -> (r: Option<&'a Value>) {
    v.get(key)
}

/// `serde_json::Value::as_str`: the text of a JSON string, copied.
/// Nothing is stated of the result, since `Value` is opaque here.
#[verifier::external_body]
pub(crate) fn json_text(v: &Value) -> (r: Option<String>) {
    v.as_str().map(String::from)
}

} // verus!
