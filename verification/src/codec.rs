use vstd::prelude::*;

use crate::value::depth_of;
use crate::value::StoreValue;
use crate::value::ValueModel;

verus! {

/// `serde_json::Value`, the structural encoding's own value type; opaque
/// here, it only passes between the embedding helpers and the codec
/// wrappers below.
#[verifier::external_type_specification]
#[verifier::external_body]
pub struct ExSerdeValue(serde_json::Value);

/// The text that the structural encoding produces for a value. It is a
/// function of the value alone — two puts of one value write the same
/// text — but not of its content alone: the encoder may keep a map's
/// entries in the order the value holds them.
pub uninterp spec fn json_text_of(v: StoreValue) -> Seq<char>;

/// The content that the structural decoding reads out of a text: `None`
/// where the text is not a well-formed encoding of a `StoreValue` (ill-formed
/// syntax, a number outside the integers, or containers nested past the
/// decoder's recursion limit).
pub uninterp spec fn json_value_of(s: Seq<char>) -> Option<ValueModel>;

/// A value whose containers nest within the structural decoder's recursion
/// limit: the decoder refuses a text at the 128th nested container, so only
/// a value below that depth is owed a decode of its own encoding.
pub open spec fn within_decode_depth(v: StoreValue) -> bool {
    depth_of(v) < 128
}

/// The structural embedding of `StoreValue` into `serde_json::Value`, used only
/// by the two codec wrappers below. A map's entries are inserted in order,
/// so a repeated key keeps its last entry, exactly as `entries_content`
/// reads a map.
#[verifier::external_body]
fn to_serde(v: &StoreValue) -> serde_json::Value {
    match v {
        StoreValue::Null => serde_json::Value::Null,
        StoreValue::Bool(b) => serde_json::Value::Bool(*b),
        StoreValue::Int(i) => serde_json::Value::Number(serde_json::Number::from(*i)),
        StoreValue::Text(s) => serde_json::Value::String(s.clone()),
        StoreValue::Array(a) => serde_json::Value::Array(a.iter().map(to_serde).collect()),
        StoreValue::Object(m) => serde_json::Value::Object(
            m.iter().map(|e| (e.0.clone(), to_serde(&e.1))).collect(),
        ),
    }
}

/// The reading back out of `serde_json::Value`, used only by
/// `decode_value` below: a value whose numbers all fit in `i64` comes back
/// as a `StoreValue`; one holding any other number is refused.
#[verifier::external_body]
fn from_serde(j: &serde_json::Value) -> Option<StoreValue> {
    match j {
        serde_json::Value::Null => Some(StoreValue::Null),
        serde_json::Value::Bool(b) => Some(StoreValue::Bool(*b)),
        serde_json::Value::Number(n) => Some(StoreValue::Int(n.as_i64()?)),
        serde_json::Value::String(s) => Some(StoreValue::Text(s.clone())),
        serde_json::Value::Array(a) => Some(StoreValue::Array(
            a.iter().map(from_serde).collect::<Option<Vec<StoreValue>>>()?,
        )),
        serde_json::Value::Object(m) => Some(StoreValue::Object(
            m.iter().map(|e| Some((e.0.clone(), from_serde(e.1)?))).collect::<Option<
                Vec<(String, StoreValue)>,
            >>()?,
        )),
    }
}

/// Relies on `serde_json::Value`'s `to_string` (through the structural
/// embedding `to_serde`): the text depends on the value alone, and — for a
/// value within the decoder's nesting limit — `serde_json::from_str` reads
/// the value's content back out of it. The serializer itself has no depth
/// guard, so past that limit the text is still produced, but the decoder
/// refuses it.
#[verifier::external_body]
pub fn encode_value(v: &StoreValue) -> (r: String)
    ensures
        r@ == json_text_of(*v),
        within_decode_depth(*v) ==> json_value_of(r@) == Some(v@),
{
    to_serde(v).to_string()
}

/// Relies on `serde_json::from_str` (through the reading `from_serde`):
/// what it parses out of a text depends on the text alone.
#[verifier::external_body]
pub fn decode_value(s: &str) -> (r: Option<StoreValue>)
    ensures
        match r {
            Some(v) => json_value_of(s@) == Some(v@),
            None => json_value_of(s@) is None,
        },
{
    match serde_json::from_str::<serde_json::Value>(s) {
        Ok(j) => from_serde(&j),
        Err(_) => None,
    }
}

} // verus!
