//! Reading JSON texts: whether a text parses, and the values at JSON pointers,
//! as `serde_json` finds them.
use vstd::prelude::*;
use vstd::string::*;

verus! {

/// The bytes `text` parse as one JSON value (`serde_json::from_slice`).
pub uninterp spec fn json_parses(text: Seq<u8>) -> bool;

/// The parsed text has a value at the JSON pointer `pointer`
/// (`Value::pointer`); false when the text does not parse.
pub uninterp spec fn json_present_at(text: Seq<u8>, pointer: Seq<char>) -> bool;

/// The value at `pointer` when it is an integer that fits `u64`
/// (`Value::as_u64`); `None` when absent or the text does not parse.
pub uninterp spec fn json_unsigned_at(text: Seq<u8>, pointer: Seq<char>) -> Option<u64>;

/// The value at `pointer` when it is a string (`Value::as_str`); `None` when
/// absent or the text does not parse.
pub uninterp spec fn json_text_at(text: Seq<u8>, pointer: Seq<char>) -> Option<Seq<char>>;

/// The value at `pointer` when it is a boolean (`Value::as_bool`); `None` when
/// absent or the text does not parse.
pub uninterp spec fn json_bool_at(text: Seq<u8>, pointer: Seq<char>) -> Option<bool>;

/// The values of the object at `pointer`, in the map's order, each
/// `Some(text)` when it is a string; `None` when the text does not parse or no
/// object is there.
pub uninterp spec fn json_values_at(text: Seq<u8>, pointer: Seq<char>) -> Option<Seq<Option<Seq<char>>>>;

/// The texts of a list of optional strings.
pub open spec fn names_view(v: Seq<Option<String>>) -> Seq<Option<Seq<char>>> {
    v.map_values(
        |o: Option<String>|
            match o {
                Some(s) => Some(s@),
                None => None,
            },
    )
}

/// Calls `serde_json::from_slice` into a `Value`: whether `text` parses.
#[verifier::external_body]
pub(crate) fn parses(text: &[u8]) -> (r: bool)
    ensures
        r == json_parses(text@),
{
    serde_json::from_slice::<serde_json::Value>(text).is_ok()
}

/// Calls `serde_json::from_slice`, then `Value::pointer`: whether a value is at
/// `pointer`.
#[verifier::external_body]
pub(crate) fn present_at(text: &[u8], pointer: &str) -> (r: bool)
    ensures
        r == json_present_at(text@, pointer@),
{
    match serde_json::from_slice::<serde_json::Value>(text) {
        Ok(v) => v.pointer(pointer).is_some(),
        Err(_) => false,
    }
}

/// Calls `serde_json::from_slice`, `Value::pointer`, then `Value::as_u64`.
#[verifier::external_body]
pub(crate) fn unsigned_at(text: &[u8], pointer: &str) -> (r: Option<u64>)
    ensures
        r == json_unsigned_at(text@, pointer@),
{
    match serde_json::from_slice::<serde_json::Value>(text) {
        Ok(v) => v.pointer(pointer).and_then(serde_json::Value::as_u64),
        Err(_) => None,
    }
}

/// Calls `serde_json::from_slice`, `Value::pointer`, then `Value::as_str`.
#[verifier::external_body]
pub(crate) fn text_at(text: &[u8], pointer: &str) -> (r: Option<String>)
    ensures
        match r {
            Some(s) => json_text_at(text@, pointer@) == Some(s@),
            None => json_text_at(text@, pointer@) is None,
        },
{
    match serde_json::from_slice::<serde_json::Value>(text) {
        Ok(v) => v.pointer(pointer).and_then(serde_json::Value::as_str).map(String::from),
        Err(_) => None,
    }
}

/// Calls `serde_json::from_slice`, `Value::pointer`, then `Value::as_bool`.
#[verifier::external_body]
pub(crate) fn bool_at(text: &[u8], pointer: &str) -> (r: Option<bool>)
    ensures
        r == json_bool_at(text@, pointer@),
{
    match serde_json::from_slice::<serde_json::Value>(text) {
        Ok(v) => v.pointer(pointer).and_then(serde_json::Value::as_bool),
        Err(_) => None,
    }
}

/// Calls `serde_json::from_slice`, `Value::pointer`, then reads the object's
/// values with `Value::as_str`.
#[verifier::external_body]
pub(crate) fn values_at(text: &[u8], pointer: &str) -> (r: Option<Vec<Option<String>>>)
    ensures
        match r {
            Some(v) => json_values_at(text@, pointer@) == Some(names_view(v@)),
            None => json_values_at(text@, pointer@) is None,
        },
{
    match serde_json::from_slice::<serde_json::Value>(text) {
        Ok(v) => match v.pointer(pointer) {
            Some(serde_json::Value::Object(map)) => Some(map.values().map(|x| x.as_str().map(String::from)).collect()),
            _ => None,
        },
        Err(_) => None,
    }
}

} // verus!
