//! A plain document type for decoded JSON payloads, and the trusted boundary
//! that produces it from payload text.
//!
//! The library never inspects broker payload text itself: `parse_payload`
//! hands the text to `serde_json` and carries the parsed document over into
//! [`Json`], a type made of plain values that verified code can take apart.

use vstd::prelude::*;

verus! {

/// A parsed JSON document, reduced to what the command decoder reads:
/// numbers are kept only when they are unsigned 64-bit integers, everything
/// else a number can be is collapsed into [`Json::NonUInt`].
#[derive(Debug)]
pub enum Json {
    Null,
    Bool(bool),
    /// A number that is an unsigned 64-bit integer.
    UInt(u64),
    /// A number that is not an unsigned 64-bit integer (negative, fractional,
    /// or too large). The decoder rejects such values wherever it expects a
    /// channel value, an interval or a count.
    NonUInt,
    Str(String),
    Arr(Vec<Json>),
    Obj(Vec<(String, Json)>),
}

/// The document that parsing a given payload text yields, or `None` where the
/// text is not valid JSON. What this is on given text is known only to the
/// parser; the decoder's own contracts are exact from here on.
pub uninterp spec fn parse_of(text: Seq<char>) -> Option<Json>;

#[verifier::external_type_specification]
#[verifier::external_body]
pub struct ExValue(serde_json::Value);

/// Relies on `serde_json::from_str::<serde_json::Value>`: whether the text is
/// valid JSON, and which document it denotes, depend on the text alone.
/// `value_to_json` below carries the parsed value over, variant by variant.
#[verifier::external_body]
pub fn parse_payload(text: &str) -> (r: Option<Json>)
    ensures
        r == parse_of(text@),
{
    match serde_json::from_str::<serde_json::Value>(text) {
        Ok(v) => Some(value_to_json(v)),
        Err(_) => None,
    }
}

/// Helper of `parse_payload`, trusted as part of the same boundary: maps each
/// `serde_json::Value` variant onto the matching [`Json`] variant, using
/// `serde_json::Number::as_u64` to tell integer numbers apart.
#[verifier::external_body]
fn value_to_json(v: serde_json::Value) -> Json {
    match v {
        serde_json::Value::Null => Json::Null,
        serde_json::Value::Bool(b) => Json::Bool(b),
        serde_json::Value::Number(n) => match n.as_u64() {
            Some(u) => Json::UInt(u),
            None => Json::NonUInt,
        },
        serde_json::Value::String(s) => Json::Str(s),
        serde_json::Value::Array(items) => Json::Arr(items.into_iter().map(value_to_json).collect()),
        serde_json::Value::Object(members) => Json::Obj(
            members.into_iter().map(|(k, child)| (k, value_to_json(child))).collect(),
        ),
    }
}

/// The value under `key` among `fields`, taking the first binding where the
/// same key occurs more than once.
pub open spec fn lookup_spec(fields: Seq<(String, Json)>, key: Seq<char>) -> Option<Json>
    decreases fields.len(),
{
    if fields.len() == 0 {
        None
    } else if fields[0].0@ == key {
        Some(fields[0].1)
    } else {
        lookup_spec(fields.skip(1), key)
    }
}

/// Finds the value bound to `key` among the members of a JSON object.
pub fn lookup<'a>(fields: &'a Vec<(String, Json)>, key: &String) -> (r: Option<&'a Json>)
    ensures
        match r {
            Some(j) => lookup_spec(fields@, key@) == Some(*j),
            None => lookup_spec(fields@, key@) is None,
        },
{
    let n = fields.len();
    let mut i: usize = 0;
    proof {
        assert(fields@.skip(0) =~= fields@);
    }
    while i < n
        invariant
            n == fields@.len(),
            0 <= i <= n,
            lookup_spec(fields@, key@) == lookup_spec(fields@.skip(i as int), key@),
        decreases n - i,
    {
        if fields[i].0.eq(key) {
            proof {
                assert(fields@.skip(i as int)[0] == fields@[i as int]);
                assert(lookup_spec(fields@.skip(i as int), key@)
                    == Some(fields@.skip(i as int)[0].1));
            }
            return Some(&fields[i].1);
        }
        proof {
            assert(fields@.skip(i as int)[0] == fields@[i as int]);
            assert(fields@.skip(i as int).skip(1) =~= fields@.skip(i + 1));
            assert(lookup_spec(fields@.skip(i as int), key@)
                == lookup_spec(fields@.skip(i as int).skip(1), key@));
        }
        i = i + 1;
    }
    proof {
        assert(fields@.skip(n as int).len() == 0);
    }
    None
}

} // verus!
