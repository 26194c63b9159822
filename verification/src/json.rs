use vstd::prelude::*;
use crate::errors::VoiceError;
use crate::strutil::str_eq;

verus! {

/// A parsed JSON document, held as plain values so that the manifest schema
/// can be checked by verified code. A number is kept as its decimal token;
/// an object as its entries in the order the parser handed them out.
pub enum JsonValue {
    Null,
    Bool(bool),
    Num(String),
    Str(String),
    Arr(Vec<JsonValue>),
    Obj(Vec<(String, JsonValue)>),
}

/// Strict lexicographic order on strings, by character code. For text that
/// came out of UTF-8 this is the byte order `String`'s own ordering uses.
pub open spec fn str_lt(a: Seq<char>, b: Seq<char>) -> bool
    decreases a.len(),
{
    if b.len() == 0 {
        false
    } else if a.len() == 0 {
        true
    } else if a[0] != b[0] {
        (a[0] as u32) < (b[0] as u32)
    } else {
        str_lt(a.skip(1), b.skip(1))
    }
}

/// When `j` is an object, its keys are strictly increasing (so also unique).
pub open spec fn top_keys_sorted(j: JsonValue) -> bool {
    match j {
        JsonValue::Obj(es) => forall|i: int, k: int|
            0 <= i < k < es@.len() ==> str_lt(es@[i].0@, es@[k].0@),
        _ => true,
    }
}

/// What JSON text parses to, when it parses at all. The result is a function
/// of the text alone; the trusted parser below is held to this name.
pub uninterp spec fn spec_parse_json(s: Seq<char>) -> Option<JsonValue>;

#[verifier::external_type_specification]
#[verifier::external_body]
pub struct ExValue(serde_json::Value);

#[verifier::external_type_specification]
#[verifier::external_body]
pub struct ExJsonError(serde_json::Error);

/// Relies on the public variants of `serde_json::Value`: converts each to the
/// matching `JsonValue` variant, a number to its decimal token via
/// `Number::to_string`, an object through `Map::iter` (which walks the
/// entries in key order). Only `parse_json_text` below calls this.
#[verifier::external_body]
fn value_to_json(v: &serde_json::Value) -> JsonValue {
    match v {
        serde_json::Value::Null => JsonValue::Null,
        serde_json::Value::Bool(b) => JsonValue::Bool(*b),
        serde_json::Value::Number(n) => JsonValue::Num(n.to_string()),
        serde_json::Value::String(s) => JsonValue::Str(s.clone()),
        serde_json::Value::Array(a) => JsonValue::Arr(a.iter().map(value_to_json).collect()),
        serde_json::Value::Object(o) => JsonValue::Obj(
            o.iter().map(|(k, x)| (k.clone(), value_to_json(x))).collect(),
        ),
    }
}

/// Relies on `serde_json::from_str::<Value>`: parsing is a function of the
/// text alone, and fails exactly when the text is not well-formed JSON; and
/// on `serde_json::Map` being backed by a `BTreeMap` keyed by `String`, so a
/// parsed object's keys come out strictly increasing and unique.
#[verifier::external_body]
fn parse_json_text(s: &str) -> (r: Result<JsonValue, serde_json::Error>)
    ensures
        r is Ok <==> spec_parse_json(s@) is Some,
        r is Ok ==> Some(r->Ok_0) == spec_parse_json(s@) && top_keys_sorted(r->Ok_0),
{
    serde_json::from_str::<serde_json::Value>(s).map(|v| value_to_json(&v))
}

/// Relies on `serde_json::Error`'s `Display` rendering: one line of text
/// describing the parse failure. Nothing is claimed of its content.
#[verifier::external_body]
fn json_error_text(e: &serde_json::Error) -> String {
    e.to_string()
}

/// Parses manifest text into the JSON model, turning a parse failure into
/// this library's `Decode` error.
pub fn parse_manifest_text(text: &str) -> (r: Result<JsonValue, VoiceError>)
    ensures
        r is Ok <==> spec_parse_json(text@) is Some,
        r is Ok ==> Some(r->Ok_0) == spec_parse_json(text@) && top_keys_sorted(r->Ok_0),
        r is Err ==> r->Err_0 is Decode,
{
    match parse_json_text(text) {
        Ok(j) => Ok(j),
        Err(e) => Err(VoiceError::Decode(json_error_text(&e))),
    }
}

/// The value under key `k`, searching the entries front to back.
pub open spec fn lookup(es: Seq<(String, JsonValue)>, k: Seq<char>) -> Option<JsonValue>
    decreases es.len(),
{
    if es.len() == 0 {
        None
    } else if es[0].0@ == k {
        Some(es[0].1)
    } else {
        lookup(es.skip(1), k)
    }
}

/// When no earlier entry shares the key of entry `i`, the lookup of that key
/// finds entry `i`.
pub proof fn lemma_lookup_at(es: Seq<(String, JsonValue)>, i: int)
    requires
        0 <= i < es.len(),
        forall|j: int| 0 <= j < i ==> es[j].0@ != es[i].0@,
    ensures
        lookup(es, es[i].0@) == Some(es[i].1),
    decreases i,
{
    if i > 0 {
        let t = es.skip(1);
        assert(forall|j: int| 0 <= j < i - 1 ==> t[j] == es[j + 1] && t[j].0@ != es[i].0@);
        assert(t[i - 1] == es[i]);
        lemma_lookup_at(t, i - 1);
    }
}

/// Looks a key up among an object's entries.
pub fn get_field<'a>(es: &'a Vec<(String, JsonValue)>, k: &str) -> (r: Option<&'a JsonValue>)
    ensures
        match r {
            Some(v) => lookup(es@, k@) == Some(*v),
            None => lookup(es@, k@) is None,
        },
{
    let mut i: usize = 0;
    proof {
        assert(es@.skip(0) =~= es@);
    }
    while i < es.len()
        invariant
            i <= es@.len(),
            lookup(es@, k@) == lookup(es@.skip(i as int), k@),
        decreases es@.len() - i,
    {
        proof {
            assert(es@.skip(i as int)[0] == es@[i as int]);
        }
        if str_eq(es[i].0.as_str(), k) {
            return Some(&es[i].1);
        }
        proof {
            assert(es@.skip(i as int).skip(1) =~= es@.skip(i + 1));
        }
        i += 1;
    }
    proof {
        assert(es@.skip(i as int).len() == 0);
    }
    None
}

} // verus!
