use vstd::prelude::*;
use crate::error::WeatherError;

verus! {

/// JSON values as the decoding model reads them. A number keeps the exact
/// decimal text the wire carried (serde_json's arbitrary-precision number
/// representation), so no precision is lost before a field is actually
/// needed.
#[derive(Debug)]
pub enum JsonValue {
    Null,
    Bool(bool),
    Number(String),
    Text(String),
    Array(Vec<JsonValue>),
    Object(Vec<(String, JsonValue)>),
}

#[verifier::external_type_specification]
#[verifier::external_body]
pub struct ExValue(serde_json::Value);

#[verifier::external_type_specification]
#[verifier::external_body]
pub struct ExNumber(serde_json::Number);

/// Relies on serde_json::Value::is_null: tells a JSON null apart from the
/// other kinds of value.
pub assume_specification[ serde_json::Value::is_null ](v: &serde_json::Value) -> bool;

/// Relies on serde_json::Value::as_bool: the boolean when the value is one.
pub assume_specification[ serde_json::Value::as_bool ](v: &serde_json::Value) -> Option<bool>;

/// Relies on serde_json::Value::as_str: the text when the value is a string.
pub assume_specification<'a>[ serde_json::Value::as_str ](
    v: &'a serde_json::Value,
) -> Option<&'a str>;

/// Relies on serde_json::Value::as_number: the number when the value is one.
pub assume_specification<'a>[ serde_json::Value::as_number ](
    v: &'a serde_json::Value,
) -> Option<&'a serde_json::Number>;

/// Relies on serde_json::Value::as_array: the items when the value is an
/// array.
pub assume_specification<'a>[ serde_json::Value::as_array ](
    v: &'a serde_json::Value,
) -> Option<&'a Vec<serde_json::Value>>;

/// Relies on serde_json::Number's Display implementation: with the
/// arbitrary-precision representation, exactly the number text the parser
/// read from the wire.
#[verifier::external_body]
fn number_text(n: &serde_json::Number) -> String {
    n.to_string()
}

/// Relies on serde_json::Value::as_object: the object's entries, in the
/// map's own order, when the value is an object.
#[verifier::external_body]
fn object_entries(v: &serde_json::Value) -> Option<Vec<(String, serde_json::Value)>> {
    v.as_object().map(|m| m.iter().map(|(k, x)| (k.clone(), x.clone())).collect())
}

/// Rebuilds a parsed JSON tree as the library's own `JsonValue`, descending
/// at most `depth` levels; a deeper tree yields `None`.
#[verifier::loop_isolation(false)]
fn to_json_value(v: &serde_json::Value, depth: u32) -> (r: Option<JsonValue>)
    decreases depth,
{
    if v.is_null() {
        return Some(JsonValue::Null);
    }
    match v.as_bool() {
        Some(b) => {
            return Some(JsonValue::Bool(b));
        },
        None => {},
    }
    match v.as_str() {
        Some(t) => {
            return Some(JsonValue::Text(t.to_owned()));
        },
        None => {},
    }
    match v.as_number() {
        Some(n) => {
            return Some(JsonValue::Number(number_text(n)));
        },
        None => {},
    }
    if depth == 0 {
        return None;
    }
    match v.as_array() {
        Some(items) => {
            let mut out: Vec<JsonValue> = Vec::new();
            let mut i: usize = 0;
            while i < items.len()
                decreases items.len() - i,
            {
                match to_json_value(&items[i], depth - 1) {
                    Some(j) => {
                        out.push(j);
                    },
                    None => {
                        return None;
                    },
                }
                i = i + 1;
            }
            return Some(JsonValue::Array(out));
        },
        None => {},
    }
    match object_entries(v) {
        Some(entries) => {
            let mut out: Vec<(String, JsonValue)> = Vec::new();
            let mut i: usize = 0;
            while i < entries.len()
                decreases entries.len() - i,
            {
                match to_json_value(&entries[i].1, depth - 1) {
                    Some(j) => {
                        out.push((entries[i].0.clone(), j));
                    },
                    None => {
                        return None;
                    },
                }
                i = i + 1;
            }
            return Some(JsonValue::Object(out));
        },
        None => {},
    }
    None
}

/// What parsing a response body into the library's JSON model yields:
/// `None` exactly for text that is not valid JSON or that nests deeper than
/// the model follows. The result is a function of the text alone:
/// serde_json holds objects in an ordered map and keeps each number's text,
/// so no iteration order, chance or environment enters.
pub uninterp spec fn spec_parse_json(s: Seq<char>) -> Option<JsonValue>;

/// Relies on serde_json::from_str: parses JSON text by the JSON grammar
/// into a value tree, failing exactly on text that is not valid JSON (or
/// nests beyond the recursion limit); the tree's image in the library's
/// model, built by the accessors above, is the named `spec_parse_json`.
#[verifier::external_body]
fn parse_json_text(s: &str) -> (r: Option<JsonValue>)
    ensures
        r == spec_parse_json(s@),
{
    match serde_json::from_str::<serde_json::Value>(s) {
        Ok(v) => to_json_value(&v, 128),
        Err(_) => None,
    }
}

/// Parses a response body into the library's JSON model. Text that is not
/// valid JSON, or that nests deeper than the model follows, is a `Decode`
/// failure; every other body yields its parsed value.
pub fn parse_json(body: &str) -> (r: Result<JsonValue, WeatherError>)
    ensures
        r == (match spec_parse_json(body@) {
            Some(j) => Ok::<JsonValue, WeatherError>(j),
            None => Err::<JsonValue, WeatherError>(WeatherError::Decode),
        }),
{
    match parse_json_text(body) {
        Some(j) => Ok(j),
        None => Err(WeatherError::Decode),
    }
}

/// The value under the first entry named `key`, if any.
pub open spec fn spec_lookup(es: Seq<(String, JsonValue)>, key: Seq<char>) -> Option<JsonValue>
    decreases es.len(),
{
    if es.len() == 0 {
        None
    } else if es[0].0@ == key {
        Some(es[0].1)
    } else {
        spec_lookup(es.drop_first(), key)
    }
}

/// Looking a key up never sees entries under other keys: appending such an
/// entry leaves the result unchanged. This is why unknown response fields
/// are ignored by every decoder built on `spec_lookup`.
pub proof fn lemma_lookup_push(es: Seq<(String, JsonValue)>, p: (String, JsonValue), key: Seq<char>)
    requires
        p.0@ != key,
    ensures
        spec_lookup(es.push(p), key) == spec_lookup(es, key),
    decreases es.len(),
{
    if es.len() == 0 {
        assert(es.push(p)[0] == p);
        assert(es.push(p).drop_first() =~= Seq::<(String, JsonValue)>::empty());
        assert(spec_lookup(Seq::<(String, JsonValue)>::empty(), key) is None);
        assert(spec_lookup(es.push(p), key) is None);
        assert(spec_lookup(es, key) is None);
    } else {
        assert(es.push(p)[0] == es[0]);
        assert(es.push(p).drop_first() =~= es.drop_first().push(p));
        lemma_lookup_push(es.drop_first(), p, key);
        if es[0].0@ == key {
            assert(spec_lookup(es.push(p), key) == Some(es.push(p)[0].1));
            assert(spec_lookup(es, key) == Some(es[0].1));
        } else {
            assert(spec_lookup(es.push(p), key) == spec_lookup(es.drop_first().push(p), key));
            assert(spec_lookup(es, key) == spec_lookup(es.drop_first(), key));
        }
    }
}

/// Finds the first entry named `key`, exactly as `spec_lookup` describes.
#[verifier::loop_isolation(false)]
pub fn lookup<'a>(es: &'a Vec<(String, JsonValue)>, key: &str) -> (r: Option<&'a JsonValue>)
    ensures
        match r {
            Some(j) => spec_lookup(es@, key@) == Some(*j),
            None => spec_lookup(es@, key@) is None,
        },
{
    let k = String::from_str(key);
    proof {
        assert(es@.skip(0) =~= es@);
    }
    let mut i: usize = 0;
    while i < es.len()
        invariant
            i <= es.len(),
            spec_lookup(es@.skip(i as int), key@) == spec_lookup(es@, key@),
        decreases es.len() - i,
    {
        proof {
            assert(es@.skip(i as int)[0] == es@[i as int]);
            assert(es@.skip(i as int).drop_first() =~= es@.skip(i as int + 1));
        }
        if es[i].0 == k {
            return Some(&es[i].1);
        }
        i = i + 1;
    }
    proof {
        assert(es@.skip(es@.len() as int) =~= Seq::<(String, JsonValue)>::empty());
    }
    None
}

} // verus!
