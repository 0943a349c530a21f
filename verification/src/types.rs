use vstd::prelude::*;
use crate::decimal::Decimal;
use crate::decimal::spec_parse;
use crate::error::WeatherError;
use crate::json::JsonValue;
use crate::json::lookup;
use crate::json::spec_lookup;
use crate::json::lemma_lookup_push;

verus! {

/// A geographic coordinate in decimal degrees, exactly as the geocoding
/// service sent it.
#[derive(Clone, Copy, Debug, PartialEq, Eq, Structural)]
pub struct Coordinates {
    pub lat: Decimal,
    pub lon: Decimal,
}

/// A current-weather reading: the temperature now and the day's expected
/// low and high, in the unit system the request named.
#[derive(Clone, Copy, Debug, PartialEq, Eq, Structural)]
pub struct WeatherMain {
    pub temp: Decimal,
    pub temp_min: Decimal,
    pub temp_max: Decimal,
}

/// The part of the current-weather response the client reads.
#[derive(Clone, Copy, Debug, PartialEq, Eq, Structural)]
pub struct WeatherResponse {
    pub main: WeatherMain,
}

/// The number under `key` in the object `v`: present only when `v` is an
/// object, the field exists, and it is a number within the parser's range.
pub open spec fn spec_number_field(v: JsonValue, key: Seq<char>) -> Option<Decimal> {
    match v {
        JsonValue::Object(es) => match spec_lookup(es@, key) {
            Some(f) => match f {
                JsonValue::Number(t) => spec_parse(t@),
                _ => None,
            },
            None => None,
        },
        _ => None,
    }
}

/// What decoding a geocoding object means: `lat` and `lon` must be present
/// numbers; every other field is ignored.
pub open spec fn spec_decode_coordinates(v: JsonValue) -> Result<Coordinates, WeatherError> {
    match (spec_number_field(v, "lat"@), spec_number_field(v, "lon"@)) {
        (Some(la), Some(lo)) => Ok(Coordinates { lat: la, lon: lo }),
        _ => Err(WeatherError::Decode),
    }
}

/// What decoding a current-weather object means: a `main` object holding
/// the numbers `temp`, `temp_min` and `temp_max`; every other field, at
/// either level, is ignored.
pub open spec fn spec_decode_weather(v: JsonValue) -> Result<WeatherMain, WeatherError> {
    match v {
        JsonValue::Object(es) => match spec_lookup(es@, "main"@) {
            Some(m) => match (
                spec_number_field(m, "temp"@),
                spec_number_field(m, "temp_min"@),
                spec_number_field(m, "temp_max"@),
            ) {
                (Some(t), Some(tn), Some(tx)) => Ok(
                    WeatherMain { temp: t, temp_min: tn, temp_max: tx },
                ),
                _ => Err(WeatherError::Decode),
            },
            None => Err(WeatherError::Decode),
        },
        _ => Err(WeatherError::Decode),
    }
}

/// Reads the number under `key`, exactly as `spec_number_field` describes.
fn number_field(v: &JsonValue, key: &str) -> (r: Option<Decimal>)
    ensures
        r == spec_number_field(*v, key@),
        r matches Some(d) ==> d.wf(),
{
    match v {
        JsonValue::Object(es) => match lookup(es, key) {
            Some(f) => match f {
                JsonValue::Number(t) => Decimal::parse(t.as_str()),
                _ => None,
            },
            None => None,
        },
        _ => None,
    }
}

/// Decodes a geocoding-by-ZIP response object into a coordinate.
pub fn decode_coordinates(v: &JsonValue) -> (r: Result<Coordinates, WeatherError>)
    ensures
        r == spec_decode_coordinates(*v),
        r matches Ok(c) ==> c.lat.wf() && c.lon.wf(),
{
    let lat = match number_field(v, "lat") {
        Some(d) => d,
        None => {
            return Err(WeatherError::Decode);
        },
    };
    let lon = match number_field(v, "lon") {
        Some(d) => d,
        None => {
            return Err(WeatherError::Decode);
        },
    };
    Ok(Coordinates { lat, lon })
}

/// Whether every item of a geocoding-by-city response array decodes.
pub open spec fn all_coordinates_ok(items: Seq<JsonValue>) -> bool {
    forall|i: int| 0 <= i < items.len() ==> spec_decode_coordinates(#[trigger] items[i]) is Ok
}

/// The coordinates of a geocoding-by-city response array, item by item.
pub open spec fn decoded_coordinates(items: Seq<JsonValue>) -> Seq<Coordinates> {
    Seq::new(items.len(), |i: int| spec_decode_coordinates(items[i])->Ok_0)
}

/// What decoding a geocoding-by-city response means: a JSON array each of
/// whose items holds `lat` and `lon` numbers. An empty array is a success
/// with zero hits, not an error.
pub open spec fn spec_decode_coordinate_list(v: JsonValue) -> Result<
    Seq<Coordinates>,
    WeatherError,
> {
    match v {
        JsonValue::Array(items) => if all_coordinates_ok(items@) {
            Ok(decoded_coordinates(items@))
        } else {
            Err(WeatherError::Decode)
        },
        _ => Err(WeatherError::Decode),
    }
}

/// Decodes a geocoding-by-city response array into coordinates.
#[verifier::loop_isolation(false)]
pub fn decode_coordinate_list(v: &JsonValue) -> (r: Result<Vec<Coordinates>, WeatherError>)
    ensures
        match r {
            Ok(cs) => spec_decode_coordinate_list(*v) == Ok::<Seq<Coordinates>, WeatherError>(cs@)
                && forall|i: int|
                0 <= i < cs@.len() ==> (#[trigger] cs@[i]).lat.wf() && cs@[i].lon.wf(),
            Err(e) => spec_decode_coordinate_list(*v) == Err::<Seq<Coordinates>, WeatherError>(e),
        },
{
    let items = match v {
        JsonValue::Array(items) => items,
        _ => {
            return Err(WeatherError::Decode);
        },
    };
    let mut out: Vec<Coordinates> = Vec::new();
    let mut i: usize = 0;
    while i < items.len()
        invariant
            i <= items@.len(),
            out@.len() == i,
            forall|k: int|
                0 <= k < i ==> spec_decode_coordinates(#[trigger] items@[k]) is Ok && out@[k]
                    == spec_decode_coordinates(items@[k])->Ok_0,
            forall|k: int| 0 <= k < i ==> (#[trigger] out@[k]).lat.wf() && out@[k].lon.wf(),
        decreases items@.len() - i,
    {
        match decode_coordinates(&items[i]) {
            Ok(c) => {
                out.push(c);
            },
            Err(e) => {
                proof {
                    assert(!all_coordinates_ok(items@));
                }
                return Err(WeatherError::Decode);
            },
        }
        i = i + 1;
    }
    proof {
        assert(out@ =~= decoded_coordinates(items@));
    }
    Ok(out)
}

/// Decodes a current-weather response object into its reading.
pub fn decode_weather(v: &JsonValue) -> (r: Result<WeatherMain, WeatherError>)
    ensures
        r == spec_decode_weather(*v),
        r matches Ok(m) ==> m.temp.wf() && m.temp_min.wf() && m.temp_max.wf(),
{
    let entries = match v {
        JsonValue::Object(es) => es,
        _ => {
            return Err(WeatherError::Decode);
        },
    };
    let main = match lookup(entries, "main") {
        Some(m) => m,
        None => {
            return Err(WeatherError::Decode);
        },
    };
    let temp = match number_field(main, "temp") {
        Some(d) => d,
        None => {
            return Err(WeatherError::Decode);
        },
    };
    let temp_min = match number_field(main, "temp_min") {
        Some(d) => d,
        None => {
            return Err(WeatherError::Decode);
        },
    };
    let temp_max = match number_field(main, "temp_max") {
        Some(d) => d,
        None => {
            return Err(WeatherError::Decode);
        },
    };
    let resp = WeatherResponse { main: WeatherMain { temp, temp_min, temp_max } };
    Ok(resp.main)
}

/// Law: an extra field under any unrelated key never changes what the
/// coordinate decoder returns — unknown response fields are ignored.
pub proof fn lemma_coordinates_ignore_extra_field(
    v: JsonValue,
    w: JsonValue,
    k: String,
    x: JsonValue,
)
    requires
        v matches JsonValue::Object(es1) && w matches JsonValue::Object(es2) && es2@ == es1@.push(
            (k, x),
        ),
        k@ != "lat"@,
        k@ != "lon"@,
    ensures
        spec_decode_coordinates(w) == spec_decode_coordinates(v),
{
    let es1 = v->Object_0;
    let es2 = w->Object_0;
    lemma_lookup_push(es1@, (k, x), "lat"@);
    lemma_lookup_push(es1@, (k, x), "lon"@);
}

/// Law: an extra field under any unrelated key, at the top level or inside
/// `main`, never changes what the weather decoder returns.
pub proof fn lemma_weather_ignores_extra_field(
    v: JsonValue,
    w: JsonValue,
    k: String,
    x: JsonValue,
)
    requires
        v matches JsonValue::Object(es1) && w matches JsonValue::Object(es2) && es2@ == es1@.push(
            (k, x),
        ),
        k@ != "main"@,
    ensures
        spec_decode_weather(w) == spec_decode_weather(v),
{
    let es1 = v->Object_0;
    lemma_lookup_push(es1@, (k, x), "main"@);
}

/// Law: an extra field under another key never changes which number a
/// decoder reads from an object — at any nesting level.
pub proof fn lemma_number_field_ignores_extra(
    m1: JsonValue,
    m2: JsonValue,
    k: String,
    x: JsonValue,
    key: Seq<char>,
)
    requires
        m1 matches JsonValue::Object(ms1) && m2 matches JsonValue::Object(ms2) && ms2@
            == ms1@.push((k, x)),
        k@ != key,
    ensures
        spec_number_field(m2, key) == spec_number_field(m1, key),
{
    let ms1 = m1->Object_0;
    lemma_lookup_push(ms1@, (k, x), key);
}

/// Law: a geocoding object that lacks `lat` or lacks `lon` decodes to
/// `Decode`, never to a made-up coordinate.
pub proof fn lemma_coordinates_missing_field(v: JsonValue)
    requires
        v matches JsonValue::Object(es) && (spec_lookup(es@, "lat"@) is None || spec_lookup(
            es@,
            "lon"@,
        ) is None),
    ensures
        spec_decode_coordinates(v) == Err::<Coordinates, WeatherError>(WeatherError::Decode),
{
}

/// Law: a weather object whose `main` lacks any of `temp`, `temp_min` or
/// `temp_max` decodes to `Decode`.
pub proof fn lemma_weather_missing_field(v: JsonValue, m: JsonValue)
    requires
        v matches JsonValue::Object(es) && spec_lookup(es@, "main"@) == Some(m),
        m matches JsonValue::Object(ms) && (spec_lookup(ms@, "temp"@) is None || spec_lookup(
            ms@,
            "temp_min"@,
        ) is None || spec_lookup(ms@, "temp_max"@) is None),
    ensures
        spec_decode_weather(v) == Err::<WeatherMain, WeatherError>(WeatherError::Decode),
{
}

} // verus!
