use vstd::prelude::*;
use vstd::string::StringExecFns;
use crate::decimal::lemma_format_parse_round_trip;
use crate::decimal::pow10;
use crate::decimal::same_value;
use crate::decimal::spec_parse;
use crate::error::WeatherError;
use crate::json::parse_json;
use crate::json::spec_parse_json;
use crate::types::Coordinates;
use crate::types::WeatherMain;
use crate::types::decode_coordinate_list;
use crate::types::spec_decode_coordinate_list;
use crate::types::spec_decode_coordinates;
use crate::types::spec_decode_weather;
use crate::types::decode_coordinates;
use crate::types::decode_weather;

verus! {

/// The unit systems the provider understands.
#[derive(Clone, Copy, Debug, PartialEq, Eq, Structural)]
pub enum Units {
    Metric,
    Imperial,
    Standard,
}

impl Units {
    /// The literal the provider expects in the `units` query parameter.
    pub open spec fn spec_str(self) -> Seq<char> {
        match self {
            Units::Metric => "metric"@,
            Units::Imperial => "imperial"@,
            Units::Standard => "standard"@,
        }
    }

    pub fn query_value(&self) -> (r: &'static str)
        ensures
            r@ == self.spec_str(),
    {
        match self {
            Units::Metric => "metric",
            Units::Imperial => "imperial",
            Units::Standard => "standard",
        }
    }
}

pub open spec fn spec_geo_direct_url() -> Seq<char> {
    "http://api.openweathermap.org/geo/1.0/direct"@
}

pub open spec fn spec_geo_zip_url() -> Seq<char> {
    "http://api.openweathermap.org/geo/1.0/zip"@
}

pub open spec fn spec_weather_url() -> Seq<char> {
    "https://api.openweathermap.org/data/2.5/weather"@
}

/// A GET request for the transport to issue: the URL and the query
/// parameters to attach (the session URL-encodes them on the wire).
pub struct HttpRequest {
    pub url: String,
    pub params: Vec<(String, String)>,
}

/// The parameter list as character sequences.
pub open spec fn params_view(ps: Seq<(String, String)>) -> Seq<(Seq<char>, Seq<char>)> {
    ps.map_values(|p: (String, String)| (p.0@, p.1@))
}

/// Whether the parameter set carries `key` with value `val`.
pub open spec fn has_param(
    ps: Seq<(Seq<char>, Seq<char>)>,
    key: Seq<char>,
    val: Seq<char>,
) -> bool {
    exists|i: int| 0 <= i < ps.len() && ps[i] == (key, val)
}

/// The city lookup's exact parameter set.
pub open spec fn spec_city_params(key: Seq<char>, city: Seq<char>) -> Seq<(Seq<char>, Seq<char>)> {
    seq![("q"@, city), ("limit"@, "1"@), ("appid"@, key)]
}

/// The ZIP lookup's exact parameter set.
pub open spec fn spec_zip_params(key: Seq<char>, zip: Seq<char>) -> Seq<(Seq<char>, Seq<char>)> {
    seq![("zip"@, zip), ("appid"@, key)]
}

/// The current-weather call's exact parameter set: the coordinate is
/// serialized by the decimal formatter, full precision kept.
pub open spec fn spec_weather_params(key: Seq<char>, units: Units, coords: Coordinates) -> Seq<
    (Seq<char>, Seq<char>),
> {
    seq![
        ("lat"@, coords.lat.spec_format()),
        ("lon"@, coords.lon.spec_format()),
        ("appid"@, key),
        ("units"@, units.spec_str()),
    ]
}

/// The API-client facade: holds the provider credential, builds each
/// endpoint's request, and interprets each endpoint's response. The
/// transport that carries the request over the network stands outside.
pub struct WeatherClient {
    api_key: String,
}

impl WeatherClient {
    /// The configured credential.
    pub closed spec fn spec_key(&self) -> Seq<char> {
        self.api_key@
    }

    pub closed spec fn wf(&self) -> bool {
        self.api_key@.len() > 0
    }

    /// A client for the given credential; `config_api_key` supplies a
    /// non-empty one.
    pub fn new(api_key: String) -> (r: Self)
        requires
            api_key@.len() > 0,
        ensures
            r.spec_key() == api_key@,
            r.wf(),
    {
        WeatherClient { api_key }
    }

    /// The request of the lookup-by-city operation.
    pub fn locate_by_city_request(&self, city: &str) -> (r: HttpRequest)
        ensures
            r.url@ == spec_geo_direct_url(),
            params_view(r.params@) == spec_city_params(self.spec_key(), city@),
    {
        let mut params: Vec<(String, String)> = Vec::new();
        params.push((String::from_str("q"), String::from_str(city)));
        params.push((String::from_str("limit"), String::from_str("1")));
        params.push((String::from_str("appid"), self.api_key.clone()));
        let r = HttpRequest {
            url: String::from_str("http://api.openweathermap.org/geo/1.0/direct"),
            params,
        };
        proof {
            assert(params_view(r.params@) =~= spec_city_params(self.spec_key(), city@));
        }
        r
    }

    /// The request of the lookup-by-ZIP operation.
    pub fn locate_by_zip_request(&self, zipcode: &str) -> (r: HttpRequest)
        ensures
            r.url@ == spec_geo_zip_url(),
            params_view(r.params@) == spec_zip_params(self.spec_key(), zipcode@),
    {
        let mut params: Vec<(String, String)> = Vec::new();
        params.push((String::from_str("zip"), String::from_str(zipcode)));
        params.push((String::from_str("appid"), self.api_key.clone()));
        let r = HttpRequest {
            url: String::from_str("http://api.openweathermap.org/geo/1.0/zip"),
            params,
        };
        proof {
            assert(params_view(r.params@) =~= spec_zip_params(self.spec_key(), zipcode@));
        }
        r
    }

    /// The request of the current-weather operation.
    pub fn current_weather_request(&self, units: Units, coords: Coordinates) -> (r: HttpRequest)
        requires
            coords.lat.wf(),
            coords.lon.wf(),
        ensures
            r.url@ == spec_weather_url(),
            params_view(r.params@) == spec_weather_params(self.spec_key(), units, coords),
    {
        let lat_text = coords.lat.to_query_string();
        let lon_text = coords.lon.to_query_string();
        let mut params: Vec<(String, String)> = Vec::new();
        params.push((String::from_str("lat"), lat_text));
        params.push((String::from_str("lon"), lon_text));
        params.push((String::from_str("appid"), self.api_key.clone()));
        params.push((String::from_str("units"), String::from_str(units.query_value())));
        let r = HttpRequest {
            url: String::from_str("https://api.openweathermap.org/data/2.5/weather"),
            params,
        };
        proof {
            assert(params_view(r.params@) =~= spec_weather_params(self.spec_key(), units, coords));
        }
        r
    }
}

pub open spec fn spec_is_success(code: u16) -> bool {
    200 <= code < 300
}

/// Whether an upstream status code is a 2xx success.
pub fn is_success(code: u16) -> (r: bool)
    ensures
        r == spec_is_success(code),
{
    200 <= code && code < 300
}

/// At most the first hit is kept, as the `limit=1` request parameter asks
/// of the provider.
pub open spec fn spec_first_hit(s: Seq<Coordinates>) -> Seq<Coordinates> {
    if s.len() <= 1 {
        s
    } else {
        s.take(1)
    }
}

/// Interprets a lookup-by-city round trip: any non-2xx status is
/// `HttpStatus` with that exact code, the body untouched; a 2xx body must
/// decode as an array of coordinate objects, of which at most the first is
/// returned — an empty array meaning no hits, which is a success.
pub fn locate_by_city_response(status: u16, body: &str) -> (r: Result<
    Vec<Coordinates>,
    WeatherError,
>)
    ensures
        !spec_is_success(status) ==> (r matches Err(e) && e == (WeatherError::HttpStatus {
            code: status,
        })),
        spec_is_success(status) ==> (match spec_parse_json(body@) {
            Some(v) => match spec_decode_coordinate_list(v) {
                Ok(s) => r matches Ok(cs) && cs@ == spec_first_hit(s),
                Err(e) => r == Err::<Vec<Coordinates>, WeatherError>(e),
            },
            None => r == Err::<Vec<Coordinates>, WeatherError>(WeatherError::Decode),
        }),
        r matches Ok(cs) ==> cs@.len() <= 1,
        r matches Ok(cs) ==> forall|i: int|
            0 <= i < cs@.len() ==> (#[trigger] cs@[i]).lat.wf() && cs@[i].lon.wf(),
{
    if !is_success(status) {
        return Err(WeatherError::HttpStatus { code: status });
    }
    let v = match parse_json(body) {
        Ok(v) => v,
        Err(e) => {
            return Err(e);
        },
    };
    match decode_coordinate_list(&v) {
        Ok(mut cs) => {
            if cs.len() > 1 {
                cs.truncate(1);
            }
            Ok(cs)
        },
        Err(e) => Err(e),
    }
}

/// Interprets a lookup-by-ZIP round trip: any non-2xx status (the
/// provider's 404 for an unknown ZIP among them) is `HttpStatus` with that
/// exact code; a 2xx body must decode as a coordinate object.
pub fn locate_by_zip_response(status: u16, body: &str) -> (r: Result<Coordinates, WeatherError>)
    ensures
        !spec_is_success(status) ==> (r matches Err(e) && e == (WeatherError::HttpStatus {
            code: status,
        })),
        spec_is_success(status) ==> r == (match spec_parse_json(body@) {
            Some(v) => spec_decode_coordinates(v),
            None => Err::<Coordinates, WeatherError>(WeatherError::Decode),
        }),
        r matches Ok(c) ==> c.lat.wf() && c.lon.wf(),
{
    if !is_success(status) {
        return Err(WeatherError::HttpStatus { code: status });
    }
    let v = match parse_json(body) {
        Ok(v) => v,
        Err(e) => {
            return Err(e);
        },
    };
    decode_coordinates(&v)
}

/// Interprets a current-weather round trip: any non-2xx status is
/// `HttpStatus` with that exact code; a 2xx body must decode as a weather
/// object with the `main` triple.
pub fn current_weather_response(status: u16, body: &str) -> (r: Result<WeatherMain, WeatherError>)
    ensures
        !spec_is_success(status) ==> (r matches Err(e) && e == (WeatherError::HttpStatus {
            code: status,
        })),
        spec_is_success(status) ==> r == (match spec_parse_json(body@) {
            Some(v) => spec_decode_weather(v),
            None => Err::<WeatherMain, WeatherError>(WeatherError::Decode),
        }),
        r matches Ok(m) ==> m.temp.wf() && m.temp_min.wf() && m.temp_max.wf(),
{
    if !is_success(status) {
        return Err(WeatherError::HttpStatus { code: status });
    }
    let v = match parse_json(body) {
        Ok(v) => v,
        Err(e) => {
            return Err(e);
        },
    };
    decode_weather(&v)
}

/// Law: every outbound request's parameter set carries `appid` with the
/// configured key — all three endpoints alike.
pub proof fn lemma_every_request_carries_appid(
    key: Seq<char>,
    city: Seq<char>,
    zip: Seq<char>,
    units: Units,
    coords: Coordinates,
)
    ensures
        has_param(spec_city_params(key, city), "appid"@, key),
        has_param(spec_zip_params(key, zip), "appid"@, key),
        has_param(spec_weather_params(key, units, coords), "appid"@, key),
{
    assert(spec_city_params(key, city)[2] == ("appid"@, key));
    assert(spec_zip_params(key, zip)[1] == ("appid"@, key));
    assert(spec_weather_params(key, units, coords)[2] == ("appid"@, key));
}

/// Law: the city lookup always asks for at most one hit — its `limit`
/// parameter is exactly the literal "1".
pub proof fn lemma_city_request_limit_one(key: Seq<char>, city: Seq<char>)
    ensures
        has_param(spec_city_params(key, city), "limit"@, "1"@),
{
    assert(spec_city_params(key, city)[1] == ("limit"@, "1"@));
}

/// Law: the weather request passes the chosen unit system through as its
/// exact literal.
pub proof fn lemma_weather_request_units(key: Seq<char>, units: Units, coords: Coordinates)
    ensures
        has_param(spec_weather_params(key, units, coords), "units"@, units.spec_str()),
{
    assert(spec_weather_params(key, units, coords)[3] == ("units"@, units.spec_str()));
}

/// Law: the coordinate a geocoding call returned survives the round trip
/// into the weather request: the `lat` and `lon` parameters are its decimal
/// serialization with at least six fraction digits, and parsing them back
/// yields the same values.
pub proof fn lemma_weather_request_coordinate_fidelity(
    key: Seq<char>,
    units: Units,
    coords: Coordinates,
)
    requires
        coords.lat.wf(),
        coords.lon.wf(),
        coords.lat.padded_mantissa() < pow10(18),
        coords.lon.padded_mantissa() < pow10(18),
    ensures
        has_param(spec_weather_params(key, units, coords), "lat"@, coords.lat.spec_format()),
        has_param(spec_weather_params(key, units, coords), "lon"@, coords.lon.spec_format()),
        spec_parse(coords.lat.spec_format()) matches Some(e) && same_value(e, coords.lat)
            && e.scale >= 6,
        spec_parse(coords.lon.spec_format()) matches Some(e) && same_value(e, coords.lon)
            && e.scale >= 6,
{
    assert(spec_weather_params(key, units, coords)[0] == ("lat"@, coords.lat.spec_format()));
    assert(spec_weather_params(key, units, coords)[1] == ("lon"@, coords.lon.spec_format()));
    lemma_format_parse_round_trip(coords.lat);
    lemma_format_parse_round_trip(coords.lon);
}

} // verus!
