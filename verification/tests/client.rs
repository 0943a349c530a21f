use weathr::client::{
    current_weather_response, is_success, locate_by_city_response, locate_by_zip_response, Units,
    WeatherClient,
};
use weathr::config::{config_api_key, parse_zip_input};
use weathr::decimal::Decimal;
use weathr::error::WeatherError;
use weathr::json::parse_json;
use weathr::types::{decode_coordinates, decode_weather, Coordinates};

const ZIP_BODY: &str =
    r#"{"zip":"01701","name":"Framingham","lat":42.2793,"lon":-71.4162,"country":"US"}"#;
const WEATHER_BODY: &str = r#"{"main":{"temp":55.4,"temp_min":50.0,"temp_max":60.1,"humidity":40}}"#;

fn dec(neg: bool, mantissa: u64, scale: u32) -> Decimal {
    Decimal { neg, mantissa, scale }
}

#[test]
fn zip_lookup_decodes_coordinates_ignoring_extras() {
    let coords = locate_by_zip_response(200, ZIP_BODY).unwrap();
    assert_eq!(coords.lat, dec(false, 422793, 4));
    assert_eq!(coords.lon, dec(true, 714162, 4));
}

#[test]
fn weather_decodes_main_triple_ignoring_extras() {
    let main = current_weather_response(200, WEATHER_BODY).unwrap();
    assert_eq!(main.temp, dec(false, 554, 1));
    assert_eq!(main.temp_min, dec(false, 500, 1));
    assert_eq!(main.temp_max, dec(false, 601, 1));
}

#[test]
fn weather_endpoint_401_is_http_status() {
    let r = current_weather_response(401, "");
    assert_eq!(r.unwrap_err(), WeatherError::HttpStatus { code: 401 });
    let diag = WeatherError::HttpStatus { code: 401 }.message();
    assert!(diag.contains("401"));
    assert_eq!(diag, "http status 401");
}

#[test]
fn zip_endpoint_404_is_http_status() {
    let r = locate_by_zip_response(404, r#"{"cod":"404","message":"not found"}"#);
    assert_eq!(r.unwrap_err(), WeatherError::HttpStatus { code: 404 });
    assert_eq!(WeatherError::HttpStatus { code: 404 }.message(), "http status 404");
}

#[test]
fn any_non_2xx_code_is_preserved_exactly() {
    assert_eq!(
        locate_by_city_response(500, "[]").unwrap_err(),
        WeatherError::HttpStatus { code: 500 }
    );
    assert_eq!(
        locate_by_zip_response(199, ZIP_BODY).unwrap_err(),
        WeatherError::HttpStatus { code: 199 }
    );
    assert_eq!(
        current_weather_response(300, WEATHER_BODY).unwrap_err(),
        WeatherError::HttpStatus { code: 300 }
    );
    assert!(is_success(200));
    assert!(is_success(299));
    assert!(!is_success(199));
    assert!(!is_success(300));
}

#[test]
fn missing_lon_is_decode() {
    let r = locate_by_zip_response(200, r#"{"lat":42.2793}"#);
    assert_eq!(r.unwrap_err(), WeatherError::Decode);
}

#[test]
fn missing_temperature_fields_are_decode() {
    let r = current_weather_response(200, r#"{"main":{"temp":55.4,"temp_min":50.0}}"#);
    assert_eq!(r.unwrap_err(), WeatherError::Decode);
    let r = current_weather_response(200, r#"{"other":{}}"#);
    assert_eq!(r.unwrap_err(), WeatherError::Decode);
}

#[test]
fn non_numeric_required_field_is_decode() {
    let r = locate_by_zip_response(200, r#"{"lat":"42","lon":-71.4162}"#);
    assert_eq!(r.unwrap_err(), WeatherError::Decode);
}

#[test]
fn invalid_json_is_decode() {
    assert_eq!(parse_json("not json").unwrap_err(), WeatherError::Decode);
    assert_eq!(
        locate_by_zip_response(200, "<html></html>").unwrap_err(),
        WeatherError::Decode
    );
}

#[test]
fn empty_city_list_is_success_with_zero_hits() {
    let r = locate_by_city_response(200, "[]").unwrap();
    assert_eq!(r.len(), 0);
}

#[test]
fn single_city_hit_decodes() {
    let r = locate_by_city_response(200, r#"[{"lat":42.2793,"lon":-71.4162,"name":"x"}]"#)
        .unwrap();
    assert_eq!(r.len(), 1);
    assert_eq!(r[0].lat, dec(false, 422793, 4));
    assert_eq!(r[0].lon, dec(true, 714162, 4));
}

#[test]
fn city_lookup_returns_at_most_one_hit() {
    // even if the provider ignored limit=1, the operation keeps one hit
    let body = r#"[{"lat":1.0,"lon":2.0},{"lat":3.0,"lon":4.0},{"lat":5.0,"lon":6.0}]"#;
    let r = locate_by_city_response(200, body).unwrap();
    assert_eq!(r.len(), 1);
    assert_eq!(r[0].lat, dec(false, 10, 1));
    assert_eq!(r[0].lon, dec(false, 20, 1));
}

#[test]
fn number_text_is_wire_exact() {
    // trailing zeros and high precision survive parsing untouched
    let v = parse_json(r#"{"lat":42.27930,"lon":-71.4162000000000001}"#).unwrap();
    let coords = decode_coordinates(&v).unwrap();
    assert_eq!(coords.lat, dec(false, 4227930, 5));
    assert_eq!(coords.lon, dec(true, 714162000000000001, 16));
}

#[test]
fn city_request_carries_q_limit_and_appid() {
    let client = WeatherClient::new(String::from("k1"));
    let req = client.locate_by_city_request("Boston");
    assert_eq!(req.url, "http://api.openweathermap.org/geo/1.0/direct");
    let params: Vec<(&str, &str)> =
        req.params.iter().map(|p| (p.0.as_str(), p.1.as_str())).collect();
    assert_eq!(params, vec![("q", "Boston"), ("limit", "1"), ("appid", "k1")]);
}

#[test]
fn zip_request_carries_zip_and_appid() {
    let client = WeatherClient::new(String::from("k1"));
    let req = client.locate_by_zip_request("01701");
    assert_eq!(req.url, "http://api.openweathermap.org/geo/1.0/zip");
    let params: Vec<(&str, &str)> =
        req.params.iter().map(|p| (p.0.as_str(), p.1.as_str())).collect();
    assert_eq!(params, vec![("zip", "01701"), ("appid", "k1")]);
}

#[test]
fn weather_request_serializes_coordinate_with_six_digits() {
    let client = WeatherClient::new(String::from("k1"));
    let coords = Coordinates { lat: dec(false, 422793, 4), lon: dec(true, 714162, 4) };
    let req = client.current_weather_request(Units::Imperial, coords);
    assert_eq!(req.url, "https://api.openweathermap.org/data/2.5/weather");
    let params: Vec<(&str, &str)> =
        req.params.iter().map(|p| (p.0.as_str(), p.1.as_str())).collect();
    assert_eq!(
        params,
        vec![
            ("lat", "42.279300"),
            ("lon", "-71.416200"),
            ("appid", "k1"),
            ("units", "imperial"),
        ]
    );
}

#[test]
fn units_literals_match_the_provider() {
    assert_eq!(Units::Metric.query_value(), "metric");
    assert_eq!(Units::Imperial.query_value(), "imperial");
    assert_eq!(Units::Standard.query_value(), "standard");
}

#[test]
fn missing_api_key_is_config_error() {
    assert_eq!(config_api_key(None).unwrap_err(), WeatherError::Config);
    assert_eq!(
        config_api_key(Some(String::new())).unwrap_err(),
        WeatherError::Config
    );
    assert_eq!(config_api_key(Some(String::from("k1"))).unwrap(), "k1");
}

#[test]
fn zip_input_is_trimmed() {
    assert_eq!(parse_zip_input("01701\n").unwrap(), "01701");
    assert_eq!(parse_zip_input("  01701 \r\n").unwrap(), "01701");
    assert_eq!(parse_zip_input("01701").unwrap(), "01701");
    // unicode whitespace is trimmed too, as str::trim would
    assert_eq!(parse_zip_input("\u{A0}01701\u{3000}\n").unwrap(), "01701");
}

#[test]
fn empty_zip_input_is_input_error() {
    assert_eq!(parse_zip_input("").unwrap_err(), WeatherError::Input);
    assert_eq!(parse_zip_input(" \t\r\n").unwrap_err(), WeatherError::Input);
    assert_eq!(WeatherError::Input.message(), "no ZIP code entered");
}

#[test]
fn end_to_end_zip_then_weather_on_mock_bodies() {
    // the driver's happy path over the two mocked endpoint bodies
    let key = config_api_key(Some(String::from("k1"))).unwrap();
    let client = WeatherClient::new(key);
    let zip = parse_zip_input("01701\n").unwrap();
    let zreq = client.locate_by_zip_request(&zip);
    assert!(zreq.params.iter().any(|p| p.0 == "appid" && p.1 == "k1"));
    let coords = locate_by_zip_response(200, ZIP_BODY).unwrap();
    let wreq = client.current_weather_request(Units::Imperial, coords);
    assert!(wreq.params.iter().any(|p| p.0 == "lat" && p.1 == "42.279300"));
    assert!(wreq.params.iter().any(|p| p.0 == "lon" && p.1 == "-71.416200"));
    assert!(wreq.params.iter().any(|p| p.0 == "appid" && p.1 == "k1"));
    let main = current_weather_response(200, WEATHER_BODY).unwrap();
    assert_eq!(main.temp.to_query_string(), "55.400000");
    assert_eq!(main.temp_min.to_query_string(), "50.000000");
    assert_eq!(main.temp_max.to_query_string(), "60.100000");
}

#[test]
fn deeply_nested_extra_fields_still_decode() {
    // an unknown field may hold any JSON value without causing Decode
    let body = r#"{"lat":1.5,"lon":2.5,"extra":{"a":[1,2,{"b":null}],"c":"x"}}"#;
    let v = parse_json(body).unwrap();
    let coords = decode_coordinates(&v).unwrap();
    assert_eq!(coords.lat, dec(false, 15, 1));
    assert_eq!(coords.lon, dec(false, 25, 1));
    let w = parse_json(WEATHER_BODY).unwrap();
    assert!(decode_weather(&w).is_ok());
}
