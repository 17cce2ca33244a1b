use grocery_recommender::json::decode_places;
use grocery_recommender::model::{AppError, Place};

fn d(s: &str) -> Result<Vec<Place>, AppError> {
    decode_places(&s.as_bytes().to_vec())
}

#[test]
fn empty_results_decode() {
    let r = d(r#"{"results":[]}"#).unwrap();
    assert_eq!(r.len(), 0);
}

#[test]
fn single_place() {
    let r = d(
        r#"{"results":[{"name":"Acme Market","vicinity":"123 Main St","geometry":{"location":{"lat":37.77,"lng":-122.42}}}]}"#,
    )
    .unwrap();
    assert_eq!(r.len(), 1);
    assert_eq!(r[0].name, b"Acme Market".to_vec());
    assert_eq!(r[0].vicinity, b"123 Main St".to_vec());
    assert_eq!(r[0].lat, b"37.77".to_vec());
    assert_eq!(r[0].lng, b"-122.42".to_vec());
    assert_eq!(r[0].open_now, None);
}

#[test]
fn two_places_keep_order() {
    let r = d(
        r#"{"results":[
            {"name":"A","vicinity":"a st","geometry":{"location":{"lat":1,"lng":2}}},
            {"name":"B","vicinity":"b st","geometry":{"location":{"lat":3,"lng":4}}}
        ]}"#,
    )
    .unwrap();
    assert_eq!(r.len(), 2);
    assert_eq!(r[0].name, b"A".to_vec());
    assert_eq!(r[1].name, b"B".to_vec());
}

#[test]
fn not_json_is_decode_error() {
    assert_eq!(d("not json").unwrap_err(), AppError::Decode);
}

#[test]
fn empty_body_is_decode_error() {
    assert_eq!(d("").unwrap_err(), AppError::Decode);
}

#[test]
fn top_level_not_object_is_decode_error() {
    assert_eq!(d(r#"[{"results":[]}]"#).unwrap_err(), AppError::Decode);
    assert_eq!(d(r#""results""#).unwrap_err(), AppError::Decode);
}

#[test]
fn missing_results_is_decode_error() {
    assert_eq!(d(r#"{}"#).unwrap_err(), AppError::Decode);
    assert_eq!(d(r#"{"other":[]}"#).unwrap_err(), AppError::Decode);
}

#[test]
fn results_not_array_is_decode_error() {
    assert_eq!(d(r#"{"results":{}}"#).unwrap_err(), AppError::Decode);
    assert_eq!(d(r#"{"results":null}"#).unwrap_err(), AppError::Decode);
}

#[test]
fn missing_name_is_decode_error() {
    let r = d(r#"{"results":[{"vicinity":"v","geometry":{"location":{"lat":1,"lng":2}}}]}"#);
    assert_eq!(r.unwrap_err(), AppError::Decode);
}

#[test]
fn missing_vicinity_is_decode_error() {
    let r = d(r#"{"results":[{"name":"n","geometry":{"location":{"lat":1,"lng":2}}}]}"#);
    assert_eq!(r.unwrap_err(), AppError::Decode);
}

#[test]
fn missing_geometry_is_decode_error() {
    let r = d(r#"{"results":[{"name":"n","vicinity":"v"}]}"#);
    assert_eq!(r.unwrap_err(), AppError::Decode);
}

#[test]
fn missing_lat_is_decode_error() {
    let r = d(r#"{"results":[{"name":"n","vicinity":"v","geometry":{"location":{"lng":2}}}]}"#);
    assert_eq!(r.unwrap_err(), AppError::Decode);
}

#[test]
fn missing_lng_is_decode_error() {
    let r = d(r#"{"results":[{"name":"n","vicinity":"v","geometry":{"location":{"lat":1}}}]}"#);
    assert_eq!(r.unwrap_err(), AppError::Decode);
}

#[test]
fn missing_location_is_decode_error() {
    let r = d(r#"{"results":[{"name":"n","vicinity":"v","geometry":{}}]}"#);
    assert_eq!(r.unwrap_err(), AppError::Decode);
}

#[test]
fn unknown_fields_ignored_everywhere() {
    let plain = d(
        r#"{"results":[{"name":"n","vicinity":"v","geometry":{"location":{"lat":1,"lng":2}}}]}"#,
    )
    .unwrap();
    let extra = d(
        r#"{"status":"OK","results":[{"rating":4.5,"name":"n","tags":["a",{"x":null}],"vicinity":"v","geometry":{"viewport":{"a":1},"location":{"z":true,"lat":1,"lng":2}}}],"next_page_token":"t"}"#,
    )
    .unwrap();
    assert_eq!(plain.len(), extra.len());
    assert_eq!(plain[0].name, extra[0].name);
    assert_eq!(plain[0].vicinity, extra[0].vicinity);
    assert_eq!(plain[0].lat, extra[0].lat);
    assert_eq!(plain[0].lng, extra[0].lng);
    assert_eq!(plain[0].open_now, extra[0].open_now);
}

#[test]
fn opening_hours_present_true() {
    let r = d(
        r#"{"results":[{"name":"n","vicinity":"v","geometry":{"location":{"lat":1,"lng":2}},"opening_hours":{"open_now":true}}]}"#,
    )
    .unwrap();
    assert_eq!(r[0].open_now, Some(true));
}

#[test]
fn opening_hours_present_false_distinct_from_absent() {
    let r = d(
        r#"{"results":[{"name":"n","vicinity":"v","geometry":{"location":{"lat":1,"lng":2}},"opening_hours":{"open_now":false}}]}"#,
    )
    .unwrap();
    assert_eq!(r[0].open_now, Some(false));
    let absent = d(
        r#"{"results":[{"name":"n","vicinity":"v","geometry":{"location":{"lat":1,"lng":2}}}]}"#,
    )
    .unwrap();
    assert_eq!(absent[0].open_now, None);
    assert_ne!(r[0].open_now, absent[0].open_now);
}

#[test]
fn opening_hours_null_is_absent() {
    let r = d(
        r#"{"results":[{"name":"n","vicinity":"v","geometry":{"location":{"lat":1,"lng":2}},"opening_hours":null}]}"#,
    )
    .unwrap();
    assert_eq!(r[0].open_now, None);
}

#[test]
fn opening_hours_without_open_now_is_decode_error() {
    let r = d(
        r#"{"results":[{"name":"n","vicinity":"v","geometry":{"location":{"lat":1,"lng":2}},"opening_hours":{}}]}"#,
    );
    assert_eq!(r.unwrap_err(), AppError::Decode);
}

#[test]
fn duplicate_known_field_is_decode_error() {
    let r = d(
        r#"{"results":[{"name":"n","name":"m","vicinity":"v","geometry":{"location":{"lat":1,"lng":2}}}]}"#,
    );
    assert_eq!(r.unwrap_err(), AppError::Decode);
    let r2 = d(r#"{"results":[],"results":[]}"#);
    assert_eq!(r2.unwrap_err(), AppError::Decode);
}

#[test]
fn wrong_types_are_decode_errors() {
    assert_eq!(
        d(r#"{"results":[{"name":1,"vicinity":"v","geometry":{"location":{"lat":1,"lng":2}}}]}"#)
            .unwrap_err(),
        AppError::Decode
    );
    assert_eq!(
        d(r#"{"results":[{"name":"n","vicinity":"v","geometry":{"location":{"lat":"1","lng":2}}}]}"#)
            .unwrap_err(),
        AppError::Decode
    );
    assert_eq!(
        d(r#"{"results":[{"name":"n","vicinity":"v","geometry":{"location":{"lat":1,"lng":2}},"opening_hours":{"open_now":1}}]}"#)
            .unwrap_err(),
        AppError::Decode
    );
    assert_eq!(d(r#"{"results":["x"]}"#).unwrap_err(), AppError::Decode);
}

#[test]
fn string_escapes_are_decoded() {
    let r = d(
        r#"{"results":[{"name":"a\"b\\c\/d\n\tA","vicinity":"v","geometry":{"location":{"lat":1,"lng":2}}}]}"#,
    )
    .unwrap();
    assert_eq!(r[0].name, b"a\"b\\c/d\n\tA".to_vec());
}

#[test]
fn surrogate_pair_is_decoded_to_utf8() {
    let r = d(
        r#"{"results":[{"name":"😀","vicinity":"v","geometry":{"location":{"lat":1,"lng":2}}}]}"#,
    )
    .unwrap();
    assert_eq!(r[0].name, vec![0xf0, 0x9f, 0x98, 0x80]);
}

#[test]
fn lone_surrogate_is_decode_error() {
    let r = d(
        r#"{"results":[{"name":"\ud83d","vicinity":"v","geometry":{"location":{"lat":1,"lng":2}}}]}"#,
    );
    assert_eq!(r.unwrap_err(), AppError::Decode);
}

#[test]
fn unescaped_control_byte_is_decode_error() {
    let body = "{\"results\":[{\"name\":\"a\u{1}\",\"vicinity\":\"v\",\"geometry\":{\"location\":{\"lat\":1,\"lng\":2}}}]}";
    assert_eq!(d(body).unwrap_err(), AppError::Decode);
}

#[test]
fn number_grammar_is_enforced() {
    assert!(
        d(r#"{"results":[{"name":"n","vicinity":"v","geometry":{"location":{"lat":-1.5e-3,"lng":0.25E+2}}}]}"#)
            .is_ok()
    );
    assert_eq!(
        d(r#"{"results":[{"name":"n","vicinity":"v","geometry":{"location":{"lat":01,"lng":2}}}]}"#)
            .unwrap_err(),
        AppError::Decode
    );
    assert_eq!(
        d(r#"{"results":[{"name":"n","vicinity":"v","geometry":{"location":{"lat":1.,"lng":2}}}]}"#)
            .unwrap_err(),
        AppError::Decode
    );
}

#[test]
fn whitespace_is_tolerated() {
    let r = d(
        " \t\r\n{ \"results\" : [ { \"name\" : \"n\" , \"vicinity\" : \"v\" , \"geometry\" : { \"location\" : { \"lat\" : 1 , \"lng\" : 2 } } } ] } \n",
    )
    .unwrap();
    assert_eq!(r.len(), 1);
}

#[test]
fn trailing_garbage_is_decode_error() {
    assert_eq!(d(r#"{"results":[]}x"#).unwrap_err(), AppError::Decode);
    assert_eq!(d(r#"{"results":[]}{"results":[]}"#).unwrap_err(), AppError::Decode);
}

#[test]
fn trailing_comma_is_decode_error() {
    assert_eq!(d(r#"{"results":[],}"#).unwrap_err(), AppError::Decode);
}

#[test]
fn deeply_nested_unknown_values_are_skipped() {
    let r = d(
        r#"{"html_attributions":[[{"a":[1,[2,{"b":{"c":[true,false,null,"s",-1.5e2]}}]]}]],"results":[{"name":"n","vicinity":"v","geometry":{"location":{"lat":1,"lng":2}}}]}"#,
    )
    .unwrap();
    assert_eq!(r.len(), 1);
    assert_eq!(r[0].name, b"n".to_vec());
}

#[test]
fn empty_place_object_is_decode_error() {
    assert_eq!(d(r#"{"results":[{}]}"#).unwrap_err(), AppError::Decode);
}

#[test]
fn invalid_utf8_in_string_is_decode_error() {
    let prefix = b"{\"results\":[{\"name\":\"";
    let suffix = b"\",\"vicinity\":\"v\",\"geometry\":{\"location\":{\"lat\":1,\"lng\":2}}}]}";
    for bad in [
        vec![0xff],             // not a UTF-8 byte at all
        vec![0x80],             // lone continuation byte
        vec![0xc2],             // truncated two-byte sequence
        vec![0xc0, 0x80],       // overlong encoding
        vec![0xed, 0xa0, 0x80], // raw surrogate
        vec![0xe2, 0x80],       // truncated three-byte sequence
        vec![0xf0, 0x28, 0x8c, 0x28], // bad continuation bytes
    ] {
        let mut body = prefix.to_vec();
        body.extend_from_slice(&bad);
        body.extend_from_slice(suffix);
        assert_eq!(decode_places(&body).unwrap_err(), AppError::Decode);
    }
}

#[test]
fn multibyte_utf8_in_string_is_kept() {
    let r = d(
        r#"{"results":[{"name":"Müller 市場","vicinity":"v","geometry":{"location":{"lat":1,"lng":2}}}]}"#,
    )
    .unwrap();
    assert_eq!(r[0].name, "Müller 市場".as_bytes().to_vec());
}

#[test]
fn unknown_nesting_beyond_limit_is_decode_error() {
    let deep = format!(
        r#"{{"junk":{}{},"results":[]}}"#,
        "[".repeat(150),
        "]".repeat(150)
    );
    assert_eq!(d(&deep).unwrap_err(), AppError::Decode);
    let shallow = format!(
        r#"{{"junk":{}{},"results":[]}}"#,
        "[".repeat(50),
        "]".repeat(50)
    );
    assert_eq!(d(&shallow).unwrap().len(), 0);
}
