//! The fixture scenarios, run through the library end to end: the HTTP and
//! terminal edges are replaced by the canned values they would hand over.

use grocery_recommender::json::decode_places;
use grocery_recommender::model::{api_key_from_env, classify_status, AppError};
use grocery_recommender::output::{render_error, render_results};
use grocery_recommender::text::trim_input;

fn run(food: &str, body: &str) -> Result<String, AppError> {
    let places = decode_places(&body.as_bytes().to_vec())?;
    let out = render_results(&food.as_bytes().to_vec(), &places);
    Ok(String::from_utf8(out).unwrap())
}

#[test]
fn milk_empty_results() {
    let out = run("milk", r#"{"results":[]}"#).unwrap();
    assert!(out.ends_with("No nearby grocery stores found for milk.\n"));
}

#[test]
fn bread_one_store() {
    let out = run(
        "bread",
        r#"{"results":[{"name":"Acme Market","vicinity":"123 Main St","geometry":{"location":{"lat":37.77,"lng":-122.42}}}]}"#,
    )
    .unwrap();
    assert!(out.contains("Acme Market - 123 Main St"));
}

#[test]
fn rice_keeps_order() {
    let out = run(
        "rice",
        r#"{"results":[
            {"name":"A","vicinity":"first","geometry":{"location":{"lat":1,"lng":2}}},
            {"name":"B","vicinity":"second","geometry":{"location":{"lat":3,"lng":4}}}
        ]}"#,
    )
    .unwrap();
    assert!(out.find("A - first").unwrap() < out.find("B - second").unwrap());
}

#[test]
fn tea_http_403() {
    // A 403 answer stops the run before any decoding; the diagnostic names
    // the status and no place line is produced.
    let status = classify_status(403);
    let e = status.unwrap_err();
    assert_eq!(e, AppError::HttpStatus(403));
    let msg = String::from_utf8(render_error(&e)).unwrap();
    assert_eq!(msg, "the places service returned HTTP status 403");
}

#[test]
fn eggs_body_not_json() {
    let e = run("eggs", "not json").unwrap_err();
    assert_eq!(e, AppError::Decode);
    let msg = String::from_utf8(render_error(&e)).unwrap();
    assert!(msg.contains("decode"));
}

#[test]
fn unset_key_fails_before_any_request() {
    // The driver asks for the key first; with none there is an error before
    // any URL is even built.
    assert_eq!(api_key_from_env(None).unwrap_err(), AppError::MissingKey);
}

#[test]
fn input_line_is_trimmed_before_use() {
    let food = trim_input(&b" milk\n".to_vec());
    let out = run(std::str::from_utf8(&food).unwrap(), r#"{"results":[]}"#).unwrap();
    assert_eq!(out, "No nearby grocery stores found for milk.\n");
}

#[test]
fn empty_food_item_is_passed_through() {
    let out = run("", r#"{"results":[]}"#).unwrap();
    assert_eq!(out, "No nearby grocery stores found for .\n");
}
