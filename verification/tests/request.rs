use grocery_recommender::model::{api_key_from_env, classify_status, get_user_location, AppError};
use grocery_recommender::text::trim_input;
use grocery_recommender::url::{build_search_url, pct_encode};

#[test]
fn missing_key_is_rejected_before_anything_else() {
    assert_eq!(api_key_from_env(None).unwrap_err(), AppError::MissingKey);
    assert_eq!(api_key_from_env(Some(Vec::new())).unwrap_err(), AppError::MissingKey);
}

#[test]
fn present_key_is_kept_verbatim() {
    let key = api_key_from_env(Some(b"abc123".to_vec())).unwrap();
    assert_eq!(key.bytes, b"abc123".to_vec());
}

#[test]
fn status_classification() {
    assert!(classify_status(200).is_ok());
    assert!(classify_status(204).is_ok());
    assert!(classify_status(299).is_ok());
    assert_eq!(classify_status(300).unwrap_err(), AppError::HttpStatus(300));
    assert_eq!(classify_status(403).unwrap_err(), AppError::HttpStatus(403));
    assert_eq!(classify_status(500).unwrap_err(), AppError::HttpStatus(500));
    assert_eq!(classify_status(199).unwrap_err(), AppError::HttpStatus(199));
}

#[test]
fn fixed_location() {
    let loc = get_user_location();
    assert_eq!(loc.lat_text, b"37.7749".to_vec());
    assert_eq!(loc.lng_text, b"-122.4194".to_vec());
}

#[test]
fn trim_strips_surrounding_whitespace() {
    assert_eq!(trim_input(&b"  milk \n".to_vec()), b"milk".to_vec());
    assert_eq!(trim_input(&b"milk\r\n".to_vec()), b"milk".to_vec());
    assert_eq!(trim_input(&b"a b\n".to_vec()), b"a b".to_vec());
    assert_eq!(trim_input(&b" \t \n".to_vec()), Vec::<u8>::new());
    assert_eq!(trim_input(&Vec::new()), Vec::<u8>::new());
}

#[test]
fn trim_strips_unicode_whitespace() {
    assert_eq!(trim_input(&"\u{A0}m\n".as_bytes().to_vec()), b"m".to_vec());
    assert_eq!(
        trim_input(&"\u{3000}お茶\u{3000}\n".as_bytes().to_vec()),
        "お茶".as_bytes().to_vec()
    );
    // interior white space is kept, only the edges are stripped
    assert_eq!(
        trim_input(&"a\u{A0}b".as_bytes().to_vec()),
        "a\u{A0}b".as_bytes().to_vec()
    );
}

#[test]
fn trim_matches_standard_trim() {
    for line in [
        "  milk \n",
        "\u{A0}\u{3000}tea\u{2009}\u{85}",
        "a\u{A0}b",
        "\u{1680}x\u{205F}",
        "",
        " \t\u{2028}\u{2029}\u{202F} ",
        "\u{2000}\u{200A}",
        "bread\u{B}\u{C}",
    ] {
        assert_eq!(
            trim_input(&line.as_bytes().to_vec()),
            line.trim().as_bytes().to_vec(),
        );
    }
}

#[test]
fn percent_encoding() {
    assert_eq!(
        pct_encode(&b"AZaz09-_.~".to_vec()),
        b"AZaz09-_.~".to_vec()
    );
    assert_eq!(pct_encode(&b"a b".to_vec()), b"a%20b".to_vec());
    assert_eq!(pct_encode(&"ü".as_bytes().to_vec()), b"%C3%BC".to_vec());
    assert_eq!(pct_encode(&b"k&e=y".to_vec()), b"k%26e%3Dy".to_vec());
}

#[test]
fn full_url() {
    let key = api_key_from_env(Some(b"k y".to_vec())).unwrap();
    let loc = get_user_location();
    let url = build_search_url(&key, &loc, &b"milk".to_vec());
    assert_eq!(
        String::from_utf8(url).unwrap(),
        "https://maps.googleapis.com/maps/api/place/nearbysearch/json?location=37.7749,-122.4194&radius=5000&type=grocery_or_supermarket&keyword=milk&key=k%20y"
    );
}

#[test]
fn food_item_with_spaces_is_encoded() {
    let key = api_key_from_env(Some(b"k".to_vec())).unwrap();
    let loc = get_user_location();
    let url = String::from_utf8(build_search_url(&key, &loc, &b"green tea".to_vec())).unwrap();
    assert!(url.contains("keyword=green%20tea"));
}
