use grocery_recommender::model::{AppError, Place};
use grocery_recommender::output::{dec_u16, prompt, render_error, render_results};

fn place(name: &str, vicinity: &str) -> Place {
    Place {
        name: name.as_bytes().to_vec(),
        vicinity: vicinity.as_bytes().to_vec(),
        lat: b"37.77".to_vec(),
        lng: b"-122.42".to_vec(),
        open_now: None,
    }
}

#[test]
fn no_results_message() {
    let out = render_results(&b"milk".to_vec(), &Vec::new());
    assert_eq!(out, b"No nearby grocery stores found for milk.\n".to_vec());
}

#[test]
fn header_and_one_line() {
    let out = render_results(&b"bread".to_vec(), &vec![place("Acme Market", "123 Main St")]);
    let text = String::from_utf8(out).unwrap();
    assert_eq!(
        text,
        "Recommended grocery stores for bread: \nAcme Market - 123 Main St\n"
    );
    assert!(text.contains("Acme Market - 123 Main St"));
}

#[test]
fn lines_keep_response_order() {
    let out = render_results(&b"rice".to_vec(), &vec![place("A", "a st"), place("B", "b st")]);
    let text = String::from_utf8(out).unwrap();
    let pos_a = text.find("A - a st").unwrap();
    let pos_b = text.find("B - b st").unwrap();
    assert!(pos_a < pos_b);
}

#[test]
fn line_count_matches_place_count() {
    let places = vec![place("A", "a"), place("B", "b"), place("C", "c")];
    let out = render_results(&b"tea".to_vec(), &places);
    let text = String::from_utf8(out).unwrap();
    assert_eq!(text.matches('\n').count(), places.len() + 1);
    let out0 = render_results(&b"tea".to_vec(), &Vec::new());
    assert_eq!(String::from_utf8(out0).unwrap().matches('\n').count(), 1);
}

#[test]
fn prompt_text() {
    assert_eq!(prompt(), b"Enter the name of a food item: ".to_vec());
}

#[test]
fn decimal_rendering() {
    assert_eq!(dec_u16(0), b"0".to_vec());
    assert_eq!(dec_u16(7), b"7".to_vec());
    assert_eq!(dec_u16(403), b"403".to_vec());
    assert_eq!(dec_u16(65535), b"65535".to_vec());
}

#[test]
fn error_messages() {
    assert_eq!(
        render_error(&AppError::MissingKey),
        b"Please set the GOOGLE_API_KEY environment variable".to_vec()
    );
    assert_eq!(
        render_error(&AppError::InputFailed),
        b"could not read a food item from standard input".to_vec()
    );
    assert_eq!(
        render_error(&AppError::Network),
        b"network error while contacting the places service".to_vec()
    );
    assert_eq!(
        render_error(&AppError::HttpStatus(403)),
        b"the places service returned HTTP status 403".to_vec()
    );
    assert_eq!(
        render_error(&AppError::Decode),
        b"could not decode the places service response".to_vec()
    );
}

#[test]
fn rendered_output_cannot_carry_the_key() {
    // The rendering functions do not take the key; feed a recognizable key
    // through the rest of the pipeline and check no printed text holds it.
    let key_text = "SECRET-REDACTED";
    let out = render_results(&b"milk".to_vec(), &vec![place("A", "a st")]);
    assert!(!String::from_utf8(out).unwrap().contains(key_text));
    for e in [
        AppError::MissingKey,
        AppError::InputFailed,
        AppError::Network,
        AppError::HttpStatus(403),
        AppError::Decode,
    ] {
        let msg = String::from_utf8(render_error(&e)).unwrap();
        assert!(!msg.contains(key_text));
    }
}
