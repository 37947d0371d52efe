use semerak::errors::ErrorKind;
use semerak::obfusc::{handle_obfuscation, ObfuscRequest};

fn request(content: &str, job: &str) -> ObfuscRequest {
    ObfuscRequest { content: content.to_string(), job: job.to_string() }
}

#[test]
fn encode_renders_decimal_references() {
    let out = handle_obfuscation(&request("AB", "encode")).unwrap();
    assert_eq!(out, "&#65;&#66;");
}

#[test]
fn encode_of_empty_content_is_empty() {
    let out = handle_obfuscation(&request("", "encode")).unwrap();
    assert_eq!(out, "");
}

#[test]
fn encode_handles_wide_characters() {
    let out = handle_obfuscation(&request("é!", "encode")).unwrap();
    assert_eq!(out, "&#233;&#33;");
}

#[test]
fn decode_accepts_single_digit_references() {
    let out = handle_obfuscation(&request("x#5", "decode")).unwrap();
    assert_eq!(out, "5");
    let out = handle_obfuscation(&request("#1;#2;#3", "decode")).unwrap();
    assert_eq!(out, "123");
}

#[test]
fn decode_rejects_values_of_ten_or_more() {
    assert_eq!(
        handle_obfuscation(&request("&#65", "decode")),
        Err(ErrorKind::Malformed)
    );
}

#[test]
fn decode_rejects_a_piece_without_a_hash() {
    assert_eq!(handle_obfuscation(&request("abc", "decode")), Err(ErrorKind::Malformed));
    assert_eq!(handle_obfuscation(&request("", "decode")), Err(ErrorKind::Malformed));
}

#[test]
fn decode_rejects_a_trailing_separator() {
    // Splitting on `;` leaves a final empty piece, which has no `#`.
    assert_eq!(handle_obfuscation(&request("#5;", "decode")), Err(ErrorKind::Malformed));
}

#[test]
fn decode_rejects_unparsable_numbers() {
    assert_eq!(handle_obfuscation(&request("#x5", "decode")), Err(ErrorKind::Malformed));
    assert_eq!(handle_obfuscation(&request("#", "decode")), Err(ErrorKind::Malformed));
}

#[test]
fn unknown_job_is_rejected() {
    assert_eq!(handle_obfuscation(&request("abc", "rot13")), Err(ErrorKind::Malformed));
    assert_eq!(handle_obfuscation(&request("abc", "Encode")), Err(ErrorKind::Malformed));
}
