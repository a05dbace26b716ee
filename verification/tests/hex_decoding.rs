use spotify_dl_server::hex::{decode_hex, decode_hex_checked, IntErrorCause};
use std::num::IntErrorKind;

fn hex_of(text: &str, upper: bool) -> String {
    let mut out = String::new();
    for b in text.as_bytes() {
        if upper {
            out.push_str(&format!("{:02X}", b));
        } else {
            out.push_str(&format!("{:02x}", b));
        }
    }
    out
}

#[test]
fn decodes_lowercase_hex() {
    assert_eq!(decode_hex("68656c6c6f").unwrap(), "hello");
}

#[test]
fn decodes_uppercase_hex() {
    assert_eq!(decode_hex("48454C4C4F").unwrap(), "HELLO");
}

#[test]
fn decodes_empty_input_to_empty_text() {
    assert_eq!(decode_hex("").unwrap(), "");
}

#[test]
fn plus_sign_pair_is_a_single_digit() {
    // `u8::from_str_radix` accepts a leading `+`: "+a" is the byte 0x0a.
    assert_eq!(decode_hex("+a41").unwrap(), "\nA");
}

#[test]
fn bad_pair_gives_the_parse_error() {
    let err = decode_hex("41zz").unwrap_err();
    let expected = u8::from_str_radix("zz", 16).unwrap_err();
    assert_eq!(err.error, expected);
    assert_eq!(err.cause, IntErrorCause::InvalidDigit);
    assert_eq!(*err.error.kind(), IntErrorKind::InvalidDigit);
    assert_eq!(err.error.to_string(), "invalid digit found in string");
}

#[test]
fn bad_pair_stops_before_an_odd_tail() {
    // The first pair fails before the odd byte at the end is reached.
    assert!(matches!(decode_hex_checked("zz1"), Some(Err(_))));
}

#[test]
fn odd_length_is_not_decodable() {
    assert!(decode_hex_checked("414").is_none());
}

#[test]
fn invalid_utf8_is_not_decodable() {
    assert!(decode_hex_checked("ff").is_none());
    assert!(decode_hex_checked("c328").is_none());
}

#[test]
fn pair_cutting_a_character_is_not_decodable() {
    // '€' takes three bytes, so the first pair ends inside it.
    assert!(decode_hex_checked("€a").is_none());
}

#[test]
fn two_byte_character_pair_is_a_bad_pair() {
    // 'é' takes exactly two bytes: the pair is whole but not hex.
    assert!(matches!(decode_hex_checked("é"), Some(Err(_))));
}

#[test]
fn multibyte_text_round_trips() {
    let text = "grüße, 東京 🎵";
    let hex = hex_of(text, false);
    assert_eq!(decode_hex(&hex).unwrap(), text);
    assert_eq!(decode_hex_checked(&hex).unwrap().unwrap(), text);
}

#[test]
fn redirect_address_round_trips_in_both_cases() {
    let url = "http://127.0.0.1:3001/static/forward.html?code=AQB-x_9&state=Ab0-_.~zZ9yY8xX7";
    assert_eq!(decode_hex(&hex_of(url, false)).unwrap(), url);
    assert_eq!(decode_hex(&hex_of(url, true)).unwrap(), url);
}

#[test]
fn checked_decoding_agrees_on_good_input() {
    assert_eq!(decode_hex_checked("4142").unwrap().unwrap(), "AB");
}

#[test]
fn zz_is_an_invalid_digit() {
    let err = decode_hex("zz").unwrap_err();
    assert_eq!(err.cause, IntErrorCause::InvalidDigit);
    assert_eq!(*err.error.kind(), IntErrorKind::InvalidDigit);
    assert_eq!(err.error.to_string(), "invalid digit found in string");
}

#[test]
fn lone_plus_pair_is_an_invalid_digit() {
    // "+" followed by a non-digit, and a digit followed by "+", are both invalid.
    for code in ["+g", "a+", "++", "-1"] {
        let err = decode_hex(code).unwrap_err();
        assert_eq!(err.cause, IntErrorCause::InvalidDigit);
        assert_eq!(*err.error.kind(), IntErrorKind::InvalidDigit);
    }
}

#[test]
fn ascii_errors_are_always_invalid_digits() {
    for code in ["0g", "g0", " 1", "1 ", "x1y2", "4142zz43"] {
        match decode_hex_checked(code) {
            Some(Err(err)) => assert_eq!(*err.error.kind(), IntErrorKind::InvalidDigit),
            other => panic!("{:?} gave {:?}", code, other.map(|r| r.map_err(|e| e.cause))),
        }
    }
}

#[test]
fn error_carries_the_text_its_error_displays() {
    let err = decode_hex("41g2").unwrap_err();
    assert_eq!(err.message, err.error.to_string());
    assert_eq!(err.message, u8::from_str_radix("g2", 16).unwrap_err().to_string());
}

#[test]
fn decoding_a_concatenation_concatenates() {
    let a = "68747470"; // "http"
    let b = "3a2f2fc3a9"; // "://é"
    let joined = format!("{}{}", a, b);
    let whole = decode_hex(&joined).unwrap();
    assert_eq!(whole, decode_hex(a).unwrap() + &decode_hex(b).unwrap());
    assert_eq!(whole, "http://é");
}
