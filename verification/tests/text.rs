use ghostty::text::{check_valid_utf8, lossy_string, terminated_lossy_string};

#[test]
fn ascii_passes_through() {
    assert_eq!(lossy_string(&b"hello world".to_vec()), "hello world");
    assert!(check_valid_utf8(&b"hello world".to_vec()));
}

#[test]
fn empty_input_decodes_empty() {
    assert_eq!(lossy_string(&Vec::new()), "");
    assert!(check_valid_utf8(&Vec::new()));
}

#[test]
fn multibyte_scalars_decode() {
    // two-, three- and four-byte encodings
    let two = vec![0xC3, 0xA9];
    assert_eq!(lossy_string(&two), "\u{E9}");
    let three = vec![0xE2, 0x82, 0xAC];
    assert_eq!(lossy_string(&three), "\u{20AC}");
    let four = vec![0xF0, 0x9F, 0x98, 0x80];
    assert_eq!(lossy_string(&four), "\u{1F600}");
    assert!(check_valid_utf8(&four));
}

#[test]
fn largest_scalar_is_valid() {
    let max = vec![0xF4, 0x8F, 0xBF, 0xBF];
    assert!(check_valid_utf8(&max));
    assert_eq!(lossy_string(&max), "\u{10FFFF}");
}

#[test]
fn stray_byte_is_replaced() {
    let bad = vec![b'a', 0xFF, b'b'];
    assert!(!check_valid_utf8(&bad));
    assert_eq!(lossy_string(&bad), "a\u{FFFD}b");
}

#[test]
fn overlong_encoding_is_rejected() {
    // 0xC0 0xAF would be an overlong encoding of '/'
    let overlong = vec![0xC0, 0xAF];
    assert!(!check_valid_utf8(&overlong));
    assert_eq!(lossy_string(&overlong), "\u{FFFD}\u{FFFD}");
}

#[test]
fn surrogate_encoding_is_rejected() {
    // 0xED 0xA0 0x80 would encode the surrogate U+D800; no byte after the
    // lead can extend it, so each byte is its own ill-formed subpart
    let surrogate = vec![0xED, 0xA0, 0x80];
    assert!(!check_valid_utf8(&surrogate));
    assert_eq!(lossy_string(&surrogate), "\u{FFFD}\u{FFFD}\u{FFFD}");
}

#[test]
fn out_of_range_scalar_is_rejected() {
    // 0xF4 0x90 0x80 0x80 would encode U+110000, past the last scalar; the
    // second byte cannot follow the lead, so four subparts result
    let too_big = vec![0xF4, 0x90, 0x80, 0x80];
    assert!(!check_valid_utf8(&too_big));
    assert_eq!(lossy_string(&too_big), "\u{FFFD}\u{FFFD}\u{FFFD}\u{FFFD}");
}

#[test]
fn truncated_scalar_is_one_subpart() {
    // 0xE2 0x82 is the longest well-formed prefix of a three-byte encoding:
    // one maximal subpart, one replacement character
    let truncated = vec![b'o', b'k', 0xE2, 0x82];
    assert!(!check_valid_utf8(&truncated));
    assert_eq!(lossy_string(&truncated), "ok\u{FFFD}");
}

#[test]
fn maximal_subparts_take_one_replacement_each() {
    // two bytes of a three-byte encoding, cut short by a valid character
    assert_eq!(lossy_string(&vec![0xE2, 0x82, b'x']), "\u{FFFD}x");
    // two and three bytes of a four-byte encoding
    assert_eq!(lossy_string(&vec![0xF0, 0x9F]), "\u{FFFD}");
    assert_eq!(lossy_string(&vec![0xF0, 0x9F, 0x98]), "\u{FFFD}");
    assert_eq!(lossy_string(&vec![0xF0, 0x9F, 0x98, b'!']), "\u{FFFD}!");
    // a lone lead is a subpart of its own
    assert_eq!(lossy_string(&vec![b'a', 0xE2, b'b']), "a\u{FFFD}b");
    // 0x80 cannot follow 0xE0 (it would be overlong), so two subparts
    assert_eq!(lossy_string(&vec![0xE0, 0x80]), "\u{FFFD}\u{FFFD}");
}

#[test]
fn terminated_prefix_stops_at_zero() {
    let buffer = b"first\0second".to_vec();
    assert_eq!(terminated_lossy_string(&buffer), "first");
    let unterminated = b"whole".to_vec();
    assert_eq!(terminated_lossy_string(&unterminated), "whole");
}
