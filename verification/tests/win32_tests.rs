use retropad::text::{push_decimal, push_digits, push_str};
use retropad::unicode::chars_of;
use retropad::win32::{
    fit_to_buffer, make_int_resource, nul_position, string_from_wide_lossy, text_from_wide_buffer,
    wide_from_str,
};

#[test]
fn make_int_resource_keeps_the_identifier() {
    assert_eq!(make_int_resource(103), 103usize);
    assert_eq!(make_int_resource(0xFFFF), 0xFFFFusize);
}

#[test]
fn wide_strings_are_nul_terminated_utf16() {
    assert_eq!(wide_from_str("A\u{1F600}"), vec![0x41, 0xD83D, 0xDE00, 0]);
    assert_eq!(wide_from_str(""), vec![0]);
}

#[test]
fn nul_position_finds_the_first_nul() {
    assert_eq!(nul_position(&[0x41, 0x42, 0, 0x43, 0]), 2);
    assert_eq!(nul_position(&[0x41, 0x42]), 2);
    assert_eq!(nul_position(&[]), 0);
}

#[test]
fn lossy_buffer_text_replaces_unpaired_surrogates() {
    assert_eq!(string_from_wide_lossy(&[0x68, 0xD800, 0x69, 0, 0x7A]), "h\u{FFFD}i");
}

#[test]
fn strict_buffer_text_refuses_unpaired_surrogates() {
    assert_eq!(text_from_wide_buffer(&[0x68, 0xDC00, 0]), None);
    assert_eq!(text_from_wide_buffer(&[0x68, 0x69, 0, 0xDC00]), Some("hi".to_string()));
    assert_eq!(text_from_wide_buffer(&[]), Some(String::new()));
}

#[test]
fn fit_to_buffer_pads_and_cuts() {
    assert_eq!(fit_to_buffer(&[1, 2], 4), vec![1, 2, 0, 0]);
    assert_eq!(fit_to_buffer(&[1, 2, 3], 2), vec![1, 2]);
}

#[test]
fn characters_of_a_string() {
    assert_eq!(chars_of("aé\u{10000}"), vec!['a', 'é', '\u{10000}']);
    assert_eq!(chars_of(""), Vec::<char>::new());
}

#[test]
fn wide_strings_use_surrogate_pairs_above_the_basic_plane() {
    assert_eq!(wide_from_str("é\u{10000}"), vec![0xE9, 0xD800, 0xDC00, 0]);
}

#[test]
fn decimal_text() {
    let mut out = Vec::new();
    push_decimal(&mut out, -120);
    push_str(&mut out, " / ");
    push_decimal(&mut out, 0);
    push_str(&mut out, " / ");
    push_digits(&mut out, 907);
    push_str(&mut out, " / ");
    push_decimal(&mut out, i64::MIN);
    let s: String = out.into_iter().collect();
    assert_eq!(s, "-120 / 0 / 907 / -9223372036854775808");
}
