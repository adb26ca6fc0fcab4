use retropad::file_io::{
    decode_file_contents, decode_to_string, detect_encoding, encode_for_save, file_dialog_filter,
    open_dialog_buffer, save_dialog_buffer, units_from_bytes, utf16le_bom_bytes, utf8_bom_bytes,
    TextEncoding,
};

fn wide(s: &str) -> Vec<u16> {
    s.encode_utf16().collect()
}

#[test]
fn default_encoding_is_utf8() {
    assert_eq!(TextEncoding::default(), TextEncoding::Utf8);
}

#[test]
fn detects_utf16_le_bom() {
    assert_eq!(detect_encoding(&[0xFF, 0xFE, 0x41, 0x00]), TextEncoding::Utf16Le);
}

#[test]
fn detects_utf16_be_bom() {
    assert_eq!(detect_encoding(&[0xFE, 0xFF, 0x00, 0x41]), TextEncoding::Utf16Be);
}

#[test]
fn detects_utf8_bom() {
    assert_eq!(detect_encoding(&[0xEF, 0xBB, 0xBF, b'h', b'i']), TextEncoding::Utf8);
}

#[test]
fn detects_plain_utf8_without_bom() {
    assert_eq!(detect_encoding("héllo".as_bytes()), TextEncoding::Utf8);
    assert_eq!(detect_encoding(b""), TextEncoding::Utf8);
}

#[test]
fn falls_back_to_ansi_for_malformed_utf8() {
    assert_eq!(detect_encoding(&[b'c', b'a', b'f', 0xE9]), TextEncoding::Ansi);
    assert_eq!(detect_encoding(&[0xFF]), TextEncoding::Ansi);
}

#[test]
fn reads_units_in_both_byte_orders() {
    let data = [0x41, 0x00, 0x42, 0x01, 0x07];
    assert_eq!(units_from_bytes(&data, 0, true), vec![0x0041, 0x0142]);
    assert_eq!(units_from_bytes(&data, 0, false), vec![0x4100, 0x4201]);
    assert_eq!(units_from_bytes(&data, 1, true), vec![0x4200, 0x0701]);
}

#[test]
fn decodes_utf16_le_with_and_without_bom() {
    let with_bom = [0xFF, 0xFE, b'h', 0, b'i', 0];
    assert_eq!(decode_to_string(&with_bom, TextEncoding::Utf16Le, &[]), Some("hi".to_string()));
    let without_bom = [b'o', 0, b'k', 0, b'!'];
    assert_eq!(decode_to_string(&without_bom, TextEncoding::Utf16Le, &[]), Some("ok".to_string()));
    assert_eq!(decode_to_string(&[0x41], TextEncoding::Utf16Le, &[]), None);
}

#[test]
fn decodes_utf16_le_lone_surrogate_as_replacement() {
    let data = [0xFF, 0xFE, 0x00, 0xD8, b'x', 0];
    assert_eq!(decode_to_string(&data, TextEncoding::Utf16Le, &[]), Some("\u{FFFD}x".to_string()));
}

#[test]
fn decodes_utf16_be_with_bom() {
    let data = [0xFE, 0xFF, 0, b'h', 0, b'i'];
    assert_eq!(decode_to_string(&data, TextEncoding::Utf16Be, &[]), Some("hi".to_string()));
    assert_eq!(decode_to_string(&[0xFE], TextEncoding::Utf16Be, &[]), None);
}

#[test]
fn decodes_utf8_and_strips_its_bom() {
    let data = [0xEF, 0xBB, 0xBF, b'a', b'b'];
    assert_eq!(decode_to_string(&data, TextEncoding::Utf8, &[]), Some("ab".to_string()));
    assert_eq!(decode_to_string(&[0xC3, 0x28], TextEncoding::Utf8, &[]), None);
}

#[test]
fn decodes_ansi_from_the_system_conversion() {
    let converted = wide("café");
    assert_eq!(
        decode_to_string(&[b'c', b'a', b'f', 0xE9], TextEncoding::Ansi, &converted),
        Some("café".to_string())
    );
    assert_eq!(decode_to_string(&[0xE9], TextEncoding::Ansi, &[]), None);
    assert_eq!(decode_to_string(&[0xE9], TextEncoding::Ansi, &[0xDC00]), None);
}

#[test]
fn loading_an_empty_file_gives_empty_utf8_text() {
    assert_eq!(decode_file_contents(&[], &[]), Some((String::new(), TextEncoding::Utf8)));
}

#[test]
fn loading_detects_then_decodes() {
    let data = [0xFF, 0xFE, b'z', 0];
    assert_eq!(decode_file_contents(&data, &[]), Some(("z".to_string(), TextEncoding::Utf16Le)));
    assert_eq!(decode_file_contents(&[0xE9], &[]), None);
    assert_eq!(
        decode_file_contents(&[0xE9], &wide("é")),
        Some(("é".to_string(), TextEncoding::Ansi))
    );
}

#[test]
fn utf8_save_bytes_have_a_bom() {
    assert_eq!(utf8_bom_bytes("é"), vec![0xEF, 0xBB, 0xBF, 0xC3, 0xA9]);
}

#[test]
fn utf16le_save_bytes_have_a_bom_and_low_bytes_first() {
    assert_eq!(utf16le_bom_bytes("A\u{1F600}"), vec![0xFF, 0xFE, 0x41, 0x00, 0x3D, 0xD8, 0x00, 0xDE]);
}

#[test]
fn save_bytes_for_each_encoding() {
    assert_eq!(encode_for_save("hi", TextEncoding::Utf8, &[]), Some(vec![0xEF, 0xBB, 0xBF, b'h', b'i']));
    assert_eq!(encode_for_save("hi", TextEncoding::Utf16Be, &[]), Some(vec![0xEF, 0xBB, 0xBF, b'h', b'i']));
    assert_eq!(encode_for_save("hi", TextEncoding::Utf16Le, &[]), Some(vec![0xFF, 0xFE, b'h', 0, b'i', 0]));
    assert_eq!(encode_for_save("hi", TextEncoding::Ansi, &[b'h', b'i']), Some(vec![b'h', b'i']));
    assert_eq!(encode_for_save("hi", TextEncoding::Ansi, &[]), None);
}

#[test]
fn saved_text_loads_back_unchanged() {
    let text = "line one\r\nzweite Zeile: äöü \u{1F600}";
    for enc in [TextEncoding::Utf8, TextEncoding::Utf16Le, TextEncoding::Utf16Be] {
        let bytes = encode_for_save(text, enc, &[]).unwrap();
        let (back, back_enc) = decode_file_contents(&bytes, &[]).unwrap();
        assert_eq!(back, text);
        let expected = if enc == TextEncoding::Utf16Le { TextEncoding::Utf16Le } else { TextEncoding::Utf8 };
        assert_eq!(back_enc, expected);
    }
}

#[test]
fn empty_document_round_trips() {
    for enc in [TextEncoding::Utf8, TextEncoding::Utf16Le] {
        let bytes = encode_for_save("", enc, &[]).unwrap();
        let (back, back_enc) = decode_file_contents(&bytes, &[]).unwrap();
        assert_eq!(back, "");
        assert_eq!(back_enc, enc);
    }
}

#[test]
fn file_dialog_filter_lists_text_and_all_files() {
    let mut expected = wide("Text Files (*.txt)");
    expected.push(0);
    expected.extend(wide("*.txt"));
    expected.push(0);
    expected.extend(wide("All Files (*.*)"));
    expected.push(0);
    expected.extend(wide("*.*"));
    expected.push(0);
    expected.push(0);
    expected.push(0);
    assert_eq!(file_dialog_filter(), expected);
}

#[test]
fn save_dialog_buffer_starts_with_the_path() {
    let buf = save_dialog_buffer("C:\\notes.txt");
    assert_eq!(buf.len(), 260);
    assert_eq!(&buf[..12], wide("C:\\notes.txt").as_slice());
    assert!(buf[12..].iter().all(|&u| u == 0));
}

#[test]
fn save_dialog_buffer_offers_txt_for_a_new_document() {
    let buf = save_dialog_buffer("");
    assert_eq!(buf.len(), 260);
    assert_eq!(&buf[..5], wide("*.txt").as_slice());
    assert_eq!(buf[5], 0);
}

#[test]
fn save_dialog_buffer_cuts_a_long_path() {
    let long = "x".repeat(300);
    let buf = save_dialog_buffer(&long);
    assert_eq!(buf.len(), 260);
    assert!(buf.iter().all(|&u| u == 'x' as u16));
}

#[test]
fn open_dialog_buffer_is_empty() {
    let buf = open_dialog_buffer();
    assert_eq!(buf, vec![0u16; 260]);
}
