use vstd::prelude::*;
use vstd::utf8::*;
use crate::unicode::{
    lemma_decode_encode_utf16, utf16_units,
    decode_utf16_lossy, encode_utf16, is_valid_utf8, string_from_utf16, string_from_utf16_lossy,
    string_from_utf8, valid_utf16,
};
use crate::win32::{fit_buffer, fit_to_buffer, wide_from_str, MAX_PATH};

verus! {

broadcast use vstd::seq::group_seq_axioms;

/// The encodings a document is read in and written back in.
#[derive(Clone, Copy, PartialEq, Eq, Structural, Debug)]
pub enum TextEncoding {
    Utf8,
    Utf16Le,
    Utf16Be,
    Ansi,
}

impl Default for TextEncoding {
    fn default() -> (r: TextEncoding)
        ensures
            r == TextEncoding::Utf8,
    {
        TextEncoding::Utf8
    }
}

/// The bytes start with the UTF-16 little-endian byte order mark FF FE.
pub open spec fn has_utf16le_bom(d: Seq<u8>) -> bool {
    d.len() >= 2 && d[0] == 0xFF && d[1] == 0xFE
}

/// The bytes start with the UTF-16 big-endian byte order mark FE FF.
pub open spec fn has_utf16be_bom(d: Seq<u8>) -> bool {
    d.len() >= 2 && d[0] == 0xFE && d[1] == 0xFF
}

/// The bytes start with the UTF-8 byte order mark EF BB BF.
pub open spec fn has_utf8_bom(d: Seq<u8>) -> bool {
    d.len() >= 3 && d[0] == 0xEF && d[1] == 0xBB && d[2] == 0xBF
}

/// The encoding a file's bytes are taken to be in: a byte order mark decides,
/// else well-formed UTF-8 is UTF-8 and anything else is the ANSI code page.
pub open spec fn spec_detect_encoding(d: Seq<u8>) -> TextEncoding {
    if has_utf16le_bom(d) {
        TextEncoding::Utf16Le
    } else if has_utf16be_bom(d) {
        TextEncoding::Utf16Be
    } else if has_utf8_bom(d) {
        TextEncoding::Utf8
    } else if valid_utf8(d) {
        TextEncoding::Utf8
    } else {
        TextEncoding::Ansi
    }
}

/// Code units read two bytes at a time, low byte first; an odd last byte is dropped.
pub open spec fn le_units(b: Seq<u8>) -> Seq<u16> {
    Seq::new(b.len() / 2, |i: int| (b[2 * i] + 256 * b[2 * i + 1]) as u16)
}

/// Code units read two bytes at a time, high byte first; an odd last byte is dropped.
pub open spec fn be_units(b: Seq<u8>) -> Seq<u16> {
    Seq::new(b.len() / 2, |i: int| (256 * b[2 * i] + b[2 * i + 1]) as u16)
}

/// Code units written two bytes each, low byte first.
pub open spec fn le_bytes(u: Seq<u16>) -> Seq<u8> {
    Seq::new(
        2 * u.len(),
        |i: int|
            if i % 2 == 0 {
                (u[i / 2] % 256) as u8
            } else {
                (u[i / 2] / 256) as u8
            },
    )
}

/// The text a file's bytes hold in the given encoding, or `None` where they do
/// not decode. For the ANSI code page, `ansi_wide` is what the system's
/// conversion of the bytes produced (empty when it produced nothing).
pub open spec fn spec_decode(data: Seq<u8>, enc: TextEncoding, ansi_wide: Seq<u16>) -> Option<
    Seq<char>,
> {
    match enc {
        TextEncoding::Utf16Le => if data.len() < 2 {
            None
        } else {
            let body = if has_utf16le_bom(data) { data.skip(2) } else { data };
            Some(decode_utf16_lossy(le_units(body)))
        },
        TextEncoding::Utf16Be => if data.len() < 2 {
            None
        } else {
            let body = if has_utf16be_bom(data) { data.skip(2) } else { data };
            Some(decode_utf16_lossy(be_units(body)))
        },
        TextEncoding::Utf8 => {
            let body = if has_utf8_bom(data) { data.skip(3) } else { data };
            if valid_utf8(body) {
                Some(decode_utf8(body))
            } else {
                None
            }
        },
        TextEncoding::Ansi => if ansi_wide.len() == 0 || !valid_utf16(ansi_wide) {
            None
        } else {
            Some(decode_utf16_lossy(ansi_wide))
        },
    }
}

/// What loading a file's bytes yields: an empty file is empty UTF-8 text,
/// anything else is decoded in the encoding detected for it.
pub open spec fn spec_load(data: Seq<u8>, ansi_wide: Seq<u16>) -> Option<(Seq<char>, TextEncoding)> {
    if data.len() == 0 {
        Some((Seq::<char>::empty(), TextEncoding::Utf8))
    } else {
        let enc = spec_detect_encoding(data);
        match spec_decode(data, enc, ansi_wide) {
            Some(t) => Some((t, enc)),
            None => None,
        }
    }
}

/// The bytes a document is saved as. UTF-8 and UTF-16 big-endian documents are
/// both written as UTF-8 with a byte order mark; UTF-16 little-endian ones get
/// their byte order mark and little-endian units; ANSI documents are what the
/// system's conversion of the text produced, and fail to save when that is empty.
pub open spec fn spec_save_bytes(text: Seq<char>, enc: TextEncoding, ansi_bytes: Seq<u8>) -> Option<
    Seq<u8>,
> {
    match enc {
        TextEncoding::Utf16Le => Some(seq![0xFFu8, 0xFEu8] + le_bytes(encode_utf16(text))),
        TextEncoding::Ansi => if ansi_bytes.len() == 0 {
            None
        } else {
            Some(ansi_bytes)
        },
        _ => Some(seq![0xEFu8, 0xBBu8, 0xBFu8] + encode_utf8(text)),
    }
}

/// Picks the encoding of a file from its first bytes.
pub fn detect_encoding(data: &[u8]) -> (r: TextEncoding)
    ensures
        r == spec_detect_encoding(data@),
{
    if data.len() >= 2 && data[0] == 0xFF && data[1] == 0xFE {
        return TextEncoding::Utf16Le;
    }
    if data.len() >= 2 && data[0] == 0xFE && data[1] == 0xFF {
        return TextEncoding::Utf16Be;
    }
    if data.len() >= 3 && data[0] == 0xEF && data[1] == 0xBB && data[2] == 0xBF {
        return TextEncoding::Utf8;
    }
    if is_valid_utf8(data) {
        TextEncoding::Utf8
    } else {
        TextEncoding::Ansi
    }
}

/// Reads the bytes from `start` on as 16-bit units, low byte first when
/// `little_endian`, high byte first otherwise; an odd last byte is dropped.
pub fn units_from_bytes(data: &[u8], start: usize, little_endian: bool) -> (r: Vec<u16>)
    requires
        start <= data@.len(),
    ensures
        little_endian ==> r@ == le_units(data@.skip(start as int)),
        !little_endian ==> r@ == be_units(data@.skip(start as int)),
{
    let ghost body = data@.skip(start as int);
    let count: usize = (data.len() - start) / 2;
    let mut r: Vec<u16> = Vec::new();
    let mut i: usize = 0;
    while i < count
        invariant
            i <= count,
            count == body.len() / 2,
            body == data@.skip(start as int),
            body.len() == data@.len() - start,
            start <= data@.len(),
            r@.len() == i,
            little_endian ==> forall|k: int| 0 <= k < i ==> r@[k] == le_units(body)[k],
            !little_endian ==> forall|k: int| 0 <= k < i ==> r@[k] == be_units(body)[k],
        decreases count - i,
    {
        assert(2 * i + 1 < body.len());
        assert(start + 2 * i + 1 < data.len());
        let j: usize = start + 2 * i;
        let a = data[j] as u16;
        let b = data[j + 1] as u16;
        assert(body[2 * i as int] == a && body[2 * i + 1] == b);
        let u: u16 = if little_endian {
            a + 256 * b
        } else {
            256 * a + b
        };
        r.push(u);
        i = i + 1;
    }
    proof {
        if little_endian {
            assert(r@ =~= le_units(body));
        } else {
            assert(r@ =~= be_units(body));
        }
    }
    r
}

/// Decodes a file's bytes in the given encoding. For the ANSI code page,
/// `ansi_wide` is what the system's conversion of `data` produced (empty when it
/// produced nothing); the other encodings ignore it.
pub fn decode_to_string(data: &[u8], encoding: TextEncoding, ansi_wide: &[u16]) -> (r: Option<
    String,
>)
    ensures
        r matches Some(s) ==> spec_decode(data@, encoding, ansi_wide@) == Some(s@),
        r is None ==> spec_decode(data@, encoding, ansi_wide@) is None,
{
    match encoding {
        TextEncoding::Utf16Le => {
            if data.len() < 2 {
                return None;
            }
            let bom_offset: usize = if data[0] == 0xFF && data[1] == 0xFE {
                2
            } else {
                0
            };
            let units = units_from_bytes(data, bom_offset, true);
            proof {
                if bom_offset == 0 {
                    assert(data@.skip(0) =~= data@);
                }
            }
            Some(string_from_utf16_lossy(units.as_slice()))
        },
        TextEncoding::Utf16Be => {
            if data.len() < 2 {
                return None;
            }
            let bom_offset: usize = if data[0] == 0xFE && data[1] == 0xFF {
                2
            } else {
                0
            };
            let units = units_from_bytes(data, bom_offset, false);
            proof {
                if bom_offset == 0 {
                    assert(data@.skip(0) =~= data@);
                }
            }
            Some(string_from_utf16_lossy(units.as_slice()))
        },
        TextEncoding::Utf8 => {
            let bom_offset: usize = if data.len() >= 3 && data[0] == 0xEF && data[1] == 0xBB
                && data[2] == 0xBF {
                3
            } else {
                0
            };
            let mut body: Vec<u8> = Vec::new();
            let mut i: usize = bom_offset;
            while i < data.len()
                invariant
                    bom_offset <= i <= data@.len(),
                    body@ == data@.subrange(bom_offset as int, i as int),
                decreases data@.len() - i,
            {
                body.push(data[i]);
                i = i + 1;
                assert(body@ =~= data@.subrange(bom_offset as int, i as int));
            }
            assert(body@ =~= data@.skip(bom_offset as int));
            assert(data@.skip(0) =~= data@);
            string_from_utf8(body)
        },
        TextEncoding::Ansi => {
            if ansi_wide.len() == 0 {
                return None;
            }
            string_from_utf16(ansi_wide)
        },
    }
}

/// What loading a file gives from the bytes read: empty UTF-8 text for an empty
/// file, else the text decoded in the detected encoding together with that
/// encoding, or `None` where the bytes do not decode. `ansi_wide` is what the
/// system's ANSI conversion of `data` produced, used only when the detected
/// encoding is the ANSI code page.
pub fn decode_file_contents(data: &[u8], ansi_wide: &[u16]) -> (r: Option<(String, TextEncoding)>)
    ensures
        r matches Some((s, e)) ==> spec_load(data@, ansi_wide@) == Some((s@, e)),
        r is None ==> spec_load(data@, ansi_wide@) is None,
{
    if data.len() == 0 {
        return Some((String::new(), TextEncoding::Utf8));
    }
    let enc = detect_encoding(data);
    match decode_to_string(data, enc, ansi_wide) {
        Some(text) => Some((text, enc)),
        None => None,
    }
}


/// The bytes of a UTF-8 save: the byte order mark, then the text's UTF-8 bytes.
pub fn utf8_bom_bytes(text: &str) -> (r: Vec<u8>)
    ensures
        r@ == seq![0xEFu8, 0xBBu8, 0xBFu8] + encode_utf8(text@),
{
    let bytes = text.as_bytes();
    let mut r: Vec<u8> = Vec::new();
    r.push(0xEF);
    r.push(0xBB);
    r.push(0xBF);
    let mut i: usize = 0;
    while i < bytes.len()
        invariant
            i <= bytes@.len(),
            bytes@ == encode_utf8(text@),
            r@ == seq![0xEFu8, 0xBBu8, 0xBFu8] + bytes@.subrange(0, i as int),
        decreases bytes@.len() - i,
    {
        r.push(bytes[i]);
        i = i + 1;
        assert(r@ =~= seq![0xEFu8, 0xBBu8, 0xBFu8] + bytes@.subrange(0, i as int));
    }
    assert(bytes@.subrange(0, i as int) =~= bytes@);
    r
}

/// The bytes of a UTF-16 little-endian save: the byte order mark FF FE, then
/// each UTF-16 unit of the text, low byte first.
pub fn utf16le_bom_bytes(text: &str) -> (r: Vec<u8>)
    ensures
        r@ == seq![0xFFu8, 0xFEu8] + le_bytes(encode_utf16(text@)),
{
    let units = utf16_units(text);
    let ghost body = le_bytes(encode_utf16(text@));
    let mut r: Vec<u8> = Vec::new();
    r.push(0xFF);
    r.push(0xFE);
    let mut i: usize = 0;
    while i < units.len()
        invariant
            i <= units@.len(),
            units@ == encode_utf16(text@),
            body == le_bytes(units@),
            r@ == seq![0xFFu8, 0xFEu8] + body.subrange(0, 2 * i),
        decreases units@.len() - i,
    {
        let u: u16 = units[i];
        r.push((u % 256) as u8);
        r.push((u / 256) as u8);
        i = i + 1;
        assert(r@ =~= seq![0xFFu8, 0xFEu8] + body.subrange(0, 2 * i));
    }
    assert(body.subrange(0, 2 * i) =~= body);
    r
}

/// The bytes to write when saving `text` in `encoding`, or `None` when there is
/// nothing to write. For the ANSI code page, `ansi_bytes` is what the system's
/// conversion of the text produced (empty when it produced nothing); the other
/// encodings ignore it.
pub fn encode_for_save(text: &str, encoding: TextEncoding, ansi_bytes: &[u8]) -> (r: Option<
    Vec<u8>,
>)
    ensures
        r matches Some(b) ==> spec_save_bytes(text@, encoding, ansi_bytes@) == Some(b@),
        r is None ==> spec_save_bytes(text@, encoding, ansi_bytes@) is None,
{
    match encoding {
        TextEncoding::Utf16Le => Some(utf16le_bom_bytes(text)),
        TextEncoding::Ansi => {
            if ansi_bytes.len() == 0 {
                None
            } else {
                let mut r: Vec<u8> = Vec::new();
                let mut i: usize = 0;
                while i < ansi_bytes.len()
                    invariant
                        i <= ansi_bytes@.len(),
                        r@ == ansi_bytes@.subrange(0, i as int),
                    decreases ansi_bytes@.len() - i,
                {
                    r.push(ansi_bytes[i]);
                    i = i + 1;
                    assert(r@ =~= ansi_bytes@.subrange(0, i as int));
                }
                assert(r@ =~= ansi_bytes@);
                Some(r)
            }
        },
        _ => Some(utf8_bom_bytes(text)),
    }
}

/// The encoding a document saved in `enc` is read back in: UTF-16 big-endian
/// documents are saved as UTF-8 and so come back as UTF-8.
pub open spec fn reloaded_encoding(enc: TextEncoding) -> TextEncoding {
    if enc == TextEncoding::Utf16Le {
        TextEncoding::Utf16Le
    } else {
        TextEncoding::Utf8
    }
}

proof fn lemma_le_units_le_bytes(u: Seq<u16>)
    ensures
        le_units(le_bytes(u)) == u,
{
    let b = le_bytes(u);
    assert forall|i: int| 0 <= i < u.len() implies #[trigger] le_units(b)[i] == u[i] by {
        assert((2 * i) % 2 == 0);
        assert((2 * i + 1) % 2 == 1);
        assert((2 * i) / 2 == i);
        assert((2 * i + 1) / 2 == i);
        assert(b[2 * i] == (u[i] % 256) as u8);
        assert(b[2 * i + 1] == (u[i] / 256) as u8);
    }
    assert(le_units(b) =~= u);
}

/// Saving a document and loading the saved bytes gives back the same text, in
/// the encoding it was saved in (UTF-16 big-endian documents come back as UTF-8,
/// the form they are written in). The ANSI code page goes through the system's
/// conversions and is left out.
pub proof fn lemma_save_then_load(text: Seq<char>, enc: TextEncoding, ansi_bytes: Seq<u8>, ansi_wide: Seq<u16>)
    requires
        enc != TextEncoding::Ansi,
    ensures
        spec_save_bytes(text, enc, ansi_bytes) is Some,
        spec_load(spec_save_bytes(text, enc, ansi_bytes).unwrap(), ansi_wide) == Some(
            (text, reloaded_encoding(enc)),
        ),
{
    let bytes = spec_save_bytes(text, enc, ansi_bytes).unwrap();
    if enc == TextEncoding::Utf16Le {
        let units = encode_utf16(text);
        assert(bytes.skip(2) =~= le_bytes(units));
        lemma_le_units_le_bytes(units);
        lemma_decode_encode_utf16(text);
        assert(has_utf16le_bom(bytes));
    } else {
        assert(bytes.skip(3) =~= encode_utf8(text));
        encode_utf8_valid_utf8(text);
        encode_utf8_decode_utf8(text);
        assert(has_utf8_bom(bytes));
        assert(!has_utf16le_bom(bytes) && !has_utf16be_bom(bytes));
    }
}


/// A non-empty file of well-formed UTF-8 without a byte order mark is
/// detected as UTF-8 and loads as the text its bytes decode to.
pub proof fn lemma_plain_utf8_loads_as_utf8(data: Seq<u8>, ansi_wide: Seq<u16>)
    requires
        data.len() > 0,
        valid_utf8(data),
        !has_utf8_bom(data),
    ensures
        spec_load(data, ansi_wide) == Some((decode_utf8(data), TextEncoding::Utf8)),
{
    assert(valid_first_scalar(data));
    assert(data[0] != 0xFF && data[0] != 0xFE);
}

/// The UTF-8 bytes of a text start with the byte order mark only when the text
/// starts with U+FEFF.
pub proof fn lemma_utf8_bom_only_from_feff(t: Seq<char>)
    requires
        has_utf8_bom(encode_utf8(t)),
    ensures
        t.len() > 0 && t[0] == '\u{FEFF}',
{
    let b = encode_utf8(t);
    if t.len() == 0 {
        assert(b.len() == 0);
    } else {
        encode_utf8_first_scalar(t);
        let b0 = b[0];
        let b1 = b[1];
        let b2 = b[2];
        assert(decode_first_scalar(b) == codepoint_width_3(b0, b1, b2));
        assert(b0 == 0xEFu8 && b1 == 0xBBu8 && b2 == 0xBFu8 ==> codepoint_width_3(b0, b1, b2) == 0xFEFFu32)
            by (bit_vector);
        char_u32_cast(t[0], 0xFEFFu32);
        assert(t[0] as u32 == 0xFEFF);
        assert(('\u{FEFF}' as u32) == 0xFEFFu32);
        char_u32_cast('\u{FEFF}', 0xFEFFu32);
    }
}

/// Any text that does not start with U+FEFF, saved as plain UTF-8 bytes without
/// a byte order mark, loads back as the same text, detected as UTF-8.
pub proof fn lemma_utf8_text_loads_back(t: Seq<char>, ansi_wide: Seq<u16>)
    requires
        t.len() == 0 || t[0] != '\u{FEFF}',
    ensures
        spec_load(encode_utf8(t), ansi_wide) == Some((t, TextEncoding::Utf8)),
{
    let b = encode_utf8(t);
    encode_utf8_valid_utf8(t);
    encode_utf8_decode_utf8(t);
    if t.len() == 0 {
        assert(b.len() == 0);
    } else {
        encode_utf8_first_scalar(t);
        if has_utf8_bom(b) {
            lemma_utf8_bom_only_from_feff(t);
        }
        lemma_plain_utf8_loads_as_utf8(b, ansi_wide);
    }
}

/// A document in the default encoding, UTF-8, is saved with the UTF-8 byte
/// order mark in front of its text.
pub proof fn lemma_default_encoding_saves_with_bom(text: Seq<char>, ansi_bytes: Seq<u8>)
    ensures
        spec_save_bytes(text, TextEncoding::Utf8, ansi_bytes) matches Some(b) && b.take(3) == seq![
            0xEFu8,
            0xBBu8,
            0xBFu8,
        ] && b.skip(3) == encode_utf8(text),
{
    let b = seq![0xEFu8, 0xBBu8, 0xBFu8] + encode_utf8(text);
    assert(b.take(3) =~= seq![0xEFu8, 0xBBu8, 0xBFu8]);
    assert(b.skip(3) =~= encode_utf8(text));
}

/// The filter list of the Open and Save As dialogs: "Text Files (*.txt)" for
/// "*.txt" and "All Files (*.*)" for "*.*", each string NUL-terminated, then an
/// empty string and the NUL that ends the list.
pub open spec fn dialog_filter() -> Seq<u16> {
    encode_utf16("Text Files (*.txt)"@).push(0) + encode_utf16("*.txt"@).push(0) + encode_utf16(
        "All Files (*.*)"@,
    ).push(0) + encode_utf16("*.*"@).push(0) + seq![0u16, 0u16]
}

/// Appends `w` to `out`.
fn append_units(out: &mut Vec<u16>, w: &[u16])
    ensures
        final(out)@ == old(out)@ + w@,
{
    let mut i: usize = 0;
    while i < w.len()
        invariant
            i <= w@.len(),
            out@ == old(out)@ + w@.take(i as int),
        decreases w@.len() - i,
    {
        out.push(w[i]);
        i = i + 1;
        assert(out@ =~= old(out)@ + w@.take(i as int));
    }
    assert(w@.take(i as int) =~= w@);
}

/// The filter list of the file dialogs (see `dialog_filter`).
pub fn file_dialog_filter() -> (r: Vec<u16>)
    ensures
        r@ == dialog_filter(),
{
    let mut r: Vec<u16> = Vec::new();
    append_units(&mut r, wide_from_str("Text Files (*.txt)").as_slice());
    append_units(&mut r, wide_from_str("*.txt").as_slice());
    append_units(&mut r, wide_from_str("All Files (*.*)").as_slice());
    append_units(&mut r, wide_from_str("*.*").as_slice());
    r.push(0);
    r.push(0);
    assert(r@ =~= dialog_filter());
    r
}

/// The path the Save As dialog starts with: the document's own, or "*.txt"
/// for a document that has none.
pub open spec fn save_dialog_initial(current_path: Seq<char>) -> Seq<char> {
    if current_path.len() == 0 {
        "*.txt"@
    } else {
        current_path
    }
}

/// The file name buffer of the Save As dialog: `MAX_PATH` units starting with
/// as much of the NUL-terminated initial path as fits.
pub fn save_dialog_buffer(current_path: &str) -> (r: Vec<u16>)
    ensures
        r@ == fit_buffer(encode_utf16(save_dialog_initial(current_path@)).push(0), MAX_PATH as nat),
{
    let wide = if current_path.is_empty() {
        wide_from_str("*.txt")
    } else {
        wide_from_str(current_path)
    };
    fit_to_buffer(wide.as_slice(), MAX_PATH)
}

/// The file name buffer of the Open dialog: `MAX_PATH` NULs.
pub fn open_dialog_buffer() -> (r: Vec<u16>)
    ensures
        r@ == fit_buffer(Seq::<u16>::empty(), MAX_PATH as nat),
{
    let empty: Vec<u16> = Vec::new();
    fit_to_buffer(empty.as_slice(), MAX_PATH)
}
} // verus!
