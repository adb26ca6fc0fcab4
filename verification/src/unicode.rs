use vstd::prelude::*;
use vstd::utf8::*;

verus! {

broadcast use vstd::seq::group_seq_axioms;

/// A UTF-16 code unit that opens a surrogate pair.
pub open spec fn is_high_surrogate(u: u16) -> bool {
    0xD800 <= u <= 0xDBFF
}

/// A UTF-16 code unit that closes a surrogate pair.
pub open spec fn is_low_surrogate(u: u16) -> bool {
    0xDC00 <= u <= 0xDFFF
}

/// A UTF-16 code unit that is half of a surrogate pair.
pub open spec fn is_surrogate(u: u16) -> bool {
    0xD800 <= u <= 0xDFFF
}

/// The UTF-16 encoding of one character: one unit below U+10000, else a surrogate pair.
pub open spec fn encode_utf16_char(c: char) -> Seq<u16> {
    let v = c as u32;
    if v < 0x10000 {
        seq![v as u16]
    } else {
        seq![(0xD800 + (v - 0x10000) / 0x400) as u16, (0xDC00 + (v - 0x10000) % 0x400) as u16]
    }
}

/// The UTF-16 encoding of a character sequence.
pub open spec fn encode_utf16(cs: Seq<char>) -> Seq<u16>
    decreases cs.len(),
{
    if cs.len() == 0 {
        seq![]
    } else {
        encode_utf16_char(cs[0]) + encode_utf16(cs.drop_first())
    }
}

/// The character a surrogate pair stands for.
pub open spec fn surrogate_pair_char(hi: u16, lo: u16) -> char {
    (0x10000 + (hi - 0xD800) * 0x400 + (lo - 0xDC00)) as char
}

/// U+FFFD, the character that stands in for data that does not decode.
pub open spec fn replacement_char() -> char {
    '\u{FFFD}'
}

/// Decodes UTF-16, replacing each unpaired surrogate with U+FFFD.
pub open spec fn decode_utf16_lossy(u: Seq<u16>) -> Seq<char>
    decreases u.len(),
{
    if u.len() == 0 {
        seq![]
    } else if u.len() >= 2 && is_high_surrogate(u[0]) && is_low_surrogate(u[1]) {
        seq![surrogate_pair_char(u[0], u[1])] + decode_utf16_lossy(u.subrange(2, u.len() as int))
    } else if is_surrogate(u[0]) {
        seq![replacement_char()] + decode_utf16_lossy(u.drop_first())
    } else {
        seq![u[0] as char] + decode_utf16_lossy(u.drop_first())
    }
}

/// True when the units hold no unpaired surrogate.
pub open spec fn valid_utf16(u: Seq<u16>) -> bool
    decreases u.len(),
{
    if u.len() == 0 {
        true
    } else if u.len() >= 2 && is_high_surrogate(u[0]) && is_low_surrogate(u[1]) {
        valid_utf16(u.subrange(2, u.len() as int))
    } else if is_surrogate(u[0]) {
        false
    } else {
        valid_utf16(u.drop_first())
    }
}

proof fn lemma_decode_encode_char(c: char, rest: Seq<u16>)
    ensures
        decode_utf16_lossy(encode_utf16_char(c) + rest) == seq![c] + decode_utf16_lossy(rest),
        valid_utf16(encode_utf16_char(c) + rest) == valid_utf16(rest),
{
    let v = c as u32;
    let u = encode_utf16_char(c) + rest;
    char_is_scalar(c);
    char_u32_cast(c, v);
    if v < 0x10000 {
        assert(u.drop_first() =~= rest);
        assert(u[0] == v as u16);
        assert(!is_surrogate(u[0]));
    } else {
        let hi = (0xD800 + (v - 0x10000) / 0x400) as u16;
        let lo = (0xDC00 + (v - 0x10000) % 0x400) as u16;
        assert(u[0] == hi && u[1] == lo);
        assert(u.subrange(2, u.len() as int) =~= rest);
        assert(is_high_surrogate(hi) && is_low_surrogate(lo));
        assert(0x10000 + (hi - 0xD800) * 0x400 + (lo - 0xDC00) == v);
    }
}

/// Decoding the UTF-16 encoding of characters gives them back, and the encoding is valid.
pub proof fn lemma_decode_encode_utf16(cs: Seq<char>)
    ensures
        decode_utf16_lossy(encode_utf16(cs)) == cs,
        valid_utf16(encode_utf16(cs)),
    decreases cs.len(),
{
    if cs.len() > 0 {
        lemma_decode_encode_utf16(cs.drop_first());
        lemma_decode_encode_char(cs[0], encode_utf16(cs.drop_first()));
        assert(seq![cs[0]] + cs.drop_first() =~= cs);
    }
}

/// Decoding the encoding of some characters followed by more units gives the
/// characters followed by what those units decode to; the encoded part adds no
/// unpaired surrogate.
pub proof fn lemma_decode_encode_prefix(cs: Seq<char>, rest: Seq<u16>)
    ensures
        decode_utf16_lossy(encode_utf16(cs) + rest) == cs + decode_utf16_lossy(rest),
        valid_utf16(encode_utf16(cs) + rest) == valid_utf16(rest),
    decreases cs.len(),
{
    if cs.len() == 0 {
        assert(encode_utf16(cs) + rest =~= rest);
        assert(cs + decode_utf16_lossy(rest) =~= decode_utf16_lossy(rest));
    } else {
        let tail = cs.drop_first();
        lemma_decode_encode_prefix(tail, rest);
        assert(encode_utf16(cs) + rest =~= encode_utf16_char(cs[0]) + (encode_utf16(tail) + rest));
        lemma_decode_encode_char(cs[0], encode_utf16(tail) + rest);
        assert(seq![cs[0]] + (tail + decode_utf16_lossy(rest)) =~= cs + decode_utf16_lossy(rest));
    }
}

/// The characters of a string slice, in order.
pub fn chars_of(s: &str) -> (r: Vec<char>)
    ensures
        r@ == s@,
{
    broadcast use vstd::string::group_string_axioms;
    let mut r: Vec<char> = Vec::new();
    for c in it: s.chars()
        invariant
            it.seq() == s@,
            r@ == s@.take(it.index() as int),
    {
        r.push(c);
        assert(r@ =~= s@.take(it.index() + 1));
    }
    assert(r@ =~= s@);
    r
}


/// Lower-case mapping of a character sequence, as `str::to_lowercase` performs it
/// with the Unicode tables of the standard library.
pub uninterp spec fn lowercase(s: Seq<char>) -> Seq<char>;

/// `std::str::from_utf8`, asked only whether it succeeds: it succeeds exactly when
/// the bytes are well-formed UTF-8.
#[verifier::external_body]
pub(crate) fn is_valid_utf8(data: &[u8]) -> (b: bool)
    ensures
        b == valid_utf8(data@),
{
    std::str::from_utf8(data).is_ok()
}

/// `String::from_utf8`: the decoded text when the bytes are well-formed UTF-8,
/// `None` otherwise.
#[verifier::external_body]
pub(crate) fn string_from_utf8(bytes: Vec<u8>) -> (r: Option<String>)
    ensures
        r is Some <==> valid_utf8(bytes@),
        r matches Some(s) ==> s@ == decode_utf8(bytes@),
{
    String::from_utf8(bytes).ok()
}

/// `String::from_utf16`: the decoded text when the units hold no unpaired
/// surrogate, `None` otherwise.
#[verifier::external_body]
pub(crate) fn string_from_utf16(units: &[u16]) -> (r: Option<String>)
    ensures
        r is Some <==> valid_utf16(units@),
        r matches Some(s) ==> s@ == decode_utf16_lossy(units@),
{
    String::from_utf16(units).ok()
}

/// `String::from_utf16_lossy`: decodes UTF-16, each unpaired surrogate becoming U+FFFD.
#[verifier::external_body]
pub(crate) fn string_from_utf16_lossy(units: &[u16]) -> (r: String)
    ensures
        r@ == decode_utf16_lossy(units@),
{
    String::from_utf16_lossy(units)
}

/// `str::encode_utf16`, collected: the UTF-16 code units of the text.
#[verifier::external_body]
pub(crate) fn utf16_units(s: &str) -> (r: Vec<u16>)
    ensures
        r@ == encode_utf16(s@),
{
    s.encode_utf16().collect()
}

/// `str::to_lowercase`: the lower-case form of the text.
#[verifier::external_body]
pub(crate) fn to_lowercase(s: &str) -> (r: String)
    ensures
        r@ == lowercase(s@),
{
    s.to_lowercase()
}

/// `String::from_iter` over characters: the string made of exactly these characters.
#[verifier::external_body]
pub(crate) fn string_from_chars(cs: &[char]) -> (r: String)
    ensures
        r@ == cs@,
{
    cs.iter().collect()
}

} // verus!
