use vstd::prelude::*;
use crate::error::{Error, INVALID_UTF16, ODD_UTF16_LENGTH};
use crate::text::{char_from_u32, chars_of, lemma_char_code, string_from_chars};

verus! {

/// A leading (high) surrogate.
pub open spec fn is_high_surrogate(u: u16) -> bool {
    0xD800 <= u <= 0xDBFF
}

/// A trailing (low) surrogate.
pub open spec fn is_low_surrogate(u: u16) -> bool {
    0xDC00 <= u <= 0xDFFF
}

/// The code point that a surrogate pair stands for.
pub open spec fn pair_code(hi: u16, lo: u16) -> int {
    0x10000 + (hi - 0xD800) * 1024 + (lo - 0xDC00)
}

/// Prepends `c` to a decoding result.
pub open spec fn prepend_char(c: char, rest: Option<Seq<char>>) -> Option<Seq<char>> {
    match rest {
        Some(r) => Some(seq![c] + r),
        None => None,
    }
}

/// UTF-16 decoding of code units. An unpaired surrogate makes it fail, or,
/// with `lossy`, stands as U+FFFD.
pub open spec fn spec_utf16_decode(units: Seq<u16>, lossy: bool) -> Option<Seq<char>>
    decreases units.len(),
{
    if units.len() == 0 {
        Some(Seq::empty())
    } else {
        let u = units[0];
        if !is_high_surrogate(u) && !is_low_surrogate(u) {
            prepend_char((u as u32) as char, spec_utf16_decode(units.drop_first(), lossy))
        } else if is_high_surrogate(u) && units.len() >= 2 && is_low_surrogate(units[1]) {
            prepend_char(
                (pair_code(u, units[1]) as u32) as char,
                spec_utf16_decode(units.skip(2), lossy),
            )
        } else if lossy {
            prepend_char('\u{FFFD}', spec_utf16_decode(units.drop_first(), lossy))
        } else {
            None
        }
    }
}

/// The little-endian code units of a byte string, two bytes each.
pub open spec fn units_of(bytes: Seq<u8>) -> Seq<u16> {
    Seq::new(bytes.len() / 2, |i: int| (bytes[2 * i] + bytes[2 * i + 1] * 256) as u16)
}

/// The bytes of code units, each little-endian.
pub open spec fn bytes_of_units(units: Seq<u16>) -> Seq<u8> {
    Seq::new(units.len() * 2, |i: int| if i % 2 == 0 { (units[i / 2] % 256) as u8 } else { (units[i / 2] / 256) as u8 })
}

/// The text of UTF-16LE bytes: an odd length and an unpaired surrogate
/// (unless `lossy`) are errors.
pub open spec fn spec_utf16_text(bytes: Seq<u8>, lossy: bool) -> Result<Seq<char>, Error> {
    if bytes.len() % 2 != 0 {
        Err(Error::Protocol(ODD_UTF16_LENGTH))
    } else {
        match spec_utf16_decode(units_of(bytes), lossy) {
            Some(text) => Ok(text),
            None => Err(Error::Utf16(INVALID_UTF16)),
        }
    }
}

/// The code units of one character: one below U+10000, a surrogate pair above.
pub open spec fn char_units(c: char) -> Seq<u16> {
    let code = c as u32;
    if code < 0x10000 {
        seq![code as u16]
    } else {
        seq![(0xD800 + (code - 0x10000) / 1024) as u16, (0xDC00 + (code - 0x10000) % 1024) as u16]
    }
}

/// UTF-16 encoding of a text.
pub open spec fn spec_utf16_units(text: Seq<char>) -> Seq<u16>
    decreases text.len(),
{
    if text.len() == 0 {
        Seq::empty()
    } else {
        char_units(text[0]) + spec_utf16_units(text.drop_first())
    }
}

/// UTF-16LE encoding of a text.
pub open spec fn spec_utf16_bytes(text: Seq<char>) -> Seq<u8> {
    bytes_of_units(spec_utf16_units(text))
}

/// Encoding distributes over concatenation.
pub proof fn lemma_units_concat(a: Seq<char>, b: Seq<char>)
    ensures
        spec_utf16_units(a + b) == spec_utf16_units(a) + spec_utf16_units(b),
    decreases a.len(),
{
    if a.len() == 0 {
        assert(a + b =~= b);
    } else {
        assert((a + b).drop_first() =~= a.drop_first() + b);
        lemma_units_concat(a.drop_first(), b);
        assert(spec_utf16_units(a + b) =~= char_units(a[0]) + (spec_utf16_units(a.drop_first())
            + spec_utf16_units(b)));
    }
}

/// Reading the bytes of code units back gives the code units.
pub proof fn lemma_units_of_bytes(units: Seq<u16>)
    ensures
        units_of(bytes_of_units(units)) == units,
{
    let b = bytes_of_units(units);
    assert forall|i: int| 0 <= i < units.len() implies #[trigger] units_of(b)[i] == units[i] by {
        assert(b[2 * i] == (units[i] % 256) as u8);
        assert(b[2 * i + 1] == (units[i] / 256) as u8);
    }
    assert(units_of(b) =~= units);
}

/// The code units of a character decode back to it, whatever follows.
proof fn lemma_char_units_decode(c: char, rest: Seq<u16>, lossy: bool)
    ensures
        spec_utf16_decode(char_units(c) + rest, lossy) == prepend_char(c, spec_utf16_decode(rest, lossy)),
{
    lemma_char_code(c);
    let code = c as u32;
    let units = char_units(c) + rest;
    if code < 0x10000 {
        assert(units[0] == code as u16);
        assert(units.drop_first() =~= rest);
    } else {
        let hi = (0xD800 + (code - 0x10000) / 1024) as u16;
        let lo = (0xDC00 + (code - 0x10000) % 1024) as u16;
        assert(units[0] == hi);
        assert(units[1] == lo);
        assert(units.skip(2) =~= rest);
        assert(pair_code(hi, lo) == code);
    }
}

/// Decoding the UTF-16 encoding of any text gives the text back, in strict
/// and in lossy mode.
pub proof fn law_utf16_roundtrip(text: Seq<char>, lossy: bool)
    ensures
        spec_utf16_decode(spec_utf16_units(text), lossy) == Some(text),
        spec_utf16_text(spec_utf16_bytes(text), lossy) == Ok::<Seq<char>, Error>(text),
    decreases text.len(),
{
    if text.len() > 0 {
        law_utf16_roundtrip(text.drop_first(), lossy);
        lemma_char_units_decode(text[0], spec_utf16_units(text.drop_first()), lossy);
        assert(seq![text[0]] + text.drop_first() =~= text);
    }
    lemma_units_of_bytes(spec_utf16_units(text));
}

/// Lossy decoding changes no result of strict decoding.
pub proof fn law_utf16_lossy_extends_strict(units: Seq<u16>)
    ensures
        spec_utf16_decode(units, true) is Some,
        spec_utf16_decode(units, false) is Some ==> spec_utf16_decode(units, true) == spec_utf16_decode(units, false),
    decreases units.len(),
{
    if units.len() > 0 {
        law_utf16_lossy_extends_strict(units.drop_first());
        if units.len() >= 2 {
            law_utf16_lossy_extends_strict(units.skip(2));
        }
    }
}

/// The code unit at index `i` of little-endian bytes.
fn unit_at(bytes: &[u8], i: usize) -> (u: u16)
    requires
        2 * i + 1 < bytes@.len(),
    ensures
        u == units_of(bytes@)[i as int],
{
    let len = bytes.len();
    let j: usize = 2 * i;
    (bytes[j] as u16) + (bytes[j + 1] as u16) * 256
}

/// Decodes UTF-16LE bytes; see `spec_utf16_text`.
pub fn decode_utf16(bytes: &[u8], lossy: bool) -> (r: Result<String, Error>)
    ensures
        match r {
            Ok(text) => spec_utf16_text(bytes@, lossy) == Ok::<Seq<char>, Error>(text@),
            Err(e) => spec_utf16_text(bytes@, lossy) == Err::<Seq<char>, Error>(e),
        },
{
    if bytes.len() % 2 != 0 {
        return Err(Error::Protocol(ODD_UTF16_LENGTH));
    }
    let n: usize = bytes.len() / 2;
    let ghost units = units_of(bytes@);
    let mut out: Vec<char> = Vec::new();
    let mut i: usize = 0;
    assert(units.skip(0) =~= units);
    while i < n
        invariant
            n == units.len(),
            units == units_of(bytes@),
            bytes@.len() == 2 * n,
            0 <= i <= n,
            spec_utf16_decode(units, lossy) == (match spec_utf16_decode(units.skip(i as int), lossy) {
                Some(rest) => Some(out@ + rest),
                None => None,
            }),
        decreases n - i,
    {
        let ghost tail = units.skip(i as int);
        let u = unit_at(bytes, i);
        assert(tail[0] == u);
        if !(0xD800 <= u && u <= 0xDFFF) {
            let c = char_from_u32(u as u32);
            match c {
                Some(c) => {
                    out.push(c);
                },
                None => {
                    return Err(Error::Utf16(INVALID_UTF16));
                },
            }
            assert(tail.drop_first() =~= units.skip(i + 1));
            i = i + 1;
        } else if u <= 0xDBFF && i + 1 < n && {
            let v = unit_at(bytes, i + 1);
            0xDC00 <= v && v <= 0xDFFF
        } {
            let v = unit_at(bytes, i + 1);
            assert(tail[1] == v);
            let code: u32 = 0x10000 + ((u - 0xD800) as u32) * 1024 + ((v - 0xDC00) as u32);
            assert(code == pair_code(u, v));
            match char_from_u32(code) {
                Some(c) => {
                    out.push(c);
                },
                None => {
                    return Err(Error::Utf16(INVALID_UTF16));
                },
            }
            assert(tail.skip(2) =~= units.skip(i + 2));
            i = i + 2;
        } else if lossy {
            out.push('\u{FFFD}');
            assert(tail.drop_first() =~= units.skip(i + 1));
            i = i + 1;
        } else {
            return Err(Error::Utf16(INVALID_UTF16));
        }
    }
    assert(units.skip(n as int) =~= Seq::<u16>::empty());
    assert(out@ + Seq::<char>::empty() =~= out@);
    Ok(string_from_chars(out))
}

/// Encodes a text as UTF-16LE bytes.
pub fn encode_utf16(text: &str) -> (bytes: Vec<u8>)
    requires
        text@.len() <= usize::MAX / 8,
    ensures
        bytes@ == spec_utf16_bytes(text@),
{
    let chars = chars_of(text);
    let mut out: Vec<u8> = Vec::new();
    let mut i: usize = 0;
    while i < chars.len()
        invariant
            chars@ == text@,
            chars@.len() <= usize::MAX / 8,
            0 <= i <= chars@.len(),
            out@ == spec_utf16_bytes(chars@.take(i as int)),
            out@.len() <= 4 * i,
        decreases chars@.len() - i,
    {
        let c = chars[i];
        let code: u32 = c as u32;
        let ghost before = chars@.take(i as int);
        proof {
            lemma_units_concat(before, seq![c]);
            assert(chars@.take(i + 1) =~= before + seq![c]);
            assert(spec_utf16_units(seq![c]) =~= char_units(c)) by {
                reveal_with_fuel(spec_utf16_units, 2);
                assert(seq![c].drop_first() =~= Seq::<char>::empty());
            }
        }
        if code < 0x10000 {
            let u = code as u16;
            out.push((u % 256) as u8);
            out.push((u / 256) as u8);
        } else {
            let hi: u16 = (0xD800 + (code - 0x10000) / 1024) as u16;
            let lo: u16 = (0xDC00 + (code - 0x10000) % 1024) as u16;
            out.push((hi % 256) as u8);
            out.push((hi / 256) as u8);
            out.push((lo % 256) as u8);
            out.push((lo / 256) as u8);
        }
        proof {
            let us = spec_utf16_units(chars@.take(i + 1));
            assert(out@ =~= bytes_of_units(us));
        }
        i = i + 1;
    }
    assert(chars@.take(chars@.len() as int) =~= chars@);
    out
}

/// The first code unit of an encoded text is never a trailing surrogate.
proof fn lemma_units_start(text: Seq<char>)
    ensures
        spec_utf16_units(text).len() > 0 ==> !is_low_surrogate(spec_utf16_units(text)[0]),
        text.len() > 0 ==> spec_utf16_units(text).len() > 0,
{
    if text.len() > 0 {
        lemma_char_code(text[0]);
        let code = text[0] as u32;
        assert(spec_utf16_units(text)[0] == char_units(text[0])[0]);
        if code >= 0x10000 {
            assert((code - 0x10000) / 1024 <= 0x3FF);
        }
    }
}

/// An unpaired surrogate is replaced by exactly one U+FFFD in lossy mode, and
/// decoding goes on with the very next code unit; strict mode refuses it.
pub proof fn law_utf16_lossy_replaces_one_unit(u: u16, text: Seq<char>)
    requires
        is_high_surrogate(u) || is_low_surrogate(u),
    ensures
        spec_utf16_decode(seq![u] + spec_utf16_units(text), true) == Some(seq!['\u{FFFD}'] + text),
        spec_utf16_decode(seq![u] + spec_utf16_units(text), false) is None,
{
    let s = seq![u] + spec_utf16_units(text);
    lemma_units_start(text);
    assert(s[0] == u);
    if s.len() >= 2 {
        assert(s[1] == spec_utf16_units(text)[0]);
    }
    assert(s.drop_first() =~= spec_utf16_units(text));
    law_utf16_roundtrip(text, true);
}

} // verus!
