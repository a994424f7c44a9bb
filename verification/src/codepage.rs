use vstd::prelude::*;
use crate::error::{Error, MALFORMED_CHARACTERS, UNREPRESENTABLE_CHARACTER};
use crate::text::{chars_of, string_from_chars};

verus! {

/// The characters of bytes 0x80 to 0xFF in code page 437 (the IBM PC character set).
pub const CP437_HIGH: [char; 128] = [
    '\u{c7}', '\u{fc}', '\u{e9}', '\u{e2}', '\u{e4}', '\u{e0}', '\u{e5}', '\u{e7}',
    '\u{ea}', '\u{eb}', '\u{e8}', '\u{ef}', '\u{ee}', '\u{ec}', '\u{c4}', '\u{c5}',
    '\u{c9}', '\u{e6}', '\u{c6}', '\u{f4}', '\u{f6}', '\u{f2}', '\u{fb}', '\u{f9}',
    '\u{ff}', '\u{d6}', '\u{dc}', '\u{a2}', '\u{a3}', '\u{a5}', '\u{20a7}', '\u{192}',
    '\u{e1}', '\u{ed}', '\u{f3}', '\u{fa}', '\u{f1}', '\u{d1}', '\u{aa}', '\u{ba}',
    '\u{bf}', '\u{2310}', '\u{ac}', '\u{bd}', '\u{bc}', '\u{a1}', '\u{ab}', '\u{bb}',
    '\u{2591}', '\u{2592}', '\u{2593}', '\u{2502}', '\u{2524}', '\u{2561}', '\u{2562}', '\u{2556}',
    '\u{2555}', '\u{2563}', '\u{2551}', '\u{2557}', '\u{255d}', '\u{255c}', '\u{255b}', '\u{2510}',
    '\u{2514}', '\u{2534}', '\u{252c}', '\u{251c}', '\u{2500}', '\u{253c}', '\u{255e}', '\u{255f}',
    '\u{255a}', '\u{2554}', '\u{2569}', '\u{2566}', '\u{2560}', '\u{2550}', '\u{256c}', '\u{2567}',
    '\u{2568}', '\u{2564}', '\u{2565}', '\u{2559}', '\u{2558}', '\u{2552}', '\u{2553}', '\u{256b}',
    '\u{256a}', '\u{2518}', '\u{250c}', '\u{2588}', '\u{2584}', '\u{258c}', '\u{2590}', '\u{2580}',
    '\u{3b1}', '\u{df}', '\u{393}', '\u{3c0}', '\u{3a3}', '\u{3c3}', '\u{b5}', '\u{3c4}',
    '\u{3a6}', '\u{398}', '\u{3a9}', '\u{3b4}', '\u{221e}', '\u{3c6}', '\u{3b5}', '\u{2229}',
    '\u{2261}', '\u{b1}', '\u{2265}', '\u{2264}', '\u{2320}', '\u{2321}', '\u{f7}', '\u{2248}',
    '\u{b0}', '\u{2219}', '\u{b7}', '\u{221a}', '\u{207f}', '\u{b2}', '\u{25a0}', '\u{a0}',
];

/// The characters of bytes 0x80 to 0xFF in code page 850 (DOS Latin-1).
pub const CP850_HIGH: [char; 128] = [
    '\u{c7}', '\u{fc}', '\u{e9}', '\u{e2}', '\u{e4}', '\u{e0}', '\u{e5}', '\u{e7}',
    '\u{ea}', '\u{eb}', '\u{e8}', '\u{ef}', '\u{ee}', '\u{ec}', '\u{c4}', '\u{c5}',
    '\u{c9}', '\u{e6}', '\u{c6}', '\u{f4}', '\u{f6}', '\u{f2}', '\u{fb}', '\u{f9}',
    '\u{ff}', '\u{d6}', '\u{dc}', '\u{f8}', '\u{a3}', '\u{d8}', '\u{d7}', '\u{192}',
    '\u{e1}', '\u{ed}', '\u{f3}', '\u{fa}', '\u{f1}', '\u{d1}', '\u{aa}', '\u{ba}',
    '\u{bf}', '\u{ae}', '\u{ac}', '\u{bd}', '\u{bc}', '\u{a1}', '\u{ab}', '\u{bb}',
    '\u{2591}', '\u{2592}', '\u{2593}', '\u{2502}', '\u{2524}', '\u{c1}', '\u{c2}', '\u{c0}',
    '\u{a9}', '\u{2563}', '\u{2551}', '\u{2557}', '\u{255d}', '\u{a2}', '\u{a5}', '\u{2510}',
    '\u{2514}', '\u{2534}', '\u{252c}', '\u{251c}', '\u{2500}', '\u{253c}', '\u{e3}', '\u{c3}',
    '\u{255a}', '\u{2554}', '\u{2569}', '\u{2566}', '\u{2560}', '\u{2550}', '\u{256c}', '\u{a4}',
    '\u{f0}', '\u{d0}', '\u{ca}', '\u{cb}', '\u{c8}', '\u{131}', '\u{cd}', '\u{ce}',
    '\u{cf}', '\u{2518}', '\u{250c}', '\u{2588}', '\u{2584}', '\u{a6}', '\u{cc}', '\u{2580}',
    '\u{d3}', '\u{df}', '\u{d4}', '\u{d2}', '\u{f5}', '\u{d5}', '\u{b5}', '\u{fe}',
    '\u{de}', '\u{da}', '\u{db}', '\u{d9}', '\u{fd}', '\u{dd}', '\u{af}', '\u{b4}',
    '\u{ad}', '\u{b1}', '\u{2017}', '\u{be}', '\u{b6}', '\u{a7}', '\u{f7}', '\u{b8}',
    '\u{b0}', '\u{a8}', '\u{b7}', '\u{b9}', '\u{b3}', '\u{b2}', '\u{25a0}', '\u{a0}',
];

/// The OEM code pages of the old SQL Server sort orders, which this library
/// maps itself: each byte stands for exactly one character.
#[derive(Debug, Clone, Copy, PartialEq, Eq, Structural)]
pub enum LegacyCodePage {
    Cp437,
    Cp850,
}

/// Both tables hold 128 distinct characters, none of them ASCII.
proof fn lemma_high_halves_distinct()
    ensures
        forall|i: int, j: int| 0 <= i < j < 128 ==> CP437_HIGH@[i] != CP437_HIGH@[j],
        forall|i: int, j: int| 0 <= i < j < 128 ==> CP850_HIGH@[i] != CP850_HIGH@[j],
        forall|i: int| 0 <= i < 128 ==> (CP437_HIGH@[i] as u32) >= 128,
        forall|i: int| 0 <= i < 128 ==> (CP850_HIGH@[i] as u32) >= 128,
        CP437_HIGH@.len() == 128,
        CP850_HIGH@.len() == 128,
{
}

impl LegacyCodePage {
    /// The characters of bytes 0x80 to 0xFF, in byte order.
    pub open spec fn high_half(self) -> Seq<char> {
        match self {
            LegacyCodePage::Cp437 => CP437_HIGH@,
            LegacyCodePage::Cp850 => CP850_HIGH@,
        }
    }

    /// The character that a byte stands for: ASCII below 0x80, the table above.
    pub open spec fn char_of(self, b: u8) -> char {
        if b < 128 {
            b as char
        } else {
            self.high_half()[b - 128]
        }
    }

    /// Decoding maps each byte to its character.
    pub open spec fn spec_decode(self, bytes: Seq<u8>) -> Seq<char> {
        bytes.map_values(|b: u8| self.char_of(b))
    }

    /// Whether some byte stands for `c`.
    pub open spec fn represents(self, c: char) -> bool {
        exists|b: u8| #[trigger] self.char_of(b) == c
    }

    /// The byte that stands for `c`, where there is one.
    pub open spec fn byte_of(self, c: char) -> u8 {
        choose|b: u8| #[trigger] self.char_of(b) == c
    }

    /// Encoding maps each character to its byte, and fails where one has none.
    pub open spec fn spec_encode(self, text: Seq<char>) -> Option<Seq<u8>> {
        if forall|i: int| 0 <= i < text.len() ==> self.represents(#[trigger] text[i]) {
            Some(text.map_values(|c: char| self.byte_of(c)))
        } else {
            None
        }
    }

    /// No two bytes stand for the same character.
    pub proof fn lemma_char_of_injective(self, b1: u8, b2: u8)
        ensures
            self.char_of(b1) == self.char_of(b2) ==> b1 == b2,
    {
        lemma_high_halves_distinct();
        if self.char_of(b1) == self.char_of(b2) {
            if b1 < 128 && b2 >= 128 {
                assert((self.char_of(b1) as u32) < 128);
            } else if b1 >= 128 && b2 < 128 {
                assert((self.char_of(b2) as u32) < 128);
            } else if b1 >= 128 && b2 >= 128 {
                if b1 < b2 {
                    assert(self.high_half()[b1 - 128] != self.high_half()[b2 - 128]);
                } else if b2 < b1 {
                    assert(self.high_half()[b2 - 128] != self.high_half()[b1 - 128]);
                }
            }
        }
    }

    /// The character that `b` stands for.
    pub fn decode_byte(self, b: u8) -> (c: char)
        ensures
            c == self.char_of(b),
    {
        if b < 128 {
            b as char
        } else {
            let i: usize = (b - 128) as usize;
            match self {
                LegacyCodePage::Cp437 => CP437_HIGH[i],
                LegacyCodePage::Cp850 => CP850_HIGH[i],
            }
        }
    }

    /// The byte that stands for `c`, or `None` where no byte does.
    pub fn encode_char(self, c: char) -> (r: Option<u8>)
        ensures
            match r {
                Some(b) => self.char_of(b) == c && b == self.byte_of(c),
                None => !self.represents(c),
            },
    {
        proof {
            lemma_high_halves_distinct();
        }
        let code: u32 = c as u32;
        if code < 128 {
            let b: u8 = code as u8;
            proof {
                assert(self.char_of(b) == c);
                self.lemma_char_of_injective(b, self.byte_of(c));
            }
            return Some(b);
        }
        let mut i: usize = 0;
        while i < 128
            invariant
                0 <= i <= 128,
                (c as u32) >= 128,
                self.high_half().len() == 128,
                forall|k: int| 0 <= k < i ==> self.high_half()[k] != c,
            decreases 128 - i,
        {
            let t: char = match self {
                LegacyCodePage::Cp437 => CP437_HIGH[i],
                LegacyCodePage::Cp850 => CP850_HIGH[i],
            };
            if t == c {
                let b: u8 = (i + 128) as u8;
                proof {
                    assert(self.char_of(b) == c);
                    self.lemma_char_of_injective(b, self.byte_of(c));
                }
                return Some(b);
            }
            i = i + 1;
        }
        proof {
            assert forall|b: u8| #[trigger] self.char_of(b) != c by {
                if b >= 128 {
                    assert(self.high_half()[b - 128] != c);
                }
            }
        }
        None
    }

    /// Decodes every byte; a legacy code page accepts any input.
    pub fn decode(self, bytes: &[u8]) -> (text: String)
        ensures
            text@ == self.spec_decode(bytes@),
    {
        let mut chars: Vec<char> = Vec::new();
        let mut i: usize = 0;
        while i < bytes.len()
            invariant
                0 <= i <= bytes@.len(),
                chars@ == self.spec_decode(bytes@.take(i as int)),
            decreases bytes@.len() - i,
        {
            let c = self.decode_byte(bytes[i]);
            chars.push(c);
            assert(bytes@.take(i + 1) == bytes@.take(i as int).push(bytes@[i as int]));
            i = i + 1;
        }
        assert(bytes@.take(bytes@.len() as int) == bytes@);
        string_from_chars(chars)
    }

    /// Encodes every character, or gives `None` where one has no byte.
    pub fn encode(self, text: &str) -> (bytes: Option<Vec<u8>>)
        ensures
            match bytes {
                Some(b) => self.spec_encode(text@) == Some(b@),
                None => self.spec_encode(text@) is None,
            },
    {
        let chars = chars_of(text);
        let mut out: Vec<u8> = Vec::new();
        let mut i: usize = 0;
        while i < chars.len()
            invariant
                0 <= i <= chars@.len(),
                chars@ == text@,
                out@ == chars@.take(i as int).map_values(|c: char| self.byte_of(c)),
                forall|k: int| 0 <= k < i ==> self.represents(#[trigger] chars@[k]),
            decreases chars@.len() - i,
        {
            match self.encode_char(chars[i]) {
                Some(b) => {
                    out.push(b);
                    assert(chars@.take(i + 1) == chars@.take(i as int).push(chars@[i as int]));
                    i = i + 1;
                },
                None => {
                    return None;
                },
            }
        }
        assert(chars@.take(chars@.len() as int) == chars@);
        Some(out)
    }
}

/// Decoding then encoding gives back every byte string: each legacy code page
/// maps the 256 byte values one to one onto characters.
pub proof fn law_legacy_bytes_roundtrip(cp: LegacyCodePage, bytes: Seq<u8>)
    ensures
        cp.spec_encode(cp.spec_decode(bytes)) == Some(bytes),
{
    let text = cp.spec_decode(bytes);
    assert forall|i: int| 0 <= i < text.len() implies cp.represents(#[trigger] text[i]) by {
        assert(cp.char_of(bytes[i]) == text[i]);
    }
    assert forall|i: int| 0 <= i < text.len() implies cp.byte_of(#[trigger] text[i]) == bytes[i] by {
        assert(cp.char_of(bytes[i]) == text[i]);
        assert(cp.char_of(cp.byte_of(text[i])) == text[i]);
        cp.lemma_char_of_injective(cp.byte_of(text[i]), bytes[i]);
    }
    assert(text.map_values(|c: char| cp.byte_of(c)) =~= bytes);
}

/// Encoding then decoding gives back every text that the code page can carry.
pub proof fn law_legacy_text_roundtrip(cp: LegacyCodePage, text: Seq<char>)
    ensures
        cp.spec_encode(text) matches Some(bytes) ==> cp.spec_decode(bytes) == text,
{
    if let Some(bytes) = cp.spec_encode(text) {
        assert forall|i: int| 0 <= i < text.len() implies cp.char_of(cp.byte_of(#[trigger] text[i])) == text[i] by {
            assert(cp.represents(text[i]));
        }
        assert(cp.spec_decode(bytes) =~= text);
    }
}

/// The ANSI (Windows) code pages of SQL Server collations, whose conversions
/// the `encoding_rs` crate performs.
#[derive(Debug, Clone, Copy, PartialEq, Eq, Structural)]
pub enum AnsiCodePage {
    Windows874,
    Windows1250,
    Windows1251,
    Windows1252,
    Windows1253,
    Windows1254,
    Windows1255,
    Windows1256,
    Windows1257,
    Windows1258,
    ShiftJis,
    Gbk,
    EucKr,
    Big5,
}

/// The longest input handed to `encoding_rs`: its buffer size computations
/// panic on overflow, which inputs below this bound rule out.
pub const MAX_CONVERTED_LEN: usize = usize::MAX / 64;

/// The bound `MAX_CONVERTED_LEN` as a number.
pub open spec fn max_converted_len() -> nat {
    MAX_CONVERTED_LEN as nat
}

/// What `encoding_rs` gives when it decodes `bytes` in `cp` with malformed
/// sequences replaced: the text, and whether anything was replaced.
pub uninterp spec fn ansi_decoding(cp: AnsiCodePage, bytes: Seq<u8>) -> (Seq<char>, bool);

/// What `encoding_rs` gives when it encodes `text` in `cp` with unmappable
/// characters replaced: the bytes, and whether anything was unmappable.
pub uninterp spec fn ansi_encoding(cp: AnsiCodePage, text: Seq<char>) -> (Seq<u8>, bool);

/// Calls `encoding_rs::Encoding::decode_without_bom_handling` on the encoding
/// that `cp` names. Its result is named, not described: the text with each
/// malformed sequence replaced by U+FFFD, and the flag that tells whether any
/// sequence was malformed.
#[verifier::external_body]
fn ansi_decode_replacing(cp: AnsiCodePage, bytes: &[u8]) -> (r: (String, bool))
    requires
        bytes@.len() <= max_converted_len(),
    ensures
        (r.0@, r.1) == ansi_decoding(cp, bytes@),
{
    let encoding = match cp {
        AnsiCodePage::Windows874 => encoding_rs::WINDOWS_874, AnsiCodePage::Windows1250 => encoding_rs::WINDOWS_1250,
        AnsiCodePage::Windows1251 => encoding_rs::WINDOWS_1251, AnsiCodePage::Windows1252 => encoding_rs::WINDOWS_1252,
        AnsiCodePage::Windows1253 => encoding_rs::WINDOWS_1253, AnsiCodePage::Windows1254 => encoding_rs::WINDOWS_1254,
        AnsiCodePage::Windows1255 => encoding_rs::WINDOWS_1255, AnsiCodePage::Windows1256 => encoding_rs::WINDOWS_1256,
        AnsiCodePage::Windows1257 => encoding_rs::WINDOWS_1257, AnsiCodePage::Windows1258 => encoding_rs::WINDOWS_1258,
        AnsiCodePage::ShiftJis => encoding_rs::SHIFT_JIS, AnsiCodePage::Gbk => encoding_rs::GBK,
        AnsiCodePage::EucKr => encoding_rs::EUC_KR, AnsiCodePage::Big5 => encoding_rs::BIG5,
    };
    let (text, had_errors) = encoding.decode_without_bom_handling(bytes);
    (text.into_owned(), had_errors)
}

/// Calls `encoding_rs::Encoding::encode` on the encoding that `cp` names. Its
/// result is named, not described: the bytes, with each unmappable character
/// replaced by a numeric character reference, and the flag that tells whether
/// any character was unmappable.
#[verifier::external_body]
fn ansi_encode_replacing(cp: AnsiCodePage, text: &str) -> (r: (Vec<u8>, bool))
    requires
        text@.len() <= max_converted_len(),
    ensures
        (r.0@, r.1) == ansi_encoding(cp, text@),
{
    let encoding = match cp {
        AnsiCodePage::Windows874 => encoding_rs::WINDOWS_874, AnsiCodePage::Windows1250 => encoding_rs::WINDOWS_1250,
        AnsiCodePage::Windows1251 => encoding_rs::WINDOWS_1251, AnsiCodePage::Windows1252 => encoding_rs::WINDOWS_1252,
        AnsiCodePage::Windows1253 => encoding_rs::WINDOWS_1253, AnsiCodePage::Windows1254 => encoding_rs::WINDOWS_1254,
        AnsiCodePage::Windows1255 => encoding_rs::WINDOWS_1255, AnsiCodePage::Windows1256 => encoding_rs::WINDOWS_1256,
        AnsiCodePage::Windows1257 => encoding_rs::WINDOWS_1257, AnsiCodePage::Windows1258 => encoding_rs::WINDOWS_1258,
        AnsiCodePage::ShiftJis => encoding_rs::SHIFT_JIS, AnsiCodePage::Gbk => encoding_rs::GBK,
        AnsiCodePage::EucKr => encoding_rs::EUC_KR, AnsiCodePage::Big5 => encoding_rs::BIG5,
    };
    let (bytes, _, had_errors) = encoding.encode(text);
    (bytes.into_owned(), had_errors)
}

/// What a replacing decoder's output becomes: the text, unless something was
/// malformed and the reading is strict, which is an error.
pub fn accept_decoding(text: String, malformed: bool, lossy: bool) -> (r: Result<String, Error>)
    ensures
        malformed && !lossy ==> r == Err::<String, Error>(Error::Encoding(MALFORMED_CHARACTERS)),
        !(malformed && !lossy) ==> r == Ok::<String, Error>(text),
{
    if malformed && !lossy {
        Err(Error::Encoding(MALFORMED_CHARACTERS))
    } else {
        Ok(text)
    }
}

/// What a replacing encoder's output becomes: the bytes, unless a character
/// was unmappable, which is an error.
pub fn accept_encoding(bytes: Vec<u8>, unmappable: bool) -> (r: Result<Vec<u8>, Error>)
    ensures
        unmappable ==> r == Err::<Vec<u8>, Error>(Error::Encoding(UNREPRESENTABLE_CHARACTER)),
        !unmappable ==> r == Ok::<Vec<u8>, Error>(bytes),
{
    if unmappable {
        Err(Error::Encoding(UNREPRESENTABLE_CHARACTER))
    } else {
        Ok(bytes)
    }
}

impl AnsiCodePage {
    /// The code page's name, as `encoding_rs` spells it.
    pub open spec fn spec_name(self) -> &'static str {
        match self {
            AnsiCodePage::Windows874 => "windows-874",
            AnsiCodePage::Windows1250 => "windows-1250",
            AnsiCodePage::Windows1251 => "windows-1251",
            AnsiCodePage::Windows1252 => "windows-1252",
            AnsiCodePage::Windows1253 => "windows-1253",
            AnsiCodePage::Windows1254 => "windows-1254",
            AnsiCodePage::Windows1255 => "windows-1255",
            AnsiCodePage::Windows1256 => "windows-1256",
            AnsiCodePage::Windows1257 => "windows-1257",
            AnsiCodePage::Windows1258 => "windows-1258",
            AnsiCodePage::ShiftJis => "Shift_JIS",
            AnsiCodePage::Gbk => "GBK",
            AnsiCodePage::EucKr => "EUC-KR",
            AnsiCodePage::Big5 => "Big5",
        }
    }

    /// The code page's name.
    pub fn name(self) -> (name: &'static str)
        ensures
            name == self.spec_name(),
    {
        match self {
            AnsiCodePage::Windows874 => "windows-874",
            AnsiCodePage::Windows1250 => "windows-1250",
            AnsiCodePage::Windows1251 => "windows-1251",
            AnsiCodePage::Windows1252 => "windows-1252",
            AnsiCodePage::Windows1253 => "windows-1253",
            AnsiCodePage::Windows1254 => "windows-1254",
            AnsiCodePage::Windows1255 => "windows-1255",
            AnsiCodePage::Windows1256 => "windows-1256",
            AnsiCodePage::Windows1257 => "windows-1257",
            AnsiCodePage::Windows1258 => "windows-1258",
            AnsiCodePage::ShiftJis => "Shift_JIS",
            AnsiCodePage::Gbk => "GBK",
            AnsiCodePage::EucKr => "EUC-KR",
            AnsiCodePage::Big5 => "Big5",
        }
    }

    /// Decoding: malformed input is an error, unless `lossy` asks for the
    /// replaced text.
    pub open spec fn spec_decode(self, bytes: Seq<u8>, lossy: bool) -> Result<Seq<char>, Error> {
        let (text, malformed) = ansi_decoding(self, bytes);
        if malformed && !lossy {
            Err(Error::Encoding(MALFORMED_CHARACTERS))
        } else {
            Ok(text)
        }
    }

    /// Encoding: an unmappable character is an error.
    pub open spec fn spec_encode(self, text: Seq<char>) -> Result<Seq<u8>, Error> {
        let (bytes, unmappable) = ansi_encoding(self, text);
        if unmappable {
            Err(Error::Encoding(UNREPRESENTABLE_CHARACTER))
        } else {
            Ok(bytes)
        }
    }

    /// Decodes `bytes`; see `spec_decode`.
    pub fn decode(self, bytes: &[u8], lossy: bool) -> (r: Result<String, Error>)
        requires
            bytes@.len() <= max_converted_len(),
        ensures
            match r {
                Ok(text) => self.spec_decode(bytes@, lossy) == Ok::<Seq<char>, Error>(text@),
                Err(e) => self.spec_decode(bytes@, lossy) == Err::<Seq<char>, Error>(e),
            },
    {
        let (text, malformed) = ansi_decode_replacing(self, bytes);
        accept_decoding(text, malformed, lossy)
    }

    /// Encodes `text`; see `spec_encode`.
    pub fn encode(self, text: &str) -> (r: Result<Vec<u8>, Error>)
        requires
            text@.len() <= max_converted_len(),
        ensures
            match r {
                Ok(bytes) => self.spec_encode(text@) == Ok::<Seq<u8>, Error>(bytes@),
                Err(e) => self.spec_encode(text@) == Err::<Seq<u8>, Error>(e),
            },
    {
        let (bytes, unmappable) = ansi_encode_replacing(self, text);
        accept_encoding(bytes, unmappable)
    }
}

/// The conversion between a collation's bytes and text.
#[derive(Debug, Clone, Copy, PartialEq, Eq, Structural)]
pub enum Codec {
    /// A code page that this library maps itself.
    Legacy(LegacyCodePage),
    /// A code page that `encoding_rs` converts.
    Ansi(AnsiCodePage),
}

impl Codec {
    /// The code page's name.
    pub open spec fn spec_name(self) -> &'static str {
        match self {
            Codec::Legacy(LegacyCodePage::Cp437) => "CP437",
            Codec::Legacy(LegacyCodePage::Cp850) => "CP850",
            Codec::Ansi(cp) => cp.spec_name(),
        }
    }

    /// The code page's name.
    pub fn name(&self) -> (name: &'static str)
        ensures
            name == self.spec_name(),
    {
        match self {
            Codec::Legacy(LegacyCodePage::Cp437) => "CP437",
            Codec::Legacy(LegacyCodePage::Cp850) => "CP850",
            Codec::Ansi(cp) => cp.name(),
        }
    }

    /// Decoding `bytes`; with `lossy`, malformed input gives replaced text
    /// in place of an error.
    pub open spec fn spec_decode(self, bytes: Seq<u8>, lossy: bool) -> Result<Seq<char>, Error> {
        match self {
            Codec::Legacy(cp) => Ok(cp.spec_decode(bytes)),
            Codec::Ansi(cp) => cp.spec_decode(bytes, lossy),
        }
    }

    /// Encoding `text`; a character the code page cannot carry is an error.
    pub open spec fn spec_encode(self, text: Seq<char>) -> Result<Seq<u8>, Error> {
        match self {
            Codec::Legacy(cp) => match cp.spec_encode(text) {
                Some(bytes) => Ok(bytes),
                None => Err(Error::Encoding(UNREPRESENTABLE_CHARACTER)),
            },
            Codec::Ansi(cp) => cp.spec_encode(text),
        }
    }

    /// Decodes `bytes`, treating malformed input as an error.
    pub fn decode(&self, bytes: &[u8]) -> (r: Result<String, Error>)
        requires
            bytes@.len() <= max_converted_len(),
        ensures
            match r {
                Ok(text) => self.spec_decode(bytes@, false) == Ok::<Seq<char>, Error>(text@),
                Err(e) => self.spec_decode(bytes@, false) == Err::<Seq<char>, Error>(e),
            },
    {
        self.decode_with(bytes, false)
    }

    /// Decodes `bytes`; with `lossy`, malformed sequences become U+FFFD.
    pub fn decode_with(&self, bytes: &[u8], lossy: bool) -> (r: Result<String, Error>)
        requires
            bytes@.len() <= max_converted_len(),
        ensures
            match r {
                Ok(text) => self.spec_decode(bytes@, lossy) == Ok::<Seq<char>, Error>(text@),
                Err(e) => self.spec_decode(bytes@, lossy) == Err::<Seq<char>, Error>(e),
            },
    {
        match self {
            Codec::Legacy(cp) => Ok(cp.decode(bytes)),
            Codec::Ansi(cp) => cp.decode(bytes, lossy),
        }
    }

    /// Encodes `text`; a character the code page cannot carry is an error.
    pub fn encode(&self, text: &str) -> (r: Result<Vec<u8>, Error>)
        requires
            text@.len() <= max_converted_len(),
        ensures
            match r {
                Ok(bytes) => self.spec_encode(text@) == Ok::<Seq<u8>, Error>(bytes@),
                Err(e) => self.spec_encode(text@) == Err::<Seq<u8>, Error>(e),
            },
    {
        match self {
            Codec::Legacy(cp) => match cp.encode(text) {
                Some(bytes) => Ok(bytes),
                None => Err(Error::Encoding(UNREPRESENTABLE_CHARACTER)),
            },
            Codec::Ansi(cp) => cp.encode(text),
        }
    }
}

/// Lossy decoding fails nowhere, and it changes no result of strict decoding:
/// it only turns malformed-input errors into text.
pub proof fn law_lossy_decoding_extends_strict(codec: Codec, bytes: Seq<u8>)
    ensures
        codec.spec_decode(bytes, true) is Ok,
        codec.spec_decode(bytes, false) is Ok ==> codec.spec_decode(bytes, true) == codec.spec_decode(bytes, false),
        codec.spec_decode(bytes, false) is Err ==> codec.spec_decode(bytes, false) == Err::<Seq<char>, Error>(Error::Encoding(MALFORMED_CHARACTERS)),
{
}

/// Decoding and encoding in an ANSI code page are exactly what `encoding_rs`
/// does to all the given bytes or characters: strict decoding gives its text
/// unless it found a malformed sequence, lossy decoding always gives its
/// text, and encoding gives its bytes unless a character was unmappable.
pub proof fn law_ansi_conversion_is_encoding_rs(cp: AnsiCodePage, bytes: Seq<u8>, text: Seq<char>)
    ensures
        Codec::Ansi(cp).spec_decode(bytes, true) == Ok::<Seq<char>, Error>(ansi_decoding(cp, bytes).0),
        !ansi_decoding(cp, bytes).1 ==> Codec::Ansi(cp).spec_decode(bytes, false) == Ok::<Seq<char>, Error>(ansi_decoding(cp, bytes).0),
        ansi_decoding(cp, bytes).1 ==> Codec::Ansi(cp).spec_decode(bytes, false) == Err::<Seq<char>, Error>(Error::Encoding(MALFORMED_CHARACTERS)),
        !ansi_encoding(cp, text).1 ==> Codec::Ansi(cp).spec_encode(text) == Ok::<Seq<u8>, Error>(ansi_encoding(cp, text).0),
        ansi_encoding(cp, text).1 ==> Codec::Ansi(cp).spec_encode(text) == Err::<Seq<u8>, Error>(Error::Encoding(UNREPRESENTABLE_CHARACTER)),
{
}

/// Decoding in a legacy code page turns each byte into exactly one
/// character: the byte itself below 0x80, the table entry above.
pub proof fn law_legacy_decoding_is_bytewise(cp: LegacyCodePage, bytes: Seq<u8>)
    ensures
        Codec::Legacy(cp).spec_decode(bytes, false) == Codec::Legacy(cp).spec_decode(bytes, true),
        Codec::Legacy(cp).spec_decode(bytes, false) matches Ok(text) && text.len() == bytes.len()
            && forall|i: int| 0 <= i < bytes.len() ==> #[trigger] text[i] == (if bytes[i] < 128 {
                bytes[i] as char
            } else {
                match cp {
                    LegacyCodePage::Cp437 => CP437_HIGH@[bytes[i] - 128],
                    LegacyCodePage::Cp850 => CP850_HIGH@[bytes[i] - 128],
                }
            }),
{
}

} // verus!
