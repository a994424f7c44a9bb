use vstd::prelude::*;
use crate::codepage::{AnsiCodePage, Codec, LegacyCodePage};
use crate::error::{Error, NOT_AN_ANSI_CODE_PAGE, UNSUPPORTED_COLLATION};

verus! {

/// The code page of an old SQL Server sort order, given by its sort ID.
pub open spec fn codec_of_sort_id(sort_id: u8) -> Option<Codec> {
    if 30 <= sort_id <= 35 {
        Some(Codec::Legacy(LegacyCodePage::Cp437))
    } else if (40 <= sort_id <= 45) || sort_id == 49 || (55 <= sort_id <= 61) {
        Some(Codec::Legacy(LegacyCodePage::Cp850))
    } else if (50 <= sort_id <= 54) || (183 <= sort_id <= 186) || (210 <= sort_id <= 217) {
        Some(Codec::Ansi(AnsiCodePage::Windows1252))
    } else if 80 <= sort_id <= 96 {
        Some(Codec::Ansi(AnsiCodePage::Windows1250))
    } else if 104 <= sort_id <= 108 {
        Some(Codec::Ansi(AnsiCodePage::Windows1251))
    } else if (112 <= sort_id <= 114) || sort_id == 120 || sort_id == 121 || sort_id == 124 {
        Some(Codec::Ansi(AnsiCodePage::Windows1253))
    } else if 128 <= sort_id <= 130 {
        Some(Codec::Ansi(AnsiCodePage::Windows1254))
    } else if 136 <= sort_id <= 138 {
        Some(Codec::Ansi(AnsiCodePage::Windows1255))
    } else if 144 <= sort_id <= 146 {
        Some(Codec::Ansi(AnsiCodePage::Windows1256))
    } else if 152 <= sort_id <= 160 {
        Some(Codec::Ansi(AnsiCodePage::Windows1257))
    } else if sort_id == 192 || sort_id == 193 || sort_id == 200 {
        Some(Codec::Ansi(AnsiCodePage::ShiftJis))
    } else if sort_id == 194 || sort_id == 195 {
        Some(Codec::Ansi(AnsiCodePage::EucKr))
    } else if sort_id == 196 || sort_id == 197 {
        Some(Codec::Ansi(AnsiCodePage::Big5))
    } else if sort_id == 198 || sort_id == 199 {
        Some(Codec::Ansi(AnsiCodePage::Gbk))
    } else {
        None
    }
}

/// The ANSI code page of a Windows locale, given by its LCID: chosen by the
/// primary language (the low ten bits) and, for a few languages written in
/// more than one script, by the sublanguage.
pub open spec fn codec_of_lcid(lcid: u32) -> Option<Codec> {
    let lang = lcid % 1024;
    let sub = lcid / 1024;
    if lang == 0 {
        None
    } else if lang == 0x04 {
        if sub == 2 || sub == 4 {
            Some(Codec::Ansi(AnsiCodePage::Gbk))
        } else {
            Some(Codec::Ansi(AnsiCodePage::Big5))
        }
    } else if lang == 0x11 {
        Some(Codec::Ansi(AnsiCodePage::ShiftJis))
    } else if lang == 0x12 {
        Some(Codec::Ansi(AnsiCodePage::EucKr))
    } else if lang == 0x1E {
        Some(Codec::Ansi(AnsiCodePage::Windows874))
    } else if lang == 0x2A {
        Some(Codec::Ansi(AnsiCodePage::Windows1258))
    } else if lang == 0x05 || lang == 0x0E || lang == 0x15 || lang == 0x18 || lang == 0x1B
        || lang == 0x1C || lang == 0x24 || (lang == 0x1A && sub != 3 && sub != 7 && sub != 8) {
        Some(Codec::Ansi(AnsiCodePage::Windows1250))
    } else if lang == 0x02 || lang == 0x19 || lang == 0x22 || lang == 0x23 || lang == 0x2F
        || lang == 0x3F || lang == 0x40 || lang == 0x44 || lang == 0x50 || lang == 0x1A
        || ((lang == 0x2C || lang == 0x43) && sub == 2) {
        Some(Codec::Ansi(AnsiCodePage::Windows1251))
    } else if lang == 0x08 {
        Some(Codec::Ansi(AnsiCodePage::Windows1253))
    } else if lang == 0x1F || lang == 0x2C || lang == 0x43 {
        Some(Codec::Ansi(AnsiCodePage::Windows1254))
    } else if lang == 0x0D {
        Some(Codec::Ansi(AnsiCodePage::Windows1255))
    } else if lang == 0x01 || lang == 0x20 || lang == 0x29 {
        Some(Codec::Ansi(AnsiCodePage::Windows1256))
    } else if lang == 0x25 || lang == 0x26 || lang == 0x27 {
        Some(Codec::Ansi(AnsiCodePage::Windows1257))
    } else {
        Some(Codec::Ansi(AnsiCodePage::Windows1252))
    }
}

/// The code page of the sort order `sort_id`.
pub fn sort_id_codec(sort_id: u8) -> (codec: Option<Codec>)
    ensures
        codec == codec_of_sort_id(sort_id),
{
    if 30 <= sort_id && sort_id <= 35 {
        Some(Codec::Legacy(LegacyCodePage::Cp437))
    } else if (40 <= sort_id && sort_id <= 45) || sort_id == 49 || (55 <= sort_id && sort_id <= 61) {
        Some(Codec::Legacy(LegacyCodePage::Cp850))
    } else if (50 <= sort_id && sort_id <= 54) || (183 <= sort_id && sort_id <= 186) || (210
        <= sort_id && sort_id <= 217) {
        Some(Codec::Ansi(AnsiCodePage::Windows1252))
    } else if 80 <= sort_id && sort_id <= 96 {
        Some(Codec::Ansi(AnsiCodePage::Windows1250))
    } else if 104 <= sort_id && sort_id <= 108 {
        Some(Codec::Ansi(AnsiCodePage::Windows1251))
    } else if (112 <= sort_id && sort_id <= 114) || sort_id == 120 || sort_id == 121 || sort_id
        == 124 {
        Some(Codec::Ansi(AnsiCodePage::Windows1253))
    } else if 128 <= sort_id && sort_id <= 130 {
        Some(Codec::Ansi(AnsiCodePage::Windows1254))
    } else if 136 <= sort_id && sort_id <= 138 {
        Some(Codec::Ansi(AnsiCodePage::Windows1255))
    } else if 144 <= sort_id && sort_id <= 146 {
        Some(Codec::Ansi(AnsiCodePage::Windows1256))
    } else if 152 <= sort_id && sort_id <= 160 {
        Some(Codec::Ansi(AnsiCodePage::Windows1257))
    } else if sort_id == 192 || sort_id == 193 || sort_id == 200 {
        Some(Codec::Ansi(AnsiCodePage::ShiftJis))
    } else if sort_id == 194 || sort_id == 195 {
        Some(Codec::Ansi(AnsiCodePage::EucKr))
    } else if sort_id == 196 || sort_id == 197 {
        Some(Codec::Ansi(AnsiCodePage::Big5))
    } else if sort_id == 198 || sort_id == 199 {
        Some(Codec::Ansi(AnsiCodePage::Gbk))
    } else {
        None
    }
}

/// The ANSI code page of the locale `lcid`.
pub fn lcid_codec(lcid: u32) -> (codec: Option<Codec>)
    ensures
        codec == codec_of_lcid(lcid),
{
    let lang: u32 = lcid % 1024;
    let sub: u32 = lcid / 1024;
    if lang == 0 {
        None
    } else if lang == 0x04 {
        if sub == 2 || sub == 4 {
            Some(Codec::Ansi(AnsiCodePage::Gbk))
        } else {
            Some(Codec::Ansi(AnsiCodePage::Big5))
        }
    } else if lang == 0x11 {
        Some(Codec::Ansi(AnsiCodePage::ShiftJis))
    } else if lang == 0x12 {
        Some(Codec::Ansi(AnsiCodePage::EucKr))
    } else if lang == 0x1E {
        Some(Codec::Ansi(AnsiCodePage::Windows874))
    } else if lang == 0x2A {
        Some(Codec::Ansi(AnsiCodePage::Windows1258))
    } else if lang == 0x05 || lang == 0x0E || lang == 0x15 || lang == 0x18 || lang == 0x1B || lang
        == 0x1C || lang == 0x24 || (lang == 0x1A && sub != 3 && sub != 7 && sub != 8) {
        Some(Codec::Ansi(AnsiCodePage::Windows1250))
    } else if lang == 0x02 || lang == 0x19 || lang == 0x22 || lang == 0x23 || lang == 0x2F || lang
        == 0x3F || lang == 0x40 || lang == 0x44 || lang == 0x50 || lang == 0x1A || ((lang == 0x2C
        || lang == 0x43) && sub == 2) {
        Some(Codec::Ansi(AnsiCodePage::Windows1251))
    } else if lang == 0x08 {
        Some(Codec::Ansi(AnsiCodePage::Windows1253))
    } else if lang == 0x1F || lang == 0x2C || lang == 0x43 {
        Some(Codec::Ansi(AnsiCodePage::Windows1254))
    } else if lang == 0x0D {
        Some(Codec::Ansi(AnsiCodePage::Windows1255))
    } else if lang == 0x01 || lang == 0x20 || lang == 0x29 {
        Some(Codec::Ansi(AnsiCodePage::Windows1256))
    } else if lang == 0x25 || lang == 0x26 || lang == 0x27 {
        Some(Codec::Ansi(AnsiCodePage::Windows1257))
    } else {
        Some(Codec::Ansi(AnsiCodePage::Windows1252))
    }
}

/// A SQL Server collation as the wire carries it: four bytes of locale and
/// comparison flags (`info`) and one byte of sort ID.
#[derive(Debug, Clone, Copy, PartialEq, Eq, Structural)]
pub struct Collation {
    pub info: u32,
    pub sort_id: u8,
}

impl Collation {
    /// The locale ID: the low twenty bits of `info`.
    pub open spec fn spec_lcid(self) -> u32 {
        self.info % 0x10_0000
    }

    /// The code page: that of the sort order where there is one (a sort ID
    /// other than 0), else that of the locale.
    pub open spec fn spec_codec(self) -> Option<Codec> {
        if self.sort_id == 0 {
            codec_of_lcid(self.spec_lcid())
        } else {
            codec_of_sort_id(self.sort_id)
        }
    }

    /// The collation with these wire fields.
    pub fn new(info: u32, sort_id: u8) -> (c: Self)
        ensures
            c.info == info,
            c.sort_id == sort_id,
    {
        Collation { info, sort_id }
    }

    /// The locale and flag bytes.
    pub fn info(&self) -> (info: u32)
        ensures
            info == self.info,
    {
        self.info
    }

    /// The sort ID.
    pub fn sort_id(&self) -> (sort_id: u8)
        ensures
            sort_id == self.sort_id,
    {
        self.sort_id
    }

    /// The locale ID.
    pub fn lcid(&self) -> (lcid: u32)
        ensures
            lcid == self.spec_lcid(),
    {
        self.info % 0x10_0000
    }

    /// The conversion between this collation's bytes and text; an error where
    /// the collation names no code page this library knows.
    pub fn codec(&self) -> (r: Result<Codec, Error>)
        ensures
            r == (match self.spec_codec() {
                Some(codec) => Ok::<Codec, Error>(codec),
                None => Err(Error::Encoding(UNSUPPORTED_COLLATION)),
            }),
    {
        let codec = if self.sort_id == 0 {
            lcid_codec(self.lcid())
        } else {
            sort_id_codec(self.sort_id)
        };
        match codec {
            Some(codec) => Ok(codec),
            None => Err(Error::Encoding(UNSUPPORTED_COLLATION)),
        }
    }

    /// The ANSI code page of this collation; an error for the legacy OEM
    /// code pages and for unknown collations.
    pub fn encoding(&self) -> (r: Result<AnsiCodePage, Error>)
        ensures
            r == (match self.spec_codec() {
                Some(Codec::Ansi(cp)) => Ok::<AnsiCodePage, Error>(cp),
                Some(Codec::Legacy(_)) => Err(Error::Encoding(NOT_AN_ANSI_CODE_PAGE)),
                None => Err(Error::Encoding(UNSUPPORTED_COLLATION)),
            }),
    {
        match self.codec() {
            Ok(Codec::Ansi(cp)) => Ok(cp),
            Ok(Codec::Legacy(_)) => Err(Error::Encoding(NOT_AN_ANSI_CODE_PAGE)),
            Err(e) => Err(e),
        }
    }

    /// The name of this collation's code page, or "None" where it has none.
    pub fn to_string(&self) -> (name: String)
        ensures
            name@ == (match self.spec_codec() {
                Some(codec) => codec.spec_name()@,
                None => "None"@,
            }),
    {
        match self.codec() {
            Ok(codec) => String::from_str(codec.name()),
            Err(_) => String::from_str("None"),
        }
    }
}

/// The locale table by code page: each Windows locale (whatever its
/// sublanguage, unless a sublanguage is named) uses the ANSI code page of its
/// language. Central European languages use windows-1250, Cyrillic ones
/// windows-1251, Greek 1253, Turkish 1254, Hebrew 1255, Arabic-script ones
/// 1256, Baltic ones 1257, Vietnamese 1258, Thai 874, Japanese Shift_JIS,
/// Korean EUC-KR, Simplified Chinese GBK, Traditional Chinese Big5, and every
/// other language windows-1252; locale 0 has none.
pub proof fn law_locale_code_pages(lcid: u32)
    ensures
        ({
            let lang = lcid % 1024;
            let sub = lcid / 1024;
            &&& lang == 0 ==> codec_of_lcid(lcid) is None
            &&& (lang == 0x05 || lang == 0x0E || lang == 0x15 || lang == 0x18 || lang == 0x1B
                || lang == 0x1C || lang == 0x24) ==> codec_of_lcid(lcid) == Some(Codec::Ansi(AnsiCodePage::Windows1250))
            &&& lang == 0x1A ==> codec_of_lcid(lcid) == Some(Codec::Ansi(
                if sub == 3 || sub == 7 || sub == 8 { AnsiCodePage::Windows1251 } else { AnsiCodePage::Windows1250 },
            ))
            &&& (lang == 0x02 || lang == 0x19 || lang == 0x22 || lang == 0x23 || lang == 0x2F
                || lang == 0x3F || lang == 0x40 || lang == 0x44 || lang == 0x50) ==> codec_of_lcid(lcid) == Some(Codec::Ansi(AnsiCodePage::Windows1251))
            &&& (lang == 0x2C || lang == 0x43) ==> codec_of_lcid(lcid) == Some(Codec::Ansi(
                if sub == 2 { AnsiCodePage::Windows1251 } else { AnsiCodePage::Windows1254 },
            ))
            &&& lang == 0x08 ==> codec_of_lcid(lcid) == Some(Codec::Ansi(AnsiCodePage::Windows1253))
            &&& lang == 0x1F ==> codec_of_lcid(lcid) == Some(Codec::Ansi(AnsiCodePage::Windows1254))
            &&& lang == 0x0D ==> codec_of_lcid(lcid) == Some(Codec::Ansi(AnsiCodePage::Windows1255))
            &&& (lang == 0x01 || lang == 0x20 || lang == 0x29) ==> codec_of_lcid(lcid) == Some(Codec::Ansi(AnsiCodePage::Windows1256))
            &&& (lang == 0x25 || lang == 0x26 || lang == 0x27) ==> codec_of_lcid(lcid) == Some(Codec::Ansi(AnsiCodePage::Windows1257))
            &&& lang == 0x2A ==> codec_of_lcid(lcid) == Some(Codec::Ansi(AnsiCodePage::Windows1258))
            &&& lang == 0x1E ==> codec_of_lcid(lcid) == Some(Codec::Ansi(AnsiCodePage::Windows874))
            &&& lang == 0x11 ==> codec_of_lcid(lcid) == Some(Codec::Ansi(AnsiCodePage::ShiftJis))
            &&& lang == 0x12 ==> codec_of_lcid(lcid) == Some(Codec::Ansi(AnsiCodePage::EucKr))
            &&& lang == 0x04 ==> codec_of_lcid(lcid) == Some(Codec::Ansi(
                if sub == 2 || sub == 4 { AnsiCodePage::Gbk } else { AnsiCodePage::Big5 },
            ))
            &&& !(lang == 0 || lang == 0x01 || lang == 0x02 || lang == 0x04 || lang == 0x05 || lang == 0x08
                || lang == 0x0D || lang == 0x0E || lang == 0x11 || lang == 0x12 || lang == 0x15 || lang == 0x18
                || lang == 0x19 || lang == 0x1A || lang == 0x1B || lang == 0x1C || lang == 0x1E || lang == 0x1F
                || lang == 0x20 || lang == 0x22 || lang == 0x23 || lang == 0x24 || lang == 0x25 || lang == 0x26
                || lang == 0x27 || lang == 0x29 || lang == 0x2A || lang == 0x2C || lang == 0x2F || lang == 0x3F
                || lang == 0x40 || lang == 0x43 || lang == 0x44 || lang == 0x50)
                ==> codec_of_lcid(lcid) == Some(Codec::Ansi(AnsiCodePage::Windows1252))
        }),
        // A few locales by name: Polish, Czech, Russian, Greek, Turkish,
        // Hebrew, Arabic, Estonian, Vietnamese, Thai, Japanese, Korean,
        // Chinese (PRC), Chinese (Taiwan), English (US), German.
        codec_of_lcid(0x0415) == Some(Codec::Ansi(AnsiCodePage::Windows1250)),
        codec_of_lcid(0x0405) == Some(Codec::Ansi(AnsiCodePage::Windows1250)),
        codec_of_lcid(0x0419) == Some(Codec::Ansi(AnsiCodePage::Windows1251)),
        codec_of_lcid(0x0408) == Some(Codec::Ansi(AnsiCodePage::Windows1253)),
        codec_of_lcid(0x041F) == Some(Codec::Ansi(AnsiCodePage::Windows1254)),
        codec_of_lcid(0x040D) == Some(Codec::Ansi(AnsiCodePage::Windows1255)),
        codec_of_lcid(0x0401) == Some(Codec::Ansi(AnsiCodePage::Windows1256)),
        codec_of_lcid(0x0425) == Some(Codec::Ansi(AnsiCodePage::Windows1257)),
        codec_of_lcid(0x042A) == Some(Codec::Ansi(AnsiCodePage::Windows1258)),
        codec_of_lcid(0x041E) == Some(Codec::Ansi(AnsiCodePage::Windows874)),
        codec_of_lcid(0x0411) == Some(Codec::Ansi(AnsiCodePage::ShiftJis)),
        codec_of_lcid(0x0412) == Some(Codec::Ansi(AnsiCodePage::EucKr)),
        codec_of_lcid(0x0804) == Some(Codec::Ansi(AnsiCodePage::Gbk)),
        codec_of_lcid(0x0404) == Some(Codec::Ansi(AnsiCodePage::Big5)),
        codec_of_lcid(0x0409) == Some(Codec::Ansi(AnsiCodePage::Windows1252)),
        codec_of_lcid(0x0407) == Some(Codec::Ansi(AnsiCodePage::Windows1252)),
{
}

/// The sort order table by code page: sort IDs 30-35 use code page 437;
/// 40-45, 49 and 55-61 code page 850; 50-54, 183-186 and 210-217
/// windows-1252; 80-96 windows-1250; 104-108 windows-1251; 112-114, 120, 121
/// and 124 windows-1253; 128-130 windows-1254; 136-138 windows-1255; 144-146
/// windows-1256; 152-160 windows-1257; 192, 193 and 200 Shift_JIS; 194 and
/// 195 EUC-KR; 196 and 197 Big5; 198 and 199 GBK; no other sort ID has a
/// code page. A non-zero sort ID decides over the locale.
pub proof fn law_sort_order_code_pages(s: u8, info: u32)
    ensures
        30 <= s <= 35 ==> codec_of_sort_id(s) == Some(Codec::Legacy(LegacyCodePage::Cp437)),
        (40 <= s <= 45 || s == 49 || 55 <= s <= 61) ==> codec_of_sort_id(s) == Some(Codec::Legacy(LegacyCodePage::Cp850)),
        (50 <= s <= 54 || 183 <= s <= 186 || 210 <= s <= 217) ==> codec_of_sort_id(s) == Some(Codec::Ansi(AnsiCodePage::Windows1252)),
        80 <= s <= 96 ==> codec_of_sort_id(s) == Some(Codec::Ansi(AnsiCodePage::Windows1250)),
        104 <= s <= 108 ==> codec_of_sort_id(s) == Some(Codec::Ansi(AnsiCodePage::Windows1251)),
        (112 <= s <= 114 || s == 120 || s == 121 || s == 124) ==> codec_of_sort_id(s) == Some(Codec::Ansi(AnsiCodePage::Windows1253)),
        128 <= s <= 130 ==> codec_of_sort_id(s) == Some(Codec::Ansi(AnsiCodePage::Windows1254)),
        136 <= s <= 138 ==> codec_of_sort_id(s) == Some(Codec::Ansi(AnsiCodePage::Windows1255)),
        144 <= s <= 146 ==> codec_of_sort_id(s) == Some(Codec::Ansi(AnsiCodePage::Windows1256)),
        152 <= s <= 160 ==> codec_of_sort_id(s) == Some(Codec::Ansi(AnsiCodePage::Windows1257)),
        (s == 192 || s == 193 || s == 200) ==> codec_of_sort_id(s) == Some(Codec::Ansi(AnsiCodePage::ShiftJis)),
        (s == 194 || s == 195) ==> codec_of_sort_id(s) == Some(Codec::Ansi(AnsiCodePage::EucKr)),
        (s == 196 || s == 197) ==> codec_of_sort_id(s) == Some(Codec::Ansi(AnsiCodePage::Big5)),
        (s == 198 || s == 199) ==> codec_of_sort_id(s) == Some(Codec::Ansi(AnsiCodePage::Gbk)),
        !(30 <= s <= 35 || 40 <= s <= 45 || s == 49 || 50 <= s <= 54 || 55 <= s <= 61 || 80 <= s <= 96
            || 104 <= s <= 108 || 112 <= s <= 114 || s == 120 || s == 121 || s == 124 || 128 <= s <= 130
            || 136 <= s <= 138 || 144 <= s <= 146 || 152 <= s <= 160 || 183 <= s <= 186 || 192 <= s <= 200
            || 210 <= s <= 217) ==> codec_of_sort_id(s) is None,
        s != 0 ==> (Collation { info, sort_id: s }).spec_codec() == codec_of_sort_id(s),
        (Collation { info, sort_id: 0 }).spec_codec() == codec_of_lcid(info % 0x10_0000),
{
}

} // verus!
