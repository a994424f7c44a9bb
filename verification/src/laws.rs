use vstd::prelude::*;
use crate::codepage::{law_legacy_text_roundtrip, law_lossy_decoding_extends_strict, Codec, LegacyCodePage};
use crate::collation::Collation;
use crate::column::{
    char_value, spec_chars, unicode_value, spec_char_bytes, spec_decode_value, spec_encode_value, spec_frame, spec_wire_value,
    variant_data_start, ColumnValue, ReaderContext, TypeInfo, VarLenContext,
    VarLenType,
};
use crate::error::{Error, UNREPRESENTABLE_CHARACTER, UNSUPPORTED_COLLATION, VALUE_TOO_LONG};
use crate::utf16::{spec_utf16_text, law_utf16_lossy_extends_strict, law_utf16_roundtrip, spec_utf16_bytes, units_of};
use crate::wire::{
    law_plp_frame_roundtrip, law_plp_null_roundtrip, law_short_frame_roundtrip,
    law_short_null_roundtrip, law_text_frame_roundtrip, law_text_null_roundtrip, le_bytes16,
    le_bytes32, le_bytes64, le_u32, lemma_frames_prefix, lemma_le16, lemma_le32,
    lemma_read_prefix, plp_bytes, short_bytes, spec_short_frame, spec_text_frame, text_bytes,
};

verus! {

/// The columns whose every written text reads back unchanged: the Unicode
/// ones, and the character ones whose code page this library maps itself.
pub open spec fn reads_back(ti: TypeInfo) -> bool {
    match ti {
        TypeInfo::VarLenSized(vlc) => match vlc.ty {
            VarLenType::NChar | VarLenType::NVarchar | VarLenType::NText => true,
            VarLenType::BigChar | VarLenType::BigVarChar | VarLenType::Text => match vlc.collation {
                Some(c) => c.spec_codec() matches Some(Codec::Legacy(_)),
                None => false,
            },
            _ => false,
        },
        TypeInfo::Xml { .. } => false,
    }
}

/// Reading back framed data gives the data, in the frame the column uses.
proof fn lemma_framed_reads_back(vlc: VarLenContext, data: Seq<u8>, text_layout: bool, bytes: Seq<u8>, rest: Seq<u8>)
    requires
        crate::column::framed(vlc, data, text_layout) == Ok::<Seq<u8>, Error>(bytes),
    ensures
        text_layout ==> spec_text_frame(bytes + rest) == Ok::<(Option<Seq<u8>>, int), Error>((Some(data), bytes.len() as int)),
        !text_layout && vlc.is_max() ==> crate::wire::spec_plp_frame(bytes + rest) == Ok::<(Option<Seq<u8>>, int), Error>((Some(data), bytes.len() as int)),
        !text_layout && !vlc.is_max() ==> spec_short_frame(bytes + rest) == Ok::<(Option<Seq<u8>>, int), Error>((Some(data), bytes.len() as int)),
{
    if text_layout {
        assert(bytes == text_bytes(data));
        assert(bytes.len() == data.len() + 29);
        law_text_frame_roundtrip(data, rest);
    } else if vlc.is_max() {
        assert(bytes == plp_bytes(data));
        law_plp_frame_roundtrip(data, rest);
    } else {
        assert(bytes == short_bytes(data));
        assert(bytes.len() == data.len() + 2);
        law_short_frame_roundtrip(data, rest);
    }
}

/// What is written is what is read: encoding a text or a NULL for a column
/// whose code page round-trips, then decoding the bytes in any reader
/// context and with anything after them, gives the value back and takes
/// exactly the written bytes.
#[verifier::rlimit(50)]
pub proof fn law_value_roundtrip(text: Option<Seq<char>>, ti: TypeInfo, ctx: ReaderContext, rest: Seq<u8>)
    requires
        reads_back(ti),
    ensures
        spec_encode_value(ColumnValue::Text(text), ti) matches Ok(bytes) ==> spec_decode_value(bytes + rest, ti, ctx)
            == Ok::<(ColumnValue, int), Error>((ColumnValue::Text(text), bytes.len() as int)),
{
    if let Ok(bytes) = spec_encode_value(ColumnValue::Text(text), ti) {
        if let TypeInfo::VarLenSized(vlc) = ti {
            match text {
                None => {
                    law_short_null_roundtrip(rest);
                    law_text_null_roundtrip(rest);
                    law_plp_null_roundtrip(rest);
                },
                Some(t) => {
                    if vlc.ty == VarLenType::NChar || vlc.ty == VarLenType::NVarchar || vlc.ty == VarLenType::NText {
                        let data = spec_utf16_bytes(t);
                        lemma_framed_reads_back(vlc, data, vlc.ty == VarLenType::NText, bytes, rest);
                        law_utf16_roundtrip(t, ctx.lossy_utf16);
                    } else {
                        let c = vlc.collation.unwrap();
                        let cp = match c.spec_codec() {
                            Some(Codec::Legacy(cp)) => cp,
                            _ => LegacyCodePage::Cp437,
                        };
                        let data = cp.spec_encode(t).unwrap();
                        law_legacy_text_roundtrip(cp, t);
                        lemma_framed_reads_back(vlc, data, vlc.ty == VarLenType::Text, bytes, rest);
                    }
                },
            }
        }
    }
}

/// A value read from `s` is read the same whatever follows `s`: a reader
/// that decodes one value leaves the next one intact.
pub proof fn law_decode_prefix(s: Seq<u8>, rest: Seq<u8>, ti: TypeInfo, ctx: ReaderContext)
    ensures
        spec_decode_value(s, ti, ctx) is Ok ==> spec_decode_value(s + rest, ti, ctx) == spec_decode_value(s, ti, ctx),
{
    lemma_frames_prefix(s, rest);
    lemma_read_prefix(s, rest, 0);
    lemma_read_prefix(s, rest, 6);
    if s.len() >= 4 && s.len() >= 4 + le_u32(s, 0) && le_u32(s, 0) >= 9 {
        let end = 4 + le_u32(s, 0);
        assert((s + rest).subrange(variant_data_start(), end) =~= s.subrange(variant_data_start(), end));
        assert((s + rest)[4] == s[4]);
        assert((s + rest)[5] == s[5]);
        assert((s + rest)[10] == s[10]);
    }
}

/// The strict reader context: both flags off.
pub open spec fn strict_context() -> ReaderContext {
    ReaderContext { lossy_codepage: false, lossy_utf16: false }
}

/// Lossy reading only turns decoding errors into text: where strict reading
/// succeeds, every context reads the same; where a context fails, strict
/// reading fails with the same error (framing and collation errors stay).
pub proof fn law_lossy_extends_strict(s: Seq<u8>, ti: TypeInfo, ctx: ReaderContext)
    ensures
        spec_decode_value(s, ti, strict_context()) is Ok ==> spec_decode_value(s, ti, ctx) == spec_decode_value(s, ti, strict_context()),
        spec_decode_value(s, ti, ctx) is Err ==> spec_decode_value(s, ti, strict_context()) == spec_decode_value(s, ti, ctx),
{
    assert forall|codec: Codec, bytes: Seq<u8>| #[trigger] codec.spec_decode(bytes, true) is Ok
        && (codec.spec_decode(bytes, false) is Ok ==> codec.spec_decode(bytes, true) == codec.spec_decode(bytes, false)) by {
        law_lossy_decoding_extends_strict(codec, bytes);
    }
    assert forall|bytes: Seq<u8>| #[trigger] crate::utf16::spec_utf16_text(bytes, true) is Err implies crate::utf16::spec_utf16_text(bytes, false) == crate::utf16::spec_utf16_text(bytes, true) by {
        law_utf16_lossy_extends_strict(units_of(bytes));
    }
    assert forall|bytes: Seq<u8>| #[trigger] crate::utf16::spec_utf16_text(bytes, false) is Ok implies crate::utf16::spec_utf16_text(bytes, true) == crate::utf16::spec_utf16_text(bytes, false) by {
        law_utf16_lossy_extends_strict(units_of(bytes));
    }
}

/// Each flag of the reader context governs only its own kind of data: the
/// code page flag leaves Unicode and XML columns alone, and the UTF-16 flag
/// leaves code page columns alone.
pub proof fn law_flags_are_independent(s: Seq<u8>, ti: TypeInfo, ctx1: ReaderContext, ctx2: ReaderContext)
    ensures
        (match ti {
            TypeInfo::VarLenSized(vlc) => vlc.ty == VarLenType::NChar || vlc.ty == VarLenType::NVarchar || vlc.ty == VarLenType::NText,
            TypeInfo::Xml { .. } => true,
        }) && ctx1.lossy_utf16 == ctx2.lossy_utf16 ==> spec_decode_value(s, ti, ctx1) == spec_decode_value(s, ti, ctx2),
        (match ti {
            TypeInfo::VarLenSized(vlc) => vlc.ty == VarLenType::BigChar || vlc.ty == VarLenType::BigVarChar || vlc.ty == VarLenType::Text,
            TypeInfo::Xml { .. } => false,
        }) && ctx1.lossy_codepage == ctx2.lossy_codepage ==> spec_decode_value(s, ti, ctx1) == spec_decode_value(s, ti, ctx2),
{
}

/// Bulk limits count encoded bytes: a text that the code page carries fits a
/// character column of declared length `len` exactly when its encoding takes
/// at most `len` bytes (and fewer than the NULL marker 0xFFFF).
pub proof fn law_bulk_limit_counts_encoded_bytes(text: Seq<char>, vlc: VarLenContext)
    requires
        vlc.ty == VarLenType::BigChar || vlc.ty == VarLenType::BigVarChar,
        !vlc.is_max(),
    ensures
        spec_char_bytes(vlc.collation, text) matches Ok(data) ==> (spec_encode_value(ColumnValue::Text(Some(text)), TypeInfo::VarLenSized(vlc)) is Ok
            <==> data.len() <= vlc.len && data.len() < 0xFFFF),
{
}

/// Writing never relaxes: with a legacy code page, encoding a text fails
/// with the unrepresentable-character error exactly when some character has
/// no byte in the code page.
pub proof fn law_legacy_encoding_refuses_unrepresentable(text: Seq<char>, vlc: VarLenContext, cp: LegacyCodePage)
    requires
        vlc.ty == VarLenType::BigChar || vlc.ty == VarLenType::BigVarChar || vlc.ty == VarLenType::Text,
        vlc.collation matches Some(c) && c.spec_codec() == Some(Codec::Legacy(cp)),
    ensures
        spec_encode_value(ColumnValue::Text(Some(text)), TypeInfo::VarLenSized(vlc)) == Err::<Seq<u8>, Error>(Error::Encoding(UNREPRESENTABLE_CHARACTER))
            <==> exists|i: int| 0 <= i < text.len() && !cp.represents(#[trigger] text[i]),
{
}

/// The TEXT layout of `frame` reads back as its payload.
proof fn lemma_text_layout_reads_back(payload: Seq<u8>, rest: Seq<u8>)
    requires
        payload.len() <= 0xFFFF_FFFF,
    ensures
        spec_text_frame(seq![1u8, 0u8] + le_bytes64(0) + le_bytes32((payload.len() % 0x1_0000_0000) as int) + payload + rest)
            == Ok::<(Option<Seq<u8>>, int), Error>((Some(payload), payload.len() as int + 14)),
{
    let n = payload.len() as int;
    assert(n % 0x1_0000_0000 == n);
    let s = seq![1u8, 0u8] + le_bytes64(0) + le_bytes32(n) + payload + rest;
    assert(s[0] == 1u8);
    assert(s.subrange(10, 14) =~= le_bytes32(n));
    lemma_le32(n, s, 10);
    assert(s.subrange(14, 14 + n) =~= payload);
}

/// The length-prefix layout of `frame` reads back as its payload.
proof fn lemma_prefix_layout_reads_back(payload: Seq<u8>, rest: Seq<u8>)
    requires
        payload.len() < 0xFFFF,
    ensures
        spec_short_frame(le_bytes16((payload.len() % 0x1_0000) as int) + payload + rest)
            == Ok::<(Option<Seq<u8>>, int), Error>((Some(payload), payload.len() as int + 2)),
{
    let n = payload.len() as int;
    assert(n % 0x1_0000 == n);
    let s = le_bytes16(n) + payload + rest;
    assert(s.subrange(0, 2) =~= le_bytes16(n));
    lemma_le16(n, s, 0);
    assert(s.subrange(2, 2 + n) =~= payload);
}

/// The wire forms built by `frame` and `wire_value` read back as their
/// payload, whatever follows them: the TEXT layout for TEXT and NTEXT (and
/// for `wire_value`, TEXT only), the two-byte length prefix otherwise.
pub proof fn law_frame_reads_back(ty: VarLenType, payload: Seq<u8>, rest: Seq<u8>)
    ensures
        (ty == VarLenType::Text || ty == VarLenType::NText) && payload.len() <= 0xFFFF_FFFF ==> spec_text_frame(spec_frame(ty, payload) + rest)
            == Ok::<(Option<Seq<u8>>, int), Error>((Some(payload), payload.len() as int + 14)),
        !(ty == VarLenType::Text || ty == VarLenType::NText) && payload.len() < 0xFFFF ==> spec_short_frame(spec_frame(ty, payload) + rest)
            == Ok::<(Option<Seq<u8>>, int), Error>((Some(payload), payload.len() as int + 2)),
        ty == VarLenType::Text && payload.len() <= 0xFFFF_FFFF ==> spec_text_frame(spec_wire_value(ty, payload) + rest)
            == Ok::<(Option<Seq<u8>>, int), Error>((Some(payload), payload.len() as int + 14)),
        ty != VarLenType::Text && payload.len() < 0xFFFF ==> spec_short_frame(spec_wire_value(ty, payload) + rest)
            == Ok::<(Option<Seq<u8>>, int), Error>((Some(payload), payload.len() as int + 2)),
{
    if payload.len() <= 0xFFFF_FFFF {
        lemma_text_layout_reads_back(payload, rest);
    }
    if payload.len() < 0xFFFF {
        lemma_prefix_layout_reads_back(payload, rest);
    }
}

/// Character data follows the column's collation: its bytes are exactly the
/// collation code page's encoding of the text, and its text exactly the code
/// page's decoding of the bytes, for legacy and ANSI code pages alike; a
/// collation without a code page is an error both ways.
pub proof fn law_character_data_uses_collation_code_page(c: Collation, text: Seq<char>, bytes: Seq<u8>, lossy: bool)
    ensures
        c.spec_codec() matches Some(codec) ==> spec_char_bytes(Some(c), text) == codec.spec_encode(text)
            && spec_chars(Some(c), bytes, lossy) == codec.spec_decode(bytes, lossy),
        c.spec_codec() is None ==> spec_char_bytes(Some(c), text) == Err::<Seq<u8>, Error>(Error::Encoding(UNSUPPORTED_COLLATION))
            && spec_chars(Some(c), bytes, lossy) == Err::<Seq<char>, Error>(Error::Encoding(UNSUPPORTED_COLLATION)),
{
}

/// The bulk layout of a text in a (non-max) CHAR or VARCHAR column: the
/// collation code page's bytes behind their two-byte little-endian length,
/// refused when longer than the declared length; an unencodable text keeps
/// the code page's error.
pub proof fn law_bulk_character_layout(text: Seq<char>, vlc: VarLenContext, c: Collation, codec: Codec)
    requires
        vlc.ty == VarLenType::BigChar || vlc.ty == VarLenType::BigVarChar,
        !vlc.is_max(),
        vlc.collation == Some(c),
        c.spec_codec() == Some(codec),
    ensures
        spec_encode_value(ColumnValue::Text(Some(text)), TypeInfo::VarLenSized(vlc)) == (match codec.spec_encode(text) {
            Ok(d) => if d.len() <= vlc.len && d.len() < 0xFFFF {
                Ok(seq![(d.len() % 256) as u8, (d.len() / 256) as u8] + d)
            } else {
                Err(Error::BulkInput(VALUE_TOO_LONG))
            },
            Err(e) => Err(e),
        }),
{
    if let Ok(d) = codec.spec_encode(text) {
        if d.len() < 0xFFFF {
            assert(short_bytes(d) =~= seq![(d.len() % 256) as u8, (d.len() / 256) as u8] + d);
        }
    }
}

/// What is written is what is read, for every collation: where the
/// collation's code page encodes a text and decodes the bytes back to it
/// (always so for the legacy code pages), writing the text to a CHAR,
/// VARCHAR or TEXT column and reading it back, with anything after it, gives
/// the text and takes exactly the written bytes.
pub proof fn law_value_roundtrip_through_codec(
    text: Seq<char>,
    vlc: VarLenContext,
    c: Collation,
    codec: Codec,
    ctx: ReaderContext,
    rest: Seq<u8>,
)
    requires
        vlc.ty == VarLenType::BigChar || vlc.ty == VarLenType::BigVarChar || vlc.ty == VarLenType::Text,
        vlc.collation == Some(c),
        c.spec_codec() == Some(codec),
        codec.spec_encode(text) matches Ok(d) && codec.spec_decode(d, ctx.lossy_codepage) == Ok::<Seq<char>, Error>(text),
    ensures
        spec_encode_value(ColumnValue::Text(Some(text)), TypeInfo::VarLenSized(vlc)) matches Ok(bytes)
            ==> spec_decode_value(bytes + rest, TypeInfo::VarLenSized(vlc), ctx)
            == Ok::<(ColumnValue, int), Error>((ColumnValue::Text(Some(text)), bytes.len() as int)),
{
    if let Ok(bytes) = spec_encode_value(ColumnValue::Text(Some(text)), TypeInfo::VarLenSized(vlc)) {
        let d = codec.spec_encode(text).unwrap();
        lemma_framed_reads_back(vlc, d, vlc.ty == VarLenType::Text, bytes, rest);
    }
}

/// The bytes of a character or Unicode `sql_variant`: a four-byte length
/// (nine more than the data), the base type, the property count 7, the
/// four-byte collation info, the sort ID, the two-byte maximum length, the
/// data.
pub open spec fn variant_bytes(base: u8, c: Collation, max_len: u16, data: Seq<u8>) -> Seq<u8> {
    le_bytes32(9 + data.len() as int) + seq![base, 7u8] + le_bytes32(c.info as int) + seq![c.sort_id]
        + le_bytes16(max_len as int) + data
}

/// A `sql_variant` carries its own collation: a character variant's data is
/// decoded under the collation written right after the property count (not
/// the column's), a Unicode variant's data as UTF-16; the value takes the
/// whole variant, whatever follows it.
pub proof fn law_variant_layout(
    ty: VarLenType,
    c: Collation,
    max_len: u16,
    data: Seq<u8>,
    vlc: VarLenContext,
    ctx: ReaderContext,
    rest: Seq<u8>,
)
    requires
        vlc.ty == VarLenType::SSVariant,
        ty == VarLenType::BigChar || ty == VarLenType::BigVarChar || ty == VarLenType::NChar || ty == VarLenType::NVarchar,
        data.len() <= 0xFFFF_0000,
    ensures
        (ty == VarLenType::BigChar || ty == VarLenType::BigVarChar) ==> spec_decode_value(
            variant_bytes(ty.spec_to_u8(), c, max_len, data) + rest, TypeInfo::VarLenSized(vlc), ctx,
        ) == char_value(Ok((Some(data), 13 + data.len() as int)), Some(c), ctx.lossy_codepage),
        (ty == VarLenType::NChar || ty == VarLenType::NVarchar) ==> spec_decode_value(
            variant_bytes(ty.spec_to_u8(), c, max_len, data) + rest, TypeInfo::VarLenSized(vlc), ctx,
        ) == unicode_value(Ok((Some(data), 13 + data.len() as int)), ctx.lossy_utf16, false),
{
    let n = data.len() as int;
    let s = variant_bytes(ty.spec_to_u8(), c, max_len, data) + rest;
    assert(s.subrange(0, 4) =~= le_bytes32(9 + n));
    lemma_le32(9 + n, s, 0);
    assert(s[4] == ty.spec_to_u8());
    assert(s[5] == 7u8);
    assert(s.subrange(6, 10) =~= le_bytes32(c.info as int));
    lemma_le32(c.info as int, s, 6);
    assert(s[10] == c.sort_id);
    assert(s.subrange(variant_data_start(), 13 + n) =~= data);
    ty.law_token_roundtrip();
}


/// Reading a (non-max) CHAR, VARCHAR, NCHAR or NVARCHAR column: the bytes
/// FF FF are NULL; otherwise a two-byte little-endian length is followed by
/// that many bytes of data, which character columns decode under their
/// collation and Unicode columns as UTF-16LE. The value takes the length and
/// the data, whatever follows.
pub proof fn law_prefixed_column_layout(vlc: VarLenContext, ctx: ReaderContext, data: Seq<u8>, rest: Seq<u8>)
    requires
        vlc.ty == VarLenType::BigChar || vlc.ty == VarLenType::BigVarChar || vlc.ty == VarLenType::NChar || vlc.ty == VarLenType::NVarchar,
        !vlc.is_max(),
        data.len() < 0xFFFF,
    ensures
        spec_decode_value(seq![0xFFu8, 0xFFu8] + rest, TypeInfo::VarLenSized(vlc), ctx)
            == Ok::<(ColumnValue, int), Error>((ColumnValue::Text(None), 2)),
        (vlc.ty == VarLenType::BigChar || vlc.ty == VarLenType::BigVarChar) ==> spec_decode_value(
            seq![(data.len() % 256) as u8, (data.len() / 256) as u8] + data + rest, TypeInfo::VarLenSized(vlc), ctx,
        ) == (match spec_chars(vlc.collation, data, ctx.lossy_codepage) {
            Ok(t) => Ok((ColumnValue::Text(Some(t)), data.len() as int + 2)),
            Err(e) => Err(e),
        }),
        (vlc.ty == VarLenType::NChar || vlc.ty == VarLenType::NVarchar) ==> spec_decode_value(
            seq![(data.len() % 256) as u8, (data.len() / 256) as u8] + data + rest, TypeInfo::VarLenSized(vlc), ctx,
        ) == (match spec_utf16_text(data, ctx.lossy_utf16) {
            Ok(t) => Ok((ColumnValue::Text(Some(t)), data.len() as int + 2)),
            Err(e) => Err(e),
        }),
{
    let n = data.len() as int;
    let s0 = seq![0xFFu8, 0xFFu8] + rest;
    assert(s0.subrange(0, 2) =~= le_bytes16(0xFFFF));
    lemma_le16(0xFFFF, s0, 0);
    let s = seq![(n % 256) as u8, (n / 256) as u8] + data + rest;
    assert(s.subrange(0, 2) =~= le_bytes16(n));
    lemma_le16(n, s, 0);
    assert(s.subrange(2, 2 + n) =~= data);
}

} // verus!
