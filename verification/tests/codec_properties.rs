use tds_codepage::codepage::{accept_decoding, accept_encoding, CP437_HIGH, CP850_HIGH};
use tds_codepage::column::decode_value;
use tds_codepage::utf16::{decode_utf16, encode_utf16};
use tds_codepage::{
    frame, type_info, wire_value, AnsiCodePage, ByteReader, Codec, Collation, ColumnData, Error,
    LegacyCodePage, ReaderContext, TypeInfo, VarLenContext, VarLenType,
};

fn char_info(ty: VarLenType, len: usize, sort_id: u8) -> TypeInfo {
    TypeInfo::VarLenSized(VarLenContext::new(ty, len, Some(Collation::new(0x409, sort_id))))
}

fn decode_all(info: &TypeInfo, wire: Vec<u8>, ctx: ReaderContext) -> Result<(ColumnData, usize), Error> {
    decode_value(&wire, info, ctx)
}

#[test]
fn legacy_bytes_roundtrip_for_every_byte() {
    for cp in [LegacyCodePage::Cp437, LegacyCodePage::Cp850] {
        let bytes: Vec<u8> = (0..=255).collect();
        let text = cp.decode(&bytes);
        assert_eq!(text.chars().count(), 256);
        assert_eq!(cp.encode(&text).unwrap(), bytes);
    }
}

#[test]
fn legacy_tables_match_their_high_halves() {
    assert_eq!(LegacyCodePage::Cp437.decode_byte(0x82), 'é');
    assert_eq!(LegacyCodePage::Cp850.decode_byte(0x9b), 'ø');
    assert_eq!(LegacyCodePage::Cp437.decode_byte(0x41), 'A');
    assert_eq!(CP437_HIGH[0], 'Ç');
    assert_eq!(CP850_HIGH[127], '\u{a0}');
    assert_eq!(LegacyCodePage::Cp437.encode_char('€'), None);
    assert_eq!(LegacyCodePage::Cp850.encode_char('ø'), Some(0x9b));
}

#[test]
fn legacy_encode_refuses_unrepresentable_text() {
    assert_eq!(LegacyCodePage::Cp437.encode("ab€"), None);
    assert_eq!(LegacyCodePage::Cp437.encode("aé"), Some(vec![0x61, 0x82]));
    let codec = Codec::Legacy(LegacyCodePage::Cp850);
    assert_eq!(codec.encode("€"), Err(Error::Encoding("unrepresentable character")));
}

#[test]
fn ansi_code_pages_follow_encoding_rs() {
    let pairs = [
        (AnsiCodePage::Windows874, encoding_rs::WINDOWS_874),
        (AnsiCodePage::Windows1250, encoding_rs::WINDOWS_1250),
        (AnsiCodePage::Windows1251, encoding_rs::WINDOWS_1251),
        (AnsiCodePage::Windows1252, encoding_rs::WINDOWS_1252),
        (AnsiCodePage::Windows1253, encoding_rs::WINDOWS_1253),
        (AnsiCodePage::Windows1254, encoding_rs::WINDOWS_1254),
        (AnsiCodePage::Windows1255, encoding_rs::WINDOWS_1255),
        (AnsiCodePage::Windows1256, encoding_rs::WINDOWS_1256),
        (AnsiCodePage::Windows1257, encoding_rs::WINDOWS_1257),
        (AnsiCodePage::Windows1258, encoding_rs::WINDOWS_1258),
        (AnsiCodePage::ShiftJis, encoding_rs::SHIFT_JIS),
        (AnsiCodePage::Gbk, encoding_rs::GBK),
        (AnsiCodePage::EucKr, encoding_rs::EUC_KR),
        (AnsiCodePage::Big5, encoding_rs::BIG5),
    ];
    let sample: Vec<u8> = (0x40..=0xff).collect();
    for (cp, encoding) in pairs {
        assert_eq!(cp.name(), encoding.name());
        let (expected, malformed) = encoding.decode_without_bom_handling(&sample);
        assert_eq!(cp.decode(&sample, true).unwrap(), expected);
        if malformed {
            assert_eq!(cp.decode(&sample, false), Err(Error::Encoding("invalid byte sequence for the collation")));
        } else {
            assert_eq!(cp.decode(&sample, false).unwrap(), expected);
        }
    }
}

#[test]
fn ansi_decoding_is_not_the_identity() {
    let gbk = Codec::Ansi(AnsiCodePage::Gbk);
    assert_eq!(gbk.decode(b"\xef\xbb\xbfabc").unwrap(), "锘縜bc");
    let cp1251 = Codec::Ansi(AnsiCodePage::Windows1251);
    assert_eq!(cp1251.decode(b"\xcf\xf0\xe8").unwrap(), "При");
    assert_eq!(cp1251.encode("При").unwrap(), b"\xcf\xf0\xe8");
}

#[test]
fn lossy_decoding_never_fails_and_keeps_valid_input() {
    let sjis = Codec::Ansi(AnsiCodePage::ShiftJis);
    assert!(sjis.decode(b"ok\x81 ").is_err());
    assert_eq!(sjis.decode_with(b"ok\x81 ", true).unwrap(), "ok\u{fffd} ");
    assert_eq!(sjis.decode_with(b"plain", true).unwrap(), sjis.decode(b"plain").unwrap());
}

#[test]
fn sort_ids_and_locales_choose_code_pages() {
    assert_eq!(Collation::new(0x409, 30).codec(), Ok(Codec::Legacy(LegacyCodePage::Cp437)));
    assert_eq!(Collation::new(0x409, 45).codec(), Ok(Codec::Legacy(LegacyCodePage::Cp850)));
    assert_eq!(Collation::new(0x409, 52).codec(), Ok(Codec::Ansi(AnsiCodePage::Windows1252)));
    assert_eq!(Collation::new(0x804, 192).codec(), Ok(Codec::Ansi(AnsiCodePage::ShiftJis)));
    assert_eq!(Collation::new(0x804, 194).codec(), Ok(Codec::Ansi(AnsiCodePage::EucKr)));
    assert_eq!(Collation::new(0x804, 198).codec(), Ok(Codec::Ansi(AnsiCodePage::Gbk)));
    assert_eq!(Collation::new(0x0804, 0).codec(), Ok(Codec::Ansi(AnsiCodePage::Gbk)));
    assert_eq!(Collation::new(0x0404, 0).codec(), Ok(Codec::Ansi(AnsiCodePage::Big5)));
    assert_eq!(Collation::new(0x0411, 0).codec(), Ok(Codec::Ansi(AnsiCodePage::ShiftJis)));
    assert_eq!(Collation::new(0x0419, 0).codec(), Ok(Codec::Ansi(AnsiCodePage::Windows1251)));
    assert_eq!(Collation::new(0x0409, 0).codec(), Ok(Codec::Ansi(AnsiCodePage::Windows1252)));
    assert_eq!(Collation::new(0x00d0_0409, 0).lcid(), 0x0409);
    assert_eq!(Collation::new(0, 0).codec(), Err(Error::Encoding("unsupported collation")));
    assert_eq!(Collation::new(0x409, 255).to_string(), "None");
    assert_eq!(Collation::new(0x409, 52).to_string(), "windows-1252");
    assert_eq!(Collation::new(0x409, 30).encoding(), Err(Error::Encoding("the collation uses an OEM code page")));
}

#[test]
fn utf16_roundtrip_and_surrogates() {
    let text = "a€🙂z";
    let bytes = encode_utf16(text);
    assert_eq!(bytes, vec![0x61, 0, 0xac, 0x20, 0x3d, 0xd8, 0x42, 0xde, 0x7a, 0]);
    assert_eq!(decode_utf16(&bytes, false).unwrap(), text);
    assert_eq!(decode_utf16(&[0, 0xd8], false), Err(Error::Utf16("invalid UTF-16 data")));
    assert_eq!(decode_utf16(&[0, 0xd8, 0x41, 0], true).unwrap(), "\u{fffd}A");
    assert_eq!(decode_utf16(&[0, 0xdc], true).unwrap(), "\u{fffd}");
    assert_eq!(decode_utf16(&[0x41], true), Err(Error::Protocol("UTF-16 data of odd byte length")));
}

#[test]
fn unicode_columns_roundtrip() {
    for (ty, len) in [
        (VarLenType::NChar, 64),
        (VarLenType::NVarchar, 64),
        (VarLenType::NVarchar, 0xffff),
        (VarLenType::NText, 64),
    ] {
        let info = char_info(ty, len, 52);
        for value in [
            ColumnData::String(Some("Grüße 🙂".into())),
            ColumnData::String(Some("".into())),
            ColumnData::String(None),
        ] {
            let mut encoded = Vec::new();
            value.encode(&mut encoded, &info).unwrap();
            let n = encoded.len();
            encoded.extend_from_slice(b"trailing");
            let (decoded, used) = decode_all(&info, encoded, ReaderContext::new()).unwrap();
            assert_eq!(decoded, value);
            assert_eq!(used, n);
        }
    }
}

#[test]
fn varchar_max_roundtrips_through_plp() {
    let info = char_info(VarLenType::BigVarChar, 0xffff, 49);
    let value = ColumnData::String(Some("Café ø".into()));
    let mut encoded = Vec::new();
    value.encode(&mut encoded, &info).unwrap();
    assert_eq!(
        encoded,
        vec![6, 0, 0, 0, 0, 0, 0, 0, 6, 0, 0, 0, 0x43, 0x61, 0x66, 0x82, 0x20, 0x9b, 0, 0, 0, 0]
    );
    let (decoded, used) = decode_all(&info, encoded, ReaderContext::new()).unwrap();
    assert_eq!(decoded, value);
    assert_eq!(used, 22);
    let mut null = Vec::new();
    ColumnData::String(None).encode(&mut null, &info).unwrap();
    assert_eq!(null, vec![0xff; 8]);
    assert_eq!(decode_all(&info, null, ReaderContext::new()).unwrap(), (ColumnData::String(None), 8));
}

#[test]
fn text_columns_write_a_sixteen_byte_pointer() {
    let info = char_info(VarLenType::Text, 32, 30);
    let mut encoded = Vec::new();
    ColumnData::String(Some("é".into())).encode(&mut encoded, &info).unwrap();
    let mut expected = vec![16u8];
    expected.extend_from_slice(&[0u8; 24]);
    expected.extend_from_slice(&[1, 0, 0, 0, 0x82]);
    assert_eq!(encoded, expected);
}

#[test]
fn frames_have_their_documented_layout() {
    assert_eq!(frame(VarLenType::BigChar, b"ab"), vec![2, 0, b'a', b'b']);
    assert_eq!(
        frame(VarLenType::NText, b"ab"),
        vec![1, 0, 0, 0, 0, 0, 0, 0, 0, 0, 2, 0, 0, 0, b'a', b'b']
    );
    assert_eq!(wire_value(VarLenType::NText, b"ab"), vec![2, 0, b'a', b'b']);
    assert_eq!(wire_value(VarLenType::Text, b"ab"), frame(VarLenType::Text, b"ab"));
}

#[test]
fn type_info_uses_the_fixed_locale_and_length() {
    let info = type_info(VarLenType::BigChar, 198);
    assert_eq!(
        info,
        TypeInfo::VarLenSized(VarLenContext::new(VarLenType::BigChar, 64, Some(Collation::new(0x804, 198))))
    );
}

#[test]
fn every_error_kind_has_an_input() {
    let info = char_info(VarLenType::BigVarChar, 32, 30);
    let ctx = ReaderContext::new();
    assert_eq!(decode_all(&info, vec![5, 0, 1], ctx).unwrap_err(), Error::Io("unexpected end of input"));
    let nvarchar = char_info(VarLenType::NVarchar, 32, 52);
    assert!(matches!(decode_all(&nvarchar, vec![1, 0, 0x41], ctx), Err(Error::Protocol(_))));
    assert!(matches!(decode_all(&nvarchar, vec![2, 0, 0, 0xdc], ctx), Err(Error::Utf16(_))));
    let binary = char_info(VarLenType::BigBinary, 32, 30);
    assert_eq!(decode_all(&binary, vec![0, 0], ctx).unwrap_err(), Error::Protocol("unsupported column type"));
    let no_collation = TypeInfo::VarLenSized(VarLenContext::new(VarLenType::BigChar, 32, None));
    assert_eq!(
        decode_all(&no_collation, vec![1, 0, 0x41], ctx).unwrap_err(),
        Error::Encoding("character data without a collation")
    );
    let mut out = Vec::new();
    let too_long = ColumnData::String(Some("abc".into())).encode(&mut out, &char_info(VarLenType::BigChar, 2, 30));
    assert_eq!(too_long, Err(Error::BulkInput("value too long for the column")));
    assert!(out.is_empty());
    let xml = TypeInfo::Xml { schema: None, size: 64 };
    assert!(matches!(ColumnData::String(None).encode(&mut out, &xml), Err(Error::Conversion(_))));
}

#[test]
fn sql_variant_rejects_non_character_base_types_and_bad_properties() {
    let info = TypeInfo::VarLenSized(VarLenContext::new(VarLenType::SSVariant, 8016, None));
    let ctx = ReaderContext::new();
    let int_variant = vec![6, 0, 0, 0, 0x38, 0, 1, 0, 0, 0];
    assert_eq!(decode_all(&info, int_variant, ctx).unwrap_err(), Error::Protocol("unsupported sql_variant base type"));
    let bad_props = vec![3, 0, 0, 0, 0xA7, 2, 0];
    assert_eq!(decode_all(&info, bad_props, ctx).unwrap_err(), Error::Protocol("malformed value framing"));
    assert_eq!(decode_all(&info, vec![0, 0, 0, 0], ctx).unwrap(), (ColumnData::String(None), 4));
    let mut unicode = vec![13, 0, 0, 0, 0xE7, 7, 0x09, 0x04, 0, 0, 52, 8, 0];
    unicode.extend_from_slice(&[0x41, 0, 0x42, 0]);
    assert_eq!(decode_all(&info, unicode, ctx).unwrap(), (ColumnData::String(Some("AB".into())), 17));
}

#[test]
fn failed_decoding_leaves_the_reader_in_place() {
    let info = char_info(VarLenType::BigChar, 32, 30);
    let mut wire = frame(VarLenType::BigChar, b"ok");
    wire.extend_from_slice(&[9, 0]);
    let mut reader = ByteReader::new(wire);
    assert_eq!(ColumnData::decode(&mut reader, &info).unwrap(), ColumnData::String(Some("ok".into())));
    assert_eq!(reader.position(), 4);
    assert!(ColumnData::decode(&mut reader, &info).is_err());
    assert_eq!(reader.position(), 4);
}

#[test]
fn the_utf16_flag_only_relaxes_unicode_columns() {
    let nchar = char_info(VarLenType::NChar, 32, 52);
    let mut ctx = ReaderContext::new();
    ctx.set_lossy_utf16(true);
    assert_eq!(
        decode_all(&nchar, frame(VarLenType::NChar, &[0, 0xd8]), ctx).unwrap(),
        (ColumnData::String(Some("\u{fffd}".into())), 4)
    );
    let gbk = char_info(VarLenType::BigChar, 32, 198);
    assert!(decode_all(&gbk, frame(VarLenType::BigChar, b"\x81 "), ctx).is_err());
    let xml = TypeInfo::Xml { schema: None, size: 64 };
    let wire = vec![2, 0, 0, 0, 0, 0, 0, 0, 2, 0, 0, 0, 0x41, 0, 0, 0, 0, 0];
    assert_eq!(decode_all(&xml, wire, ReaderContext::new()).unwrap(), (ColumnData::Xml(Some("A".into())), 18));
}

#[test]
fn var_len_type_tokens_roundtrip() {
    for ty in [
        VarLenType::BigVarBin,
        VarLenType::BigVarChar,
        VarLenType::BigBinary,
        VarLenType::BigChar,
        VarLenType::NVarchar,
        VarLenType::NChar,
        VarLenType::Xml,
        VarLenType::Udt,
        VarLenType::Text,
        VarLenType::Image,
        VarLenType::NText,
        VarLenType::SSVariant,
    ] {
        assert_eq!(VarLenType::from_u8(ty.to_u8()), Some(ty));
    }
    assert_eq!(VarLenType::BigVarChar.to_u8(), 0xA7);
    assert_eq!(VarLenType::from_u8(0x00), None);
}

#[test]
fn replaced_output_is_accepted_only_when_allowed() {
    assert_eq!(accept_decoding("a\u{fffd}".into(), true, true).unwrap(), "a\u{fffd}");
    assert_eq!(
        accept_decoding("a\u{fffd}".into(), true, false),
        Err(Error::Encoding("invalid byte sequence for the collation"))
    );
    assert_eq!(accept_decoding("ab".into(), false, false).unwrap(), "ab");
    assert_eq!(accept_encoding(vec![1, 2], false).unwrap(), vec![1, 2]);
    assert_eq!(accept_encoding(vec![1, 2], true), Err(Error::Encoding("unrepresentable character")));
}
