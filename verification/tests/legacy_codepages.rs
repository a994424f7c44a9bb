use bytes::{BufMut, BytesMut};
use tds_codepage::{
    wire_value, AnsiCodePage, ByteReader, Collation, ColumnData, Error, TypeInfo, VarLenContext,
    VarLenType,
};

const CP437_EXPECTED_HIGH: &str = "ÇüéâäàåçêëèïîìÄÅÉæÆôöòûùÿÖÜ¢£¥₧ƒáíóúñÑªº¿⌐¬½¼¡«»░▒▓│┤╡╢╖╕╣║╗╝╜╛┐└┴┬├─┼╞╟╚╔╩╦╠═╬╧╨╤╥╙╘╒╓╫╪┘┌█▄▌▐▀αßΓπΣσµτΦΘΩδ∞φε∩≡±≥≤⌠⌡÷≈°∙·√ⁿ²■\u{a0}";

const CP850_EXPECTED_HIGH: &str = "ÇüéâäàåçêëèïîìÄÅÉæÆôöòûùÿÖÜø£Ø×ƒáíóúñÑªº¿®¬½¼¡«»░▒▓│┤ÁÂÀ©╣║╗╝¢¥┐└┴┬├─┼ãÃ╚╔╩╦╠═╬¤ðÐÊËÈıÍÎÏ┘┌█▄¦Ì▀ÓßÔÒõÕµþÞÚÛÙýÝ¯´\u{ad}±‗¾¶§÷¸°¨·¹³²■\u{a0}";

fn reader_of(bytes: &[u8]) -> ByteReader {
    ByteReader::new(bytes.to_vec())
}

#[test]
fn legacy_codepages_decode_raw_char_varchar_and_text() {
    for (sort_id, payload, expected) in [
        (30, b"Caf\x82 \xe0\xff".as_slice(), "Café α\u{a0}"),
        (49, b"Caf\x82 \x9b\xff".as_slice(), "Café ø\u{a0}"),
    ] {
        for ty in [
            VarLenType::BigChar,
            VarLenType::BigVarChar,
            VarLenType::Text,
        ] {
            let type_info = TypeInfo::VarLenSized(VarLenContext::new(
                ty,
                32,
                Some(Collation::new(0x409, sort_id)),
            ));
            let mut reader = reader_of(&wire_value(ty, payload));
            let decoded = ColumnData::decode(&mut reader, &type_info).unwrap();
            assert_eq!(decoded, ColumnData::String(Some(expected.into())));
        }
    }
}

#[test]
fn legacy_codepages_match_unicode_mappings_for_every_byte() {
    let payload: Vec<u8> = (0..=255).collect();
    let ascii: String = (0..=127).map(char::from).collect();
    for sort_id in (30..=35).chain(40..=45).chain([49]).chain(55..=61) {
        let high = if sort_id <= 35 {
            CP437_EXPECTED_HIGH
        } else {
            CP850_EXPECTED_HIGH
        };
        let expected = format!("{ascii}{high}");
        for ty in [
            VarLenType::BigChar,
            VarLenType::BigVarChar,
            VarLenType::Text,
        ] {
            let type_info = TypeInfo::VarLenSized(VarLenContext::new(
                ty,
                256,
                Some(Collation::new(0x409, sort_id)),
            ));
            let mut reader = reader_of(&wire_value(ty, &payload));
            let decoded = ColumnData::decode(&mut reader, &type_info).unwrap();
            assert_eq!(
                decoded,
                ColumnData::String(Some(expected.as_str().into())),
                "sort ID {sort_id}, type {ty:?}",
            );
            let mut encoded = Vec::new();
            decoded.encode(&mut encoded, &type_info).unwrap();
            assert!(encoded.ends_with(&payload));
            let mut reader = ByteReader::new(encoded);
            let decoded = ColumnData::decode(&mut reader, &type_info).unwrap();
            assert_eq!(decoded, ColumnData::String(Some(expected.as_str().into())));
        }
    }
}

#[test]
fn legacy_codepages_reject_unrepresentable_bulk_values() {
    for sort_id in [30, 49] {
        for ty in [
            VarLenType::BigChar,
            VarLenType::BigVarChar,
            VarLenType::Text,
        ] {
            let type_info = TypeInfo::VarLenSized(VarLenContext::new(
                ty,
                32,
                Some(Collation::new(0x409, sort_id)),
            ));
            let mut encoded = Vec::new();
            let error = ColumnData::String(Some("€".into()))
                .encode(&mut encoded, &type_info)
                .unwrap_err();
            assert!(matches!(
                error,
                Error::Encoding(message) if message == "unrepresentable character"
            ));
        }
    }
}

#[test]
fn legacy_codepages_preserve_empty_and_null_values() {
    for sort_id in [30, 49] {
        for ty in [
            VarLenType::BigChar,
            VarLenType::BigVarChar,
            VarLenType::Text,
        ] {
            let type_info = TypeInfo::VarLenSized(VarLenContext::new(
                ty,
                32,
                Some(Collation::new(0x409, sort_id)),
            ));
            let mut reader = reader_of(&wire_value(ty, b""));
            let empty = ColumnData::decode(&mut reader, &type_info).unwrap();
            assert_eq!(empty, ColumnData::String(Some("".into())));
            let null: &[u8] = if ty == VarLenType::Text {
                &[0]
            } else {
                &[255, 255]
            };
            let mut reader = reader_of(null);
            let null = ColumnData::decode(&mut reader, &type_info).unwrap();
            assert_eq!(null, ColumnData::String(None));
        }
    }
}

#[test]
fn legacy_codepages_bulk_limits_use_encoded_byte_length() {
    for sort_id in [30, 49] {
        for ty in [VarLenType::BigChar, VarLenType::BigVarChar] {
            let type_info = TypeInfo::VarLenSized(VarLenContext::new(
                ty,
                1,
                Some(Collation::new(0x409, sort_id)),
            ));
            let mut encoded = Vec::new();
            ColumnData::String(Some("é".into()))
                .encode(&mut encoded, &type_info)
                .unwrap();
            assert_eq!(&encoded[..], &[1, 0, 0x82]);
            let error = ColumnData::String(Some("éé".into()))
                .encode(&mut encoded, &type_info)
                .unwrap_err();
            assert!(matches!(error, Error::BulkInput(_)));
        }
    }
}

#[test]
fn legacy_codepages_preserve_builtin_and_unknown_collations() {
    let windows = Collation::new(0x409, 52);
    assert_eq!(windows.encoding().unwrap(), AnsiCodePage::Windows1252);
    assert_eq!(windows.encoding().unwrap().name(), encoding_rs::WINDOWS_1252.name());
    assert_eq!(windows.codec().unwrap().decode(b"caf\xe9").unwrap(), "café");
    assert_eq!(windows.codec().unwrap().encode("café").unwrap(), b"caf\xe9");
    assert!(Collation::new(0x409, 62).codec().is_err());
    assert_eq!(Collation::new(0x409, 30).to_string(), "CP437");
    assert_eq!(Collation::new(0x409, 49).to_string(), "CP850");
}

#[test]
fn legacy_codepages_decode_sql_variant_char_and_varchar() {
    for sort_id in [30, 49] {
        for ty in [VarLenType::BigChar, VarLenType::BigVarChar] {
            let mut wire = BytesMut::new();
            wire.put_u32_le(13);
            wire.put_u8(ty.to_u8());
            wire.put_u8(7);
            wire.put_u32_le(0x409);
            wire.put_u8(sort_id);
            wire.put_u16_le(4);
            wire.extend_from_slice(b"Caf\x82");
            let type_info =
                TypeInfo::VarLenSized(VarLenContext::new(VarLenType::SSVariant, 8016, None));
            let mut reader = reader_of(&wire);
            let decoded = ColumnData::decode(&mut reader, &type_info).unwrap();
            assert_eq!(decoded, ColumnData::String(Some("Café".into())));
        }
    }
}
