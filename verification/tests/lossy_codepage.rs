use bytes::{BufMut, BytesMut};
use tds_codepage::{
    frame, type_info, ByteReader, Collation, ColumnData, Error, TypeInfo, VarLenContext,
    VarLenType,
};

fn decode(type_info: &TypeInfo, wire: Vec<u8>, lossy: bool) -> Result<ColumnData, Error> {
    let mut reader = ByteReader::new(wire);
    reader.context_mut().set_lossy_codepage(lossy);
    ColumnData::decode(&mut reader, type_info)
}

#[test]
fn codepage_lossy_keeps_following_values_readable() {
    for ty in [
        VarLenType::BigChar,
        VarLenType::BigVarChar,
        VarLenType::Text,
    ] {
        let mut wire = frame(ty, b"bad\x81 ");
        wire.extend_from_slice(&frame(ty, b"next"));
        let mut reader = ByteReader::new(wire);
        reader.context_mut().set_lossy_codepage(true);
        let first = ColumnData::decode(&mut reader, &type_info(ty, 198)).unwrap();
        assert_eq!(first, ColumnData::String(Some("bad\u{fffd} ".into())));
        let second = ColumnData::decode(&mut reader, &type_info(ty, 198)).unwrap();
        assert_eq!(second, ColumnData::String(Some("next".into())));
    }
}

#[test]
fn codepage_lossy_context_is_independent_of_utf16() {
    let mut reader = ByteReader::new(Vec::new());
    assert!(!reader.context().lossy_codepage());
    reader.context_mut().set_lossy_codepage(true);
    assert!(!reader.context().lossy_utf16());
    reader.context_mut().set_lossy_utf16(true);
    reader.context_mut().set_lossy_codepage(false);
    assert!(!reader.context().lossy_codepage());
    assert!(reader.context().lossy_utf16());
}

#[test]
fn codepage_lossy_preserves_legacy_codepages() {
    for (sort_id, payload, expected) in [
        (30, b"Caf\x82 \xe0\xff".as_slice(), "Café α\u{a0}"),
        (49, b"Caf\x82 \x9b\xff".as_slice(), "Café ø\u{a0}"),
    ] {
        let collation = Collation::new(0x409, sort_id);
        for lossy in [false, true] {
            for ty in [
                VarLenType::BigChar,
                VarLenType::BigVarChar,
                VarLenType::Text,
            ] {
                let info = TypeInfo::VarLenSized(VarLenContext::new(ty, 64, Some(collation)));
                let value = decode(&info, frame(ty, payload), lossy).unwrap();
                assert_eq!(value, ColumnData::String(Some(expected.into())));
            }

            let mut wire = BytesMut::new();
            wire.put_u64_le(payload.len() as u64);
            wire.put_u32_le(3);
            wire.extend_from_slice(&payload[..3]);
            wire.put_u32_le((payload.len() - 3) as u32);
            wire.extend_from_slice(&payload[3..]);
            wire.put_u32_le(0);
            let info = TypeInfo::VarLenSized(VarLenContext::new(
                VarLenType::BigVarChar,
                0xffff,
                Some(collation),
            ));
            let value = decode(&info, wire.to_vec(), lossy).unwrap();
            assert_eq!(value, ColumnData::String(Some(expected.into())));

            for ty in [VarLenType::BigChar, VarLenType::BigVarChar] {
                let mut wire = BytesMut::new();
                wire.put_u32_le((9 + payload.len()) as u32);
                wire.put_u8(ty.to_u8());
                wire.put_u8(7);
                wire.put_u32_le(collation.info());
                wire.put_u8(sort_id);
                wire.put_u16_le(payload.len() as u16);
                wire.extend_from_slice(payload);
                let info =
                    TypeInfo::VarLenSized(VarLenContext::new(VarLenType::SSVariant, 8016, None));
                let value = decode(&info, wire.to_vec(), lossy).unwrap();
                assert_eq!(value, ColumnData::String(Some(expected.into())));
            }
        }
    }
}

#[test]
fn codepage_lossy_does_not_relax_outgoing_encoding() {
    for ty in [
        VarLenType::BigChar,
        VarLenType::BigVarChar,
        VarLenType::Text,
    ] {
        let mut encoded = Vec::new();
        let type_info = type_info(ty, 192);
        let error = ColumnData::String(Some("🙂".into()))
            .encode(&mut encoded, &type_info)
            .unwrap_err();
        assert!(matches!(error, Error::Encoding(_)));
    }
}

#[test]
fn codepage_lossy_replaces_invalid_row_bytes() {
    for sort_id in [192, 194, 198] {
        for ty in [
            VarLenType::BigChar,
            VarLenType::BigVarChar,
            VarLenType::Text,
        ] {
            let wire = frame(ty, b"ok\x81 ok");
            let value = decode(&type_info(ty, sort_id), wire.clone(), true).unwrap();
            assert_eq!(value, ColumnData::String(Some("ok\u{fffd} ok".into())));
            let error = decode(&type_info(ty, sort_id), wire, false).unwrap_err();
            assert!(matches!(error, Error::Encoding(_)));
        }
    }
}

#[test]
fn codepage_lossy_preserves_bom_like_collation_bytes() {
    for lossy in [false, true] {
        for ty in [
            VarLenType::BigChar,
            VarLenType::BigVarChar,
            VarLenType::Text,
        ] {
            let value = decode(&type_info(ty, 198), frame(ty, b"\xef\xbb\xbfabc"), lossy).unwrap();
            assert_eq!(value, ColumnData::String(Some("锘縜bc".into())));
        }
    }
}

#[test]
fn codepage_lossy_preserves_empty_and_null_values() {
    for lossy in [false, true] {
        for ty in [
            VarLenType::BigChar,
            VarLenType::BigVarChar,
            VarLenType::Text,
        ] {
            let value = decode(&type_info(ty, 198), frame(ty, b""), lossy).unwrap();
            assert_eq!(value, ColumnData::String(Some("".into())));
            let null: &[u8] = if ty == VarLenType::Text {
                &[0]
            } else {
                &[255, 255]
            };
            let value = decode(&type_info(ty, 198), null.to_vec(), lossy).unwrap();
            assert_eq!(value, ColumnData::String(None));
        }
    }
}

#[test]
fn codepage_lossy_retains_encoding_and_framing_errors() {
    for ty in [
        VarLenType::BigChar,
        VarLenType::BigVarChar,
        VarLenType::Text,
    ] {
        let error = decode(&type_info(ty, 255), frame(ty, b"valid"), true).unwrap_err();
        assert!(matches!(error, Error::Encoding(_)));
        let mut truncated = frame(ty, b"valid");
        truncated.truncate(truncated.len() - 1);
        assert!(decode(&type_info(ty, 198), truncated, true).is_err());
    }
}

#[test]
fn codepage_lossy_does_not_relax_unicode_or_xml() {
    for ty in [VarLenType::NChar, VarLenType::NVarchar, VarLenType::NText] {
        assert!(decode(&type_info(ty, 52), frame(ty, &[0, 0xd8]), true).is_err());
        assert!(decode(&type_info(ty, 52), frame(ty, &[0]), true).is_err());
    }
    let xml_type = TypeInfo::Xml {
        schema: None,
        size: 64,
    };
    assert!(decode(&xml_type, frame(VarLenType::NVarchar, &[0, 0xd8]), true).is_err());
}

#[test]
fn codepage_lossy_handles_chunked_varchar_max() {
    let type_info = TypeInfo::VarLenSized(VarLenContext::new(
        VarLenType::BigVarChar,
        0xffff,
        Some(Collation::new(0x804, 198)),
    ));
    let mut wire = BytesMut::new();
    wire.put_u64_le(5);
    wire.put_u32_le(3);
    wire.extend_from_slice(b"ok\x81");
    wire.put_u32_le(2);
    wire.extend_from_slice(b" !");
    wire.put_u32_le(0);
    let value = decode(&type_info, wire.to_vec(), true).unwrap();
    assert_eq!(value, ColumnData::String(Some("ok\u{fffd} !".into())));
    assert!(decode(&type_info, wire.to_vec(), false).is_err());
}

#[test]
fn codepage_lossy_handles_sql_variant_character_values() {
    for ty in [VarLenType::BigChar, VarLenType::BigVarChar] {
        let mut wire = BytesMut::new();
        wire.put_u32_le(16);
        wire.put_u8(ty.to_u8());
        wire.put_u8(7);
        wire.put_u32_le(0x804);
        wire.put_u8(198);
        wire.put_u16_le(7);
        wire.extend_from_slice(b"ok\x81 end");
        let type_info =
            TypeInfo::VarLenSized(VarLenContext::new(VarLenType::SSVariant, 8016, None));
        let value = decode(&type_info, wire.to_vec(), true).unwrap();
        assert_eq!(value, ColumnData::String(Some("ok\u{fffd} end".into())));
        assert!(decode(&type_info, wire.to_vec(), false).is_err());
    }
}
