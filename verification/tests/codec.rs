//! Byte-level tests of the tag, blob and blob-message codecs.

use ubus::blob::{Blob, BlobBuilder, BlobIter};
use ubus::blobmsg::{BlobMsg, BlobMsgData, BlobMsgIter, BlobMsgType};
use ubus::tag::BlobTag;
use ubus::Error;

#[test]
fn tag_decode_simple() {
    // A non-extended tag word: id 0x20, size 8.
    let tag = BlobTag::from_bytes(&[0x20, 0x00, 0x00, 0x08]);
    assert_eq!(tag.id(), 0x20);
    assert_eq!(tag.size(), 8);
    assert!(!tag.is_extended());
    assert_eq!(tag.padding(), 0);
    assert_eq!(tag.inner_len(), 4);
    assert!(tag.is_valid().is_ok());
}

#[test]
fn tag_alignment_properties() {
    for size in [4usize, 5, 6, 7, 8, 9, 0xff_ffff] {
        let tag = BlobTag::new(0x11, size).unwrap();
        assert!(tag.size() >= 4);
        assert_eq!(tag.next_tag() % 4, 0);
        assert!(tag.padding() < 4);
        assert_eq!(tag.next_tag(), tag.size() + tag.padding());
    }
}

#[test]
fn tag_encode_decode_round_trip() {
    for (id, size) in [(0u32, 4usize), (3, 8), (0x7f, 0xff_ffff), (0x20, 12345)] {
        let tag = BlobTag::new(id, size).unwrap();
        let bytes = tag.to_bytes();
        let back = BlobTag::from_bytes(&bytes);
        assert_eq!(back.id(), id);
        assert_eq!(back.size(), size);
        assert!(!back.is_extended());
    }
}

#[test]
fn tag_new_rejects_out_of_range() {
    assert!(matches!(BlobTag::new(128, 8), Err(Error::InvalidData(_))));
    assert!(matches!(BlobTag::new(0, 3), Err(Error::InvalidData(_))));
    assert!(matches!(BlobTag::new(0, 0x100_0000), Err(Error::InvalidData(_))));
}

#[test]
fn tag_invalid_size_refused() {
    let tag = BlobTag::from_bytes(&[0x00, 0x00, 0x00, 0x02]);
    assert!(matches!(tag.is_valid(), Err(Error::InvalidData(_))));
}

#[test]
fn parse_rejects_short_input() {
    assert!(matches!(Blob::from_bytes(&[0x00, 0x00]), Err(Error::InvalidData(_))));
    // Tag says 8 bytes but only 6 are there.
    assert!(matches!(
        Blob::from_bytes(&[0x03, 0x00, 0x00, 0x08, 0x01, 0x02]),
        Err(Error::InvalidData(_))
    ));
}

#[test]
fn push_u32_wire_bytes_and_round_trip() {
    // One 32-bit attribute: tag (id 3, size 8) then the value big-endian.
    let mut builder = BlobBuilder::from_bytes(vec![0u8; 64]);
    builder.push_u32(0x03, 0x01020304).unwrap();
    let bytes = builder.into_bytes();
    assert_eq!(bytes, vec![0x03, 0x00, 0x00, 0x08, 0x01, 0x02, 0x03, 0x04]);

    let blob = Blob::from_bytes(&bytes).unwrap();
    assert_eq!(blob.tag.id(), 3);
    assert_eq!(blob.data, &[0x01, 0x02, 0x03, 0x04]);
    assert_eq!(blob.name, None);
    assert_eq!(blob.to_u32().unwrap(), 0x01020304);
    assert_eq!(blob.to_i32().unwrap(), 0x01020304);
}

#[test]
fn push_bytes_round_trip_and_advance() {
    // Payload of 5 bytes: blob size 9, next tag offset 4 + 8 = 12.
    let payload = [0xAAu8, 0xBB, 0xCC, 0xDD, 0xEE];
    let mut builder = BlobBuilder::from_bytes(vec![0u8; 64]);
    builder.push_bytes(0x21, &payload).unwrap();
    assert_eq!(builder.len(), 12);
    let bytes = builder.into_bytes();
    assert_eq!(bytes.len(), 12);

    let blob = Blob::from_bytes(&bytes).unwrap();
    assert_eq!(blob.tag.id(), 0x21);
    assert_eq!(blob.tag.size(), 9);
    assert_eq!(blob.data, &payload);
    assert_eq!(blob.tag.next_tag(), 12);
}

#[test]
fn push_empty_payload() {
    let mut builder = BlobBuilder::from_bytes(vec![0u8; 8]);
    builder.push_bytes(0x01, &[]).unwrap();
    let bytes = builder.into_bytes();
    assert_eq!(bytes, vec![0x01, 0x00, 0x00, 0x04]);
    let blob = Blob::from_bytes(&bytes).unwrap();
    assert_eq!(blob.data.len(), 0);
}

#[test]
fn push_overflow_refused() {
    let mut builder = BlobBuilder::from_bytes(vec![0u8; 8]);
    // 4 tag bytes + 5 payload bytes + 3 padding would need 12 bytes.
    let r = builder.push_bytes(0x01, &[1, 2, 3, 4, 5]);
    assert!(matches!(r, Err(Error::InvalidData(_))));
    assert!(builder.is_empty());
}

#[test]
fn push_str_round_trip() {
    let mut builder = BlobBuilder::from_bytes(vec![0u8; 64]);
    builder.push_str(0x02, "usb1").unwrap();
    let bytes = builder.into_bytes();
    // Payload is the four name bytes and a NUL: size 9, padded to 12.
    assert_eq!(bytes.len(), 12);
    let blob = Blob::from_bytes(&bytes).unwrap();
    assert_eq!(blob.to_str().unwrap(), "usb1");
}

#[test]
fn push_str_non_ascii_round_trip() {
    let mut builder = BlobBuilder::from_bytes(vec![0u8; 64]);
    builder.push_str(0x02, "caf\u{e9}\u{2764}").unwrap();
    let bytes = builder.into_bytes();
    let blob = Blob::from_bytes(&bytes).unwrap();
    assert_eq!(blob.to_str().unwrap(), "caf\u{e9}\u{2764}");
}

#[test]
fn to_str_trims_single_trailing_nul() {
    let mut builder = BlobBuilder::from_bytes(vec![0u8; 64]);
    builder.push_bytes(0x02, b"ab\0").unwrap();
    let bytes = builder.into_bytes();
    let blob = Blob::from_bytes(&bytes).unwrap();
    assert_eq!(blob.to_str().unwrap(), "ab");

    let mut builder = BlobBuilder::from_bytes(vec![0u8; 64]);
    builder.push_bytes(0x02, b"ab").unwrap();
    let bytes = builder.into_bytes();
    let blob = Blob::from_bytes(&bytes).unwrap();
    assert_eq!(blob.to_str().unwrap(), "ab");
}

#[test]
fn to_str_rejects_invalid_utf8() {
    let mut builder = BlobBuilder::from_bytes(vec![0u8; 64]);
    builder.push_bytes(0x02, &[0xff, 0xfe]).unwrap();
    let bytes = builder.into_bytes();
    let blob = Blob::from_bytes(&bytes).unwrap();
    assert!(matches!(blob.to_str(), Err(Error::InvalidData(_))));
}

#[test]
fn extended_blob_with_name() {
    // Tag 0x83 00 00 10: extended, id 3, size 16. Payload: name length 4,
    // "name", NUL, one byte of alignment padding, then 4 payload bytes.
    let bytes = [
        0x83, 0x00, 0x00, 0x10, 0x00, 0x04, b'n', b'a', b'm', b'e', 0x00, 0x00, 0xDE, 0xAD, 0xBE,
        0xEF,
    ];
    let blob = Blob::from_bytes(&bytes).unwrap();
    assert!(blob.tag.is_extended());
    assert_eq!(blob.tag.id(), 3);
    assert_eq!(blob.tag.size(), 16);
    assert_eq!(blob.name, Some("name"));
    assert_eq!(blob.data, &[0xDE, 0xAD, 0xBE, 0xEF]);
}

#[test]
fn extended_blob_missing_terminator() {
    let bytes = [
        0x83, 0x00, 0x00, 0x10, 0x00, 0x04, b'n', b'a', b'm', b'e', 0x01, 0x00, 0xDE, 0xAD, 0xBE,
        0xEF,
    ];
    assert!(matches!(Blob::from_bytes(&bytes), Err(Error::InvalidData(_))));
}

#[test]
fn extended_blob_bad_name_utf8() {
    let bytes = [
        0x83, 0x00, 0x00, 0x10, 0x00, 0x04, 0xff, 0xfe, 0xfd, 0xfc, 0x00, 0x00, 0xDE, 0xAD, 0xBE,
        0xEF,
    ];
    assert!(matches!(Blob::from_bytes(&bytes), Err(Error::InvalidData(_))));
}

#[test]
fn extended_blob_empty_name() {
    // Name length 0: name "", NUL, one padding byte, payload of 1 byte.
    let bytes = [0x85, 0x00, 0x00, 0x09, 0x00, 0x00, 0x00, 0x00, 0x42];
    let blob = Blob::from_bytes(&bytes).unwrap();
    assert_eq!(blob.name, Some(""));
    assert_eq!(blob.data, &[0x42]);
}

#[test]
fn three_records_iterated_in_order() {
    let mut builder = BlobBuilder::from_bytes(vec![0u8; 128]);
    builder.push_u32(0x01, 7).unwrap();
    builder.push_str(0x02, "hi").unwrap();
    builder.push_bytes(0x03, &[9, 9, 9]).unwrap();
    let bytes = builder.into_bytes();

    let mut iter = BlobIter::new(&bytes);
    let first = iter.next().unwrap();
    assert_eq!(first.tag.id(), 1);
    assert_eq!(first.to_u32().unwrap(), 7);
    let second = iter.next().unwrap();
    assert_eq!(second.tag.id(), 2);
    assert_eq!(second.to_str().unwrap(), "hi");
    let third = iter.next().unwrap();
    assert_eq!(third.tag.id(), 3);
    assert_eq!(third.data, &[9, 9, 9]);
    // The iterator terminates exactly at the input's end.
    assert!(iter.next().is_none());
    assert!(iter.next().is_none());
}

#[test]
fn iterator_stops_on_malformed_tail() {
    let mut builder = BlobBuilder::from_bytes(vec![0u8; 64]);
    builder.push_u32(0x01, 7).unwrap();
    let mut bytes = builder.into_bytes();
    // A truncated second tag: not enough bytes for its declared size.
    bytes.extend_from_slice(&[0x02, 0x00, 0x00, 0x08, 0x01]);
    let mut iter = BlobIter::new(&bytes);
    assert!(iter.next().is_some());
    assert!(iter.next().is_none());
}

#[test]
fn blobmsg_scalar_decodes() {
    // Int32 blob message: id 5, payload 4 bytes.
    let mut builder = BlobBuilder::from_bytes(vec![0u8; 64]);
    builder.push_u32(5, 0xfffffffe).unwrap();
    let bytes = builder.into_bytes();
    let blob = Blob::from_bytes(&bytes).unwrap();
    let msg = BlobMsg::from_blob(blob).unwrap();
    assert!(msg.name.is_none());
    assert!(matches!(msg.data, BlobMsgData::Int32(-2)));
}

#[test]
fn blobmsg_unknown_id_keeps_raw_bytes() {
    let mut builder = BlobBuilder::from_bytes(vec![0u8; 64]);
    builder.push_bytes(0x30, &[1, 2]).unwrap();
    let bytes = builder.into_bytes();
    let blob = Blob::from_bytes(&bytes).unwrap();
    let msg = BlobMsg::from_blob(blob).unwrap();
    match msg.data {
        BlobMsgData::Unknown(id, raw) => {
            assert_eq!(id, 0x30);
            assert_eq!(raw, &[1, 2]);
        }
        _ => panic!("expected the unknown variant"),
    }
}

#[test]
fn blobmsg_short_scalar_refused() {
    // Id 4 (64-bit integer) with only 4 payload bytes.
    let mut builder = BlobBuilder::from_bytes(vec![0u8; 64]);
    builder.push_u32(4, 1).unwrap();
    let bytes = builder.into_bytes();
    let blob = Blob::from_bytes(&bytes).unwrap();
    assert!(matches!(BlobMsg::from_blob(blob), Err(Error::InvalidData(_))));
}

#[test]
fn blobmsg_double_carries_bits() {
    let mut builder = BlobBuilder::from_bytes(vec![0u8; 64]);
    let bits = f64::to_be_bytes(1.5);
    builder.push_bytes(8, &bits).unwrap();
    let bytes = builder.into_bytes();
    let blob = Blob::from_bytes(&bytes).unwrap();
    let msg = BlobMsg::from_blob(blob).unwrap();
    match msg.data {
        BlobMsgData::Double(raw) => assert_eq!(f64::from_bits(raw), 1.5),
        _ => panic!("expected the double variant"),
    }
}

#[test]
fn blobmsg_iter_walks_nested_table() {
    // A table region holding two Int32 entries is walked in order.
    let mut builder = BlobBuilder::from_bytes(vec![0u8; 64]);
    builder.push_u32(5, 10).unwrap();
    builder.push_u32(5, 20).unwrap();
    let region = builder.into_bytes();
    let mut iter = BlobMsgIter::new(&region);
    assert!(matches!(iter.next().unwrap().data, BlobMsgData::Int32(10)));
    assert!(matches!(iter.next().unwrap().data, BlobMsgData::Int32(20)));
    assert!(iter.next().is_none());
}

#[test]
fn blobmsg_type_codes_round_trip() {
    for v in 0u32..=8 {
        let t = BlobMsgType::from_u32(v);
        assert!(t.known());
        assert_eq!(t.value(), v);
    }
    let t = BlobMsgType::from_u32(77);
    assert!(!t.known());
    assert_eq!(t.value(), 77);
}

#[test]
fn blobmsg_iter_stays_put_on_malformed_element() {
    // A short Int64 element: the iterator ends there and stays there.
    let mut builder = BlobBuilder::from_bytes(vec![0u8; 64]);
    builder.push_u32(4, 1).unwrap();
    let region = builder.into_bytes();
    let mut iter = BlobMsgIter::new(&region);
    assert!(iter.next().is_none());
    assert!(iter.next().is_none());
}
