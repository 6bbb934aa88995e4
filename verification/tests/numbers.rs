//! Exact-value tests of the big-endian integer codecs, one per width,
//! signed and unsigned, through the blob scalar decoders.

use ubus::blob::{Blob, BlobBuilder};

fn blob_of(payload: &[u8]) -> Vec<u8> {
    let mut builder = BlobBuilder::from_bytes(vec![0u8; 64]);
    builder.push_bytes(0x01, payload).unwrap();
    builder.into_bytes()
}

#[test]
fn u8_decode() {
    let bytes = blob_of(&[0xfe]);
    let blob = Blob::from_bytes(&bytes).unwrap();
    assert_eq!(blob.to_u8().unwrap(), 0xfe);
    assert_eq!(blob.to_i8().unwrap(), -2);
}

#[test]
fn u16_decode() {
    let bytes = blob_of(&[0x12, 0x34]);
    let blob = Blob::from_bytes(&bytes).unwrap();
    assert_eq!(blob.to_u16().unwrap(), 0x1234);
    assert_eq!(blob.to_i16().unwrap(), 0x1234);
    let bytes = blob_of(&[0xff, 0xfe]);
    let blob = Blob::from_bytes(&bytes).unwrap();
    assert_eq!(blob.to_u16().unwrap(), 0xfffe);
    assert_eq!(blob.to_i16().unwrap(), -2);
}

#[test]
fn u32_decode() {
    let bytes = blob_of(&[0xde, 0xad, 0xbe, 0xef]);
    let blob = Blob::from_bytes(&bytes).unwrap();
    assert_eq!(blob.to_u32().unwrap(), 0xdeadbeef);
    assert_eq!(blob.to_i32().unwrap(), -559038737);
}

#[test]
fn u64_decode() {
    let bytes = blob_of(&[0x01, 0x02, 0x03, 0x04, 0x05, 0x06, 0x07, 0x08]);
    let blob = Blob::from_bytes(&bytes).unwrap();
    assert_eq!(blob.to_u64().unwrap(), 0x0102030405060708);
    assert_eq!(blob.to_i64().unwrap(), 0x0102030405060708);
    let bytes = blob_of(&[0xff; 8]);
    let blob = Blob::from_bytes(&bytes).unwrap();
    assert_eq!(blob.to_u64().unwrap(), u64::MAX);
    assert_eq!(blob.to_i64().unwrap(), -1);
}

#[test]
fn round_trips_through_std_encodings() {
    // Every width decodes the bytes std produces for the same value.
    for v in [0u16, 1, 0x7fff, 0x8000, 0xffff] {
        let bytes = blob_of(&v.to_be_bytes());
        let blob = Blob::from_bytes(&bytes).unwrap();
        assert_eq!(blob.to_u16().unwrap(), v);
    }
    for v in [0u32, 1, 0x7fff_ffff, 0x8000_0000, u32::MAX] {
        let bytes = blob_of(&v.to_be_bytes());
        let blob = Blob::from_bytes(&bytes).unwrap();
        assert_eq!(blob.to_u32().unwrap(), v);
    }
    for v in [i64::MIN, -1, 0, 1, i64::MAX] {
        let bytes = blob_of(&v.to_be_bytes());
        let blob = Blob::from_bytes(&bytes).unwrap();
        assert_eq!(blob.to_i64().unwrap(), v);
    }
}

#[test]
fn decode_too_short_is_refused() {
    let bytes = blob_of(&[0x01]);
    let blob = Blob::from_bytes(&bytes).unwrap();
    assert!(blob.to_u16().is_err());
    assert!(blob.to_u32().is_err());
    assert!(blob.to_u64().is_err());
    let bytes = blob_of(&[]);
    let blob = Blob::from_bytes(&bytes).unwrap();
    assert!(blob.to_u8().is_err());
    assert!(blob.to_bool().is_err());
}

#[test]
fn bool_decode() {
    let bytes = blob_of(&[0x00]);
    let blob = Blob::from_bytes(&bytes).unwrap();
    assert_eq!(blob.to_bool().unwrap(), false);
    let bytes = blob_of(&[0x02]);
    let blob = Blob::from_bytes(&bytes).unwrap();
    assert_eq!(blob.to_bool().unwrap(), true);
}

#[test]
fn f64_bits_decode() {
    let bytes = blob_of(&(-0.5f64).to_be_bytes());
    let blob = Blob::from_bytes(&bytes).unwrap();
    assert_eq!(f64::from_bits(blob.to_f64_bits().unwrap()), -0.5);
}

#[test]
fn be_encoders_match_std() {
    assert_eq!(ubus::bytes_be::u16_to_be(0x1234), 0x1234u16.to_be_bytes().to_vec());
    assert_eq!(
        ubus::bytes_be::u32_to_be(0xdeadbeef),
        0xdeadbeefu32.to_be_bytes().to_vec()
    );
    assert_eq!(
        ubus::bytes_be::u64_to_be(0x0102030405060708),
        0x0102030405060708u64.to_be_bytes().to_vec()
    );
    assert_eq!(ubus::bytes_be::u16_from_be(&[0x12, 0x34]), 0x1234);
    assert_eq!(ubus::bytes_be::u32_from_be(&[0, 0, 0, 9]), 9);
    assert_eq!(ubus::bytes_be::u64_from_be(&[0, 0, 0, 0, 0, 0, 1, 0]), 256);
}
