//! Tests of the frame header codec and the frame builder.

use ubus::message::{MessageAttr, MessageBuilder, MessageHeader, MessageType, MessageAttrId};

fn header(msg: MessageType, sequence: u16, peer: u32) -> MessageHeader {
    MessageHeader { version: 0, message: msg, sequence, peer }
}

#[test]
fn header_bytes_round_trip() {
    let h = header(MessageType::Invoke, 0x0102, 0xA1B2C3D4);
    let bytes = h.to_bytes();
    assert_eq!(bytes, vec![0x00, 0x05, 0x01, 0x02, 0xA1, 0xB2, 0xC3, 0xD4]);
    let back = MessageHeader::from_bytes(&bytes);
    assert_eq!(back, h);
}

#[test]
fn message_type_codes_round_trip() {
    for v in [0u8, 1, 2, 3, 4, 5, 6, 7, 8, 9, 0x10, 0x11] {
        let t = MessageType::from_u8(v);
        assert!(t.known());
        assert_eq!(t.value(), v);
    }
    let t = MessageType::from_u8(0x0f);
    assert!(!t.known());
    assert_eq!(t.value(), 0x0f);
}

#[test]
fn attr_id_codes_round_trip() {
    for v in 0u32..=0x0d {
        let a = MessageAttrId::from_u32(v);
        assert!(a.known());
        assert_eq!(a.value(), v);
    }
    assert!(!MessageAttrId::from_u32(0x20).known());
}

#[test]
fn builder_writes_header_tag_and_attributes() {
    let mut builder = MessageBuilder::new(vec![0u8; 256], header(MessageType::Invoke, 1, 5))
        .unwrap();
    builder.put(MessageAttr::ObjId(5)).unwrap();
    builder.put(MessageAttr::Method("ping")).unwrap();
    builder.put(MessageAttr::Data(&[])).unwrap();
    let frame = builder.finish();
    let expected: Vec<u8> = vec![
        // header: version, type, sequence, peer
        0x00, 0x05, 0x00, 0x01, 0x00, 0x00, 0x00, 0x05,
        // outer tag: id 0, size 28
        0x00, 0x00, 0x00, 0x1c,
        // object id attribute
        0x03, 0x00, 0x00, 0x08, 0x00, 0x00, 0x00, 0x05,
        // method attribute: "ping", NUL, three bytes of padding
        0x04, 0x00, 0x00, 0x09, 0x70, 0x69, 0x6e, 0x67, 0x00, 0x00, 0x00, 0x00,
        // empty data attribute
        0x07, 0x00, 0x00, 0x04,
    ];
    assert_eq!(frame, expected);
}

#[test]
fn builder_uses_each_attributes_own_id() {
    let mut builder = MessageBuilder::new(vec![0u8; 256], header(MessageType::Invoke, 1, 0))
        .unwrap();
    builder.put(MessageAttr::ObjType(7)).unwrap();
    builder.put(MessageAttr::Active(true)).unwrap();
    builder.put(MessageAttr::NoReply(false)).unwrap();
    builder.put(MessageAttr::Target(9)).unwrap();
    builder.put(MessageAttr::User("root")).unwrap();
    let frame = builder.finish();
    // The attribute blobs start after the 12 header and outer-tag bytes.
    assert_eq!(frame[12], 0x05, "object type attribute id");
    assert_eq!(frame[20], 0x09, "active attribute id");
    assert_eq!(frame[28], 0x0a, "no-reply attribute id");
    assert_eq!(frame[36], 0x08, "target attribute id");
    assert_eq!(frame[44], 0x0c, "user attribute id");
}

#[test]
fn builder_refuses_tiny_buffer() {
    assert!(MessageBuilder::new(vec![0u8; 8], header(MessageType::Ping, 0, 0)).is_err());
}

#[test]
fn builder_put_overflow_refused() {
    let mut builder = MessageBuilder::new(vec![0u8; 16], header(MessageType::Ping, 0, 0))
        .unwrap();
    // Room for one 4-byte attribute only.
    builder.put(MessageAttr::Data(&[])).unwrap();
    assert!(builder.put(MessageAttr::ObjId(1)).is_err());
}

#[test]
fn frame_head_decode() {
    let head = [0x00u8, 0x05, 0x00, 0x01, 0x00, 0x00, 0x00, 0x2A, 0x00, 0x00, 0x00, 0x10];
    let (h, t) = ubus::message::parse_frame_head(&head).unwrap();
    assert_eq!(h.version, 0);
    assert_eq!(h.message, MessageType::Invoke);
    assert_eq!(h.sequence, 1);
    assert_eq!(h.peer, 0x2A);
    assert_eq!(t.size(), 0x10);
}

#[test]
fn frame_head_refuses_wrong_version() {
    let head = [0x01u8, 0x00, 0x00, 0x00, 0x00, 0x00, 0x00, 0x00, 0x00, 0x00, 0x00, 0x04];
    assert!(ubus::message::parse_frame_head(&head).is_err());
}

#[test]
fn frame_head_refuses_invalid_outer_tag() {
    let head = [0x00u8, 0x00, 0x00, 0x00, 0x00, 0x00, 0x00, 0x00, 0x00, 0x00, 0x00, 0x02];
    assert!(ubus::message::parse_frame_head(&head).is_err());
}
