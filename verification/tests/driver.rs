//! Tests of the connection driver against a scripted transport.

use ubus::{Connection, Error, IO, IOError};
use ubus::blobmsg::BlobMsgType;

#[derive(Debug)]
struct ScriptError;
impl IOError for ScriptError {}

/// A transport that replays a fixed byte script and records what the
/// client sends.
struct ScriptIo {
    input: Vec<u8>,
    pos: usize,
    sent: Vec<u8>,
}

impl ScriptIo {
    fn new(input: Vec<u8>) -> ScriptIo {
        ScriptIo { input, pos: 0, sent: Vec::new() }
    }
}

impl IO for ScriptIo {
    type Error = ScriptError;

    fn put(&mut self, data: &[u8]) -> Result<(), Error<ScriptError>> {
        self.sent.extend_from_slice(data);
        Ok(())
    }

    fn get(&mut self, data: &mut Vec<u8>) -> Result<(), Error<ScriptError>> {
        let n = data.len();
        if self.pos + n > self.input.len() {
            return Err(Error::IO(ScriptError));
        }
        data.copy_from_slice(&self.input[self.pos..self.pos + n]);
        self.pos += n;
        Ok(())
    }
}

/// One frame: header fields, then the attribute region as the outer
/// blob's payload.
fn frame(msg_type: u8, sequence: u16, peer: u32, attrs: &[u8]) -> Vec<u8> {
    let mut out = Vec::new();
    out.push(0x00);
    out.push(msg_type);
    out.extend_from_slice(&sequence.to_be_bytes());
    out.extend_from_slice(&peer.to_be_bytes());
    let size = (4 + attrs.len()) as u32;
    out.extend_from_slice(&size.to_be_bytes());
    out.extend_from_slice(attrs);
    out
}

fn hello_frame(peer: u32) -> Vec<u8> {
    frame(0x00, 0, peer, &[])
}

/// A status attribute blob carrying the given code.
fn status_attr(code: u32) -> Vec<u8> {
    let mut out = vec![0x01, 0x00, 0x00, 0x08];
    out.extend_from_slice(&code.to_be_bytes());
    out
}

#[test]
fn handshake_records_peer() {
    // The hello frame from the wire: version 0, type hello, sequence 0,
    // peer 0x2A, empty outer blob.
    let input = vec![
        0x00, 0x00, 0x00, 0x00, 0x00, 0x00, 0x00, 0x2A, 0x00, 0x00, 0x00, 0x04,
    ];
    let conn = Connection::new(ScriptIo::new(input)).unwrap();
    assert_eq!(conn.peer(), 0x2A);
}

#[test]
fn handshake_refuses_other_first_frame() {
    let input = frame(0x03, 0, 0, &[]);
    assert!(matches!(
        Connection::new(ScriptIo::new(input)),
        Err(Error::InvalidData(_))
    ));
}

#[test]
fn handshake_propagates_transport_error() {
    let input = vec![0x00, 0x00, 0x00];
    assert!(matches!(Connection::new(ScriptIo::new(input)), Err(Error::IO(_))));
}

#[test]
fn invoke_collects_data_until_status() {
    let mut input = hello_frame(0x2A);
    // One data frame with a data attribute of two bytes, then success.
    let data_attr = vec![0x07, 0x00, 0x00, 0x06, 0xAA, 0xBB, 0x00, 0x00];
    input.append(&mut frame(0x02, 1, 0, &data_attr));
    input.append(&mut frame(0x01, 1, 0, &status_attr(0)));
    let mut conn = Connection::new(ScriptIo::new(input)).unwrap();
    let results = conn.invoke(5, "ping", &[]).unwrap();
    // The reply payload was delivered exactly once.
    assert_eq!(results.len(), 1);
    assert_eq!(results[0], vec![0xAA, 0xBB]);
}

#[test]
fn invoke_returns_nonzero_status_as_error() {
    let mut input = hello_frame(0x2A);
    input.append(&mut frame(0x01, 1, 0, &status_attr(6)));
    let mut conn = Connection::new(ScriptIo::new(input)).unwrap();
    let r = conn.invoke(5, "ping", &[]);
    assert!(matches!(r, Err(Error::Status(6))));
}

#[test]
fn invoke_ignores_other_sequences() {
    let mut input = hello_frame(0x2A);
    // A stray status frame with the wrong sequence is discarded.
    input.append(&mut frame(0x01, 99, 0, &status_attr(6)));
    input.append(&mut frame(0x01, 1, 0, &status_attr(0)));
    let mut conn = Connection::new(ScriptIo::new(input)).unwrap();
    let results = conn.invoke(5, "ping", &[]).unwrap();
    assert_eq!(results.len(), 0);
}

#[test]
fn invoke_status_without_attribute_is_invalid() {
    let mut input = hello_frame(0x2A);
    input.append(&mut frame(0x01, 1, 0, &[]));
    let mut conn = Connection::new(ScriptIo::new(input)).unwrap();
    assert!(matches!(conn.invoke(5, "ping", &[]), Err(Error::InvalidData(_))));
}

#[test]
fn invoke_data_without_attribute_is_invalid() {
    let mut input = hello_frame(0x2A);
    input.append(&mut frame(0x02, 1, 0, &[]));
    let mut conn = Connection::new(ScriptIo::new(input)).unwrap();
    assert!(matches!(conn.invoke(5, "ping", &[]), Err(Error::InvalidData(_))));
}

#[test]
fn lookup_collects_objects_and_signatures() {
    // The signature attribute region: one blob-message table named
    // "ping" whose entries are named Int32 types.
    // Inner-most field: extended blob, id 5 (Int32), named "id",
    // payload 4 bytes.
    let field: Vec<u8> = vec![
        0x85, 0x00, 0x00, 0x10, // extended, id 5, size 16
        0x00, 0x02, b'i', b'd', 0x00, 0x00, 0x00, 0x00, // name "id", NUL, padding
        0x00, 0x00, 0x00, 0x05, // Int32 value 5: a 32-bit argument
    ];
    // The method table: extended blob, id 2 (table), named "ping".
    let mut table_payload = Vec::new();
    table_payload.extend_from_slice(&[0x00, 0x04, b'p', b'i', b'n', b'g', 0x00, 0x00]);
    table_payload.extend_from_slice(&field);
    let mut table = vec![0x82, 0x00, 0x00, (4 + table_payload.len()) as u8];
    table.extend_from_slice(&table_payload);

    // Attributes of the data frame: object path, id, type, signature.
    let mut attrs = Vec::new();
    attrs.extend_from_slice(&[0x02, 0x00, 0x00, 0x09, b's', b'c', b'a', b'n', 0x00]);
    attrs.extend_from_slice(&[0x00, 0x00, 0x00]); // padding
    attrs.extend_from_slice(&[0x03, 0x00, 0x00, 0x08, 0x00, 0x00, 0x00, 0x11]);
    attrs.extend_from_slice(&[0x05, 0x00, 0x00, 0x08, 0x00, 0x00, 0x00, 0x22]);
    let mut sig = vec![0x06, 0x00, 0x00, (4 + table.len()) as u8];
    sig.extend_from_slice(&table);
    attrs.extend_from_slice(&sig);

    let mut input = hello_frame(0x2A);
    input.append(&mut frame(0x02, 1, 0, &attrs));
    input.append(&mut frame(0x01, 1, 0, &status_attr(0)));
    let mut conn = Connection::new(ScriptIo::new(input)).unwrap();
    let (objects, signatures) = conn.lookup().unwrap();

    assert_eq!(objects.len(), 1);
    assert_eq!(objects[0].path, "scan");
    assert_eq!(objects[0].id, 0x11);
    assert_eq!(objects[0].ty, 0x22);

    assert_eq!(signatures.len(), 1);
    assert_eq!(signatures[0].object, objects[0]);
    assert_eq!(signatures[0].name, "ping");
    assert_eq!(signatures[0].args.len(), 1);
    assert_eq!(signatures[0].args[0].0, "id");
    assert_eq!(signatures[0].args[0].1, BlobMsgType::Int32);
}

#[test]
fn lookup_error_status() {
    let mut input = hello_frame(0x2A);
    input.append(&mut frame(0x01, 1, 0, &status_attr(4)));
    let mut conn = Connection::new(ScriptIo::new(input)).unwrap();
    assert!(matches!(conn.lookup(), Err(Error::Status(4))));
}

#[test]
fn sequence_advances_per_exchange() {
    let mut input = hello_frame(0x2A);
    input.append(&mut frame(0x01, 1, 0, &status_attr(0)));
    input.append(&mut frame(0x01, 2, 0, &status_attr(0)));
    let mut conn = Connection::new(ScriptIo::new(input)).unwrap();
    conn.invoke(5, "a", &[]).unwrap();
    conn.invoke(5, "b", &[]).unwrap();
}

#[test]
fn codec_errors_lift_into_transport_errors() {
    let e: Error<ScriptError> = Error::lift(ubus::Error::InvalidData("tag"));
    assert!(matches!(e, Error::InvalidData("tag")));
    let e: Error<ScriptError> = Error::lift(ubus::Error::Status(7));
    assert!(matches!(e, Error::Status(7)));
}
