//! Client library for the OpenWrt "ubus" inter-process message bus.
//!
//! The core is a verified wire-format codec: a tag/length/value container
//! ("blob") with 4-byte alignment rules and an extended, name-bearing
//! variant; a typed variant layer ("blob message") on top of blobs; a framed
//! message protocol (fixed header plus one outer blob of attribute blobs);
//! and a blocking request/response driver for the built-in conversations
//! (hello, lookup, invoke) over an abstract byte transport.

use vstd::prelude::*;

pub mod bytes_be;
pub mod tag;
pub mod blob;
pub mod blobmsg;
pub mod message;
pub mod connection;

pub use blob::{Blob, BlobBuilder, BlobIter};
pub use blobmsg::{BlobMsg, BlobMsgData, BlobMsgIter, BlobMsgType};
pub use connection::{Connection, ObjectResult, SignatureResult, EXCHANGE_FRAME_LIMIT};
pub use message::{Message, MessageAttr, MessageAttrId, MessageBuilder, MessageHeader,
    MessageType, HEADER_SIZE, MESSAGE_VERSION_CURRENT};
pub use tag::BlobTag;

verus! {

/// Error type for the pure codec layers, which involve no transport; the
/// codec never constructs an `Error::IO` carrying it.
#[derive(Debug)]
pub struct NoIO;

/// The three error kinds of the library: a transport error forwarded
/// verbatim, a structural violation in wire data named by a static string,
/// and a nonzero status code returned by the remote peer.
#[derive(Debug)]
pub enum Error<T> {
    IO(T),
    InvalidData(&'static str),
    Status(i32),
}

impl<T> Error<T> {
    /// Injects a transport-free codec error into the error type of a
    /// transport; only the transport itself produces `Error::IO`.
    pub fn lift(e: Error<NoIO>) -> (r: Error<T>)
        ensures
            r == lift_error::<T>(e),
    {
        match e {
            Error::IO(_) => Error::InvalidData("no transport"),
            Error::InvalidData(s) => Error::InvalidData(s),
            Error::Status(c) => Error::Status(c),
        }
    }
}

/// What `Error::lift` returns: the same payload under the wider type.
pub open spec fn lift_error<T>(e: Error<NoIO>) -> Error<T> {
    match e {
        Error::IO(_) => Error::InvalidData("no transport"),
        Error::InvalidData(s) => Error::InvalidData(s),
        Error::Status(c) => Error::Status(c),
    }
}

/// Marker trait for the error type of a transport implementation.
pub trait IOError {}

/// A minimal synchronous byte transport: `put` writes all bytes of `data`,
/// `get` reads exactly enough bytes to fill `data`. Implementations live
/// outside the verified core; the driver relies only on the contracts here,
/// which promise nothing about the bytes a transport delivers.
pub trait IO {
    type Error: IOError;

    fn put(&mut self, data: &[u8]) -> (r: Result<(), Error<Self::Error>>)
        ensures
            r matches Err(e) ==> e is IO,
    ;

    fn get(&mut self, data: &mut Vec<u8>) -> (r: Result<(), Error<Self::Error>>)
        ensures
            r is Ok ==> final(data)@.len() == old(data)@.len(),
            r matches Err(e) ==> e is IO,
    ;
}

} // verus!
