//! Message framing: a fixed eight-byte header (version, type, sequence,
//! peer, all big-endian) followed by one outer blob whose payload is a
//! sequence of attribute blobs. The read path takes a frame off a
//! transport; the write path builds a frame in a caller-supplied scratch
//! buffer and patches the outer tag when finished.

use vstd::prelude::*;
use vstd::slice::{slice_subrange, slice_to_vec, slice_index_get};
use vstd::string::StringSliceAdditionalSpecFns;
use vstd::utf8::{valid_utf8, decode_utf8};
use crate::{Error, NoIO, IO};
use crate::bytes_be::{spec_u16_be, spec_u32_be, spec_u16_to_be, spec_u32_to_be, u16_from_be,
    u32_from_be, u16_to_be, u32_to_be};
use crate::tag::{BlobTag, spec_tag_bytes, spec_tag_of, spec_align4};
use crate::blob::{Blob, BlobModel, spec_parse_parts, spec_blob_wire, spec_trim_nul, write_slice,
    append_blob, push_bytes_from};

verus! {

/// Number of bytes in an encoded message header.
pub const HEADER_SIZE: usize = 8;

/// The only protocol version this library speaks.
pub const MESSAGE_VERSION_CURRENT: u8 = 0;

/// The message type codes of the framed protocol.
#[derive(Clone, Copy, Debug, PartialEq, Eq, Structural)]
pub enum MessageType {
    Hello,
    Status,
    Data,
    Ping,
    Lookup,
    Invoke,
    AddObject,
    RemoveObject,
    Subscribe,
    Unsubscribe,
    Notify,
    Monitor,
    Other(u8),
}

/// The message type selected by a header type byte.
pub open spec fn spec_msg_type_of(v: u8) -> MessageType {
    if v == 0x00 {
        MessageType::Hello
    } else if v == 0x01 {
        MessageType::Status
    } else if v == 0x02 {
        MessageType::Data
    } else if v == 0x03 {
        MessageType::Ping
    } else if v == 0x04 {
        MessageType::Lookup
    } else if v == 0x05 {
        MessageType::Invoke
    } else if v == 0x06 {
        MessageType::AddObject
    } else if v == 0x07 {
        MessageType::RemoveObject
    } else if v == 0x08 {
        MessageType::Subscribe
    } else if v == 0x09 {
        MessageType::Unsubscribe
    } else if v == 0x10 {
        MessageType::Notify
    } else if v == 0x11 {
        MessageType::Monitor
    } else {
        MessageType::Other(v)
    }
}

impl MessageType {
    /// The header byte that stands for this type on the wire.
    pub open spec fn spec_code(self) -> u8 {
        match self {
            MessageType::Hello => 0x00,
            MessageType::Status => 0x01,
            MessageType::Data => 0x02,
            MessageType::Ping => 0x03,
            MessageType::Lookup => 0x04,
            MessageType::Invoke => 0x05,
            MessageType::AddObject => 0x06,
            MessageType::RemoveObject => 0x07,
            MessageType::Subscribe => 0x08,
            MessageType::Unsubscribe => 0x09,
            MessageType::Notify => 0x10,
            MessageType::Monitor => 0x11,
            MessageType::Other(v) => v,
        }
    }

    /// A type byte round-trips through its decoded form.
    pub open spec fn wf(self) -> bool {
        spec_msg_type_of(self.spec_code()) == self
    }

    /// Classifies a header type byte.
    pub fn from_u8(v: u8) -> (r: Self)
        ensures
            r == spec_msg_type_of(v),
            r.wf(),
    {
        if v == 0x00 {
            MessageType::Hello
        } else if v == 0x01 {
            MessageType::Status
        } else if v == 0x02 {
            MessageType::Data
        } else if v == 0x03 {
            MessageType::Ping
        } else if v == 0x04 {
            MessageType::Lookup
        } else if v == 0x05 {
            MessageType::Invoke
        } else if v == 0x06 {
            MessageType::AddObject
        } else if v == 0x07 {
            MessageType::RemoveObject
        } else if v == 0x08 {
            MessageType::Subscribe
        } else if v == 0x09 {
            MessageType::Unsubscribe
        } else if v == 0x10 {
            MessageType::Notify
        } else if v == 0x11 {
            MessageType::Monitor
        } else {
            MessageType::Other(v)
        }
    }

    /// The header byte this type stands for.
    pub fn value(self) -> (r: u8)
        ensures
            r == self.spec_code(),
    {
        match self {
            MessageType::Hello => 0x00,
            MessageType::Status => 0x01,
            MessageType::Data => 0x02,
            MessageType::Ping => 0x03,
            MessageType::Lookup => 0x04,
            MessageType::Invoke => 0x05,
            MessageType::AddObject => 0x06,
            MessageType::RemoveObject => 0x07,
            MessageType::Subscribe => 0x08,
            MessageType::Unsubscribe => 0x09,
            MessageType::Notify => 0x10,
            MessageType::Monitor => 0x11,
            MessageType::Other(v) => v,
        }
    }

    /// Whether this is one of the codes the protocol gives a meaning to.
    pub fn known(self) -> (r: bool)
        ensures
            r == !(self is Other),
    {
        match self {
            MessageType::Other(_) => false,
            _ => true,
        }
    }
}

/// The attribute vocabulary of the outer blob's payload.
#[derive(Clone, Copy, Debug, PartialEq, Eq, Structural)]
pub enum MessageAttrId {
    Unspec,
    Status,
    ObjPath,
    ObjId,
    Method,
    ObjType,
    Signature,
    Data,
    Target,
    Active,
    NoReply,
    Subscribers,
    User,
    Group,
    Other(u32),
}

/// The attribute selected by a blob id.
pub open spec fn spec_attr_id_of(v: u32) -> MessageAttrId {
    if v == 0x00 {
        MessageAttrId::Unspec
    } else if v == 0x01 {
        MessageAttrId::Status
    } else if v == 0x02 {
        MessageAttrId::ObjPath
    } else if v == 0x03 {
        MessageAttrId::ObjId
    } else if v == 0x04 {
        MessageAttrId::Method
    } else if v == 0x05 {
        MessageAttrId::ObjType
    } else if v == 0x06 {
        MessageAttrId::Signature
    } else if v == 0x07 {
        MessageAttrId::Data
    } else if v == 0x08 {
        MessageAttrId::Target
    } else if v == 0x09 {
        MessageAttrId::Active
    } else if v == 0x0a {
        MessageAttrId::NoReply
    } else if v == 0x0b {
        MessageAttrId::Subscribers
    } else if v == 0x0c {
        MessageAttrId::User
    } else if v == 0x0d {
        MessageAttrId::Group
    } else {
        MessageAttrId::Other(v)
    }
}

impl MessageAttrId {
    /// The blob id that stands for this attribute on the wire.
    pub open spec fn spec_code(self) -> u32 {
        match self {
            MessageAttrId::Unspec => 0x00,
            MessageAttrId::Status => 0x01,
            MessageAttrId::ObjPath => 0x02,
            MessageAttrId::ObjId => 0x03,
            MessageAttrId::Method => 0x04,
            MessageAttrId::ObjType => 0x05,
            MessageAttrId::Signature => 0x06,
            MessageAttrId::Data => 0x07,
            MessageAttrId::Target => 0x08,
            MessageAttrId::Active => 0x09,
            MessageAttrId::NoReply => 0x0a,
            MessageAttrId::Subscribers => 0x0b,
            MessageAttrId::User => 0x0c,
            MessageAttrId::Group => 0x0d,
            MessageAttrId::Other(v) => v,
        }
    }

    /// Classifies a blob id.
    pub fn from_u32(v: u32) -> (r: Self)
        ensures
            r == spec_attr_id_of(v),
    {
        if v == 0x00 {
            MessageAttrId::Unspec
        } else if v == 0x01 {
            MessageAttrId::Status
        } else if v == 0x02 {
            MessageAttrId::ObjPath
        } else if v == 0x03 {
            MessageAttrId::ObjId
        } else if v == 0x04 {
            MessageAttrId::Method
        } else if v == 0x05 {
            MessageAttrId::ObjType
        } else if v == 0x06 {
            MessageAttrId::Signature
        } else if v == 0x07 {
            MessageAttrId::Data
        } else if v == 0x08 {
            MessageAttrId::Target
        } else if v == 0x09 {
            MessageAttrId::Active
        } else if v == 0x0a {
            MessageAttrId::NoReply
        } else if v == 0x0b {
            MessageAttrId::Subscribers
        } else if v == 0x0c {
            MessageAttrId::User
        } else if v == 0x0d {
            MessageAttrId::Group
        } else {
            MessageAttrId::Other(v)
        }
    }

    /// The blob id this attribute stands for.
    pub fn value(self) -> (r: u32)
        ensures
            r == self.spec_code(),
    {
        match self {
            MessageAttrId::Unspec => 0x00,
            MessageAttrId::Status => 0x01,
            MessageAttrId::ObjPath => 0x02,
            MessageAttrId::ObjId => 0x03,
            MessageAttrId::Method => 0x04,
            MessageAttrId::ObjType => 0x05,
            MessageAttrId::Signature => 0x06,
            MessageAttrId::Data => 0x07,
            MessageAttrId::Target => 0x08,
            MessageAttrId::Active => 0x09,
            MessageAttrId::NoReply => 0x0a,
            MessageAttrId::Subscribers => 0x0b,
            MessageAttrId::User => 0x0c,
            MessageAttrId::Group => 0x0d,
            MessageAttrId::Other(v) => v,
        }
    }

    /// Whether this is one of the ids the protocol gives a meaning to.
    pub fn known(self) -> (r: bool)
        ensures
            r == !(self is Other),
    {
        match self {
            MessageAttrId::Other(_) => false,
            _ => true,
        }
    }
}

/// The fixed frame header: version, type, sequence and peer.
#[derive(Clone, Copy, Debug, PartialEq, Eq, Structural)]
pub struct MessageHeader {
    pub version: u8,
    pub message: MessageType,
    pub sequence: u16,
    pub peer: u32,
}

/// The eight bytes that encode a header.
pub open spec fn spec_header_bytes(h: MessageHeader) -> Seq<u8> {
    seq![h.version, h.message.spec_code()] + spec_u16_to_be(h.sequence) + spec_u32_to_be(h.peer)
}

/// The header decoded from eight bytes.
pub open spec fn spec_header_of(b: Seq<u8>) -> MessageHeader
    recommends
        b.len() == 8,
{
    MessageHeader {
        version: b[0],
        message: spec_msg_type_of(b[1]),
        sequence: spec_u16_be(b.subrange(2, 4)),
        peer: spec_u32_be(b.subrange(4, 8)),
    }
}

impl MessageHeader {
    /// Decodes a header from the first eight bytes.
    pub fn from_bytes(bytes: &[u8]) -> (r: Self)
        requires
            bytes@.len() >= 8,
        ensures
            r == spec_header_of(bytes@.subrange(0, 8)),
            r.message.wf(),
    {
        let version = *slice_index_get(bytes, 0);
        let message = MessageType::from_u8(*slice_index_get(bytes, 1));
        let sequence = u16_from_be(slice_subrange(bytes, 2, 4));
        let peer = u32_from_be(slice_subrange(bytes, 4, 8));
        proof {
            assert(bytes@.subrange(2, 4) =~= bytes@.subrange(0, 8).subrange(2, 4));
            assert(bytes@.subrange(4, 8) =~= bytes@.subrange(0, 8).subrange(4, 8));
        }
        MessageHeader { version, message, sequence, peer }
    }

    /// Encodes the header into its eight-byte wire form.
    pub fn to_bytes(&self) -> (r: Vec<u8>)
        ensures
            r@ =~= spec_header_bytes(*self),
    {
        let mut out: Vec<u8> = Vec::new();
        out.push(self.version);
        out.push(self.message.value());
        let seq_bytes = u16_to_be(self.sequence);
        push_bytes_from(&mut out, seq_bytes.as_slice());
        let peer_bytes = u32_to_be(self.peer);
        push_bytes_from(&mut out, peer_bytes.as_slice());
        out
    }
}

/// Encoding a header and decoding the result returns the same header,
/// for every header whose type byte round-trips.
pub proof fn lemma_header_round_trip(h: MessageHeader)
    requires
        h.message.wf(),
    ensures
        spec_header_of(spec_header_bytes(h)) == h,
{
    let b = spec_header_bytes(h);
    assert(b.subrange(2, 4) =~= spec_u16_to_be(h.sequence));
    assert(b.subrange(4, 8) =~= spec_u32_to_be(h.peer));
    crate::bytes_be::lemma_u16_be_round_trip(h.sequence);
    crate::bytes_be::lemma_u32_be_round_trip(h.peer);
}

/// Decodes the twelve bytes that open every frame: the header and the
/// outer blob's tag. Refused, if and only if, when the version byte is
/// not zero or the outer tag's size does not cover the tag itself.
pub fn parse_frame_head(head: &[u8]) -> (r: Result<(MessageHeader, BlobTag), Error<NoIO>>)
    requires
        head@.len() >= 12,
    ensures
        ({
            let h = spec_header_of(head@.subrange(0, 8));
            let t = spec_tag_of(head@.subrange(8, 12));
            match r {
                Ok(p) => h.version == 0 && t.size >= 4 && p == (h, t) && h.message.wf()
                    && t.wf(),
                Err(e) => e is InvalidData && (h.version != 0 || t.size < 4),
            }
        }),
{
    let header = MessageHeader::from_bytes(head);
    if header.version != MESSAGE_VERSION_CURRENT {
        return Err(Error::InvalidData("wrong version"));
    }
    let tag = BlobTag::from_bytes(slice_subrange(head, 8, 12));
    if let Err(e) = tag.is_valid() {
        return Err(e);
    }
    Ok((header, tag))
}

/// One frame taken off the transport: the decoded header, the outer
/// blob's tag, and the outer blob's payload bytes.
pub struct Message {
    /// The decoded frame header.
    pub header: MessageHeader,
    /// The outer blob's tag.
    pub tag: BlobTag,
    /// The bytes following the outer tag, exactly its inner length.
    pub payload: Vec<u8>,
}

impl Message {
    /// What holds of every frame the read path returns.
    pub open spec fn wf(self) -> bool {
        &&& self.header.message.wf()
        &&& self.header.version == 0
        &&& self.tag.wf()
        &&& self.tag.size >= 4
        &&& self.payload@.len() == self.tag.size - 4
    }

    /// Reads one frame: the header and outer tag, decoded and checked by
    /// `parse_frame_head`, then exactly the outer blob's inner length of
    /// payload. The bytes come from the transport, so nothing is promised
    /// of them beyond the frame shape; `parse_frame_head` states which
    /// opening bytes are refused, and no payload is read after a refusal.
    pub fn from_io<T: IO>(io: &mut T) -> (r: Result<Message, Error<T::Error>>)
        ensures
            r matches Ok(m) ==> m.wf(),
            r matches Err(e) ==> e is IO || e is InvalidData,
    {
        let mut head: Vec<u8> = Vec::new();
        let mut i: usize = 0;
        while i < 12
            invariant
                head@.len() == i,
                i <= 12,
            decreases 12 - i,
        {
            head.push(0);
            i = i + 1;
        }
        if let Err(e) = io.get(&mut head) {
            return Err(e);
        }
        let (header, tag) = match parse_frame_head(head.as_slice()) {
            Ok(p) => p,
            Err(e) => {
                return Err(Error::lift(e));
            },
        };
        let ilen = tag.inner_len();
        let mut payload: Vec<u8> = Vec::new();
        let mut j: usize = 0;
        while j < ilen
            invariant
                payload@.len() == j,
                j <= ilen,
            decreases ilen - j,
        {
            payload.push(0);
            j = j + 1;
        }
        if let Err(e) = io.get(&mut payload) {
            return Err(e);
        }
        Ok(Message { header, tag, payload })
    }

    /// Parses the outer blob over this frame's payload.
    pub fn blob(&self) -> (r: Result<Blob<'_>, Error<NoIO>>)
        ensures
            match r {
                Ok(b) => spec_parse_parts(self.tag, self.payload@) == Some(b.model()) && b.tag
                    == self.tag,
                Err(e) => spec_parse_parts(self.tag, self.payload@) is None && e is InvalidData,
            },
    {
        Blob::from_tag_and_data(self.tag, self.payload.as_slice())
    }
}

/// The mathematical content of one decoded attribute.
pub ghost enum MessageAttrModel {
    Status(i32),
    ObjPath(Seq<char>),
    ObjId(u32),
    Method(Seq<char>),
    ObjType(u32),
    Signature(Seq<u8>),
    Data(Seq<u8>),
    Target(u32),
    Active(bool),
    NoReply(bool),
    Subscribers(Seq<u8>),
    User(Seq<char>),
    Group(Seq<char>),
    Unknown(u32, Seq<u8>),
}

/// Decodes one attribute blob under the id vocabulary; `None` is a
/// payload that does not decode under its id (too short for its scalar,
/// or a string that is not UTF-8).
pub open spec fn spec_decode_attr(m: BlobModel) -> Option<MessageAttrModel> {
    if m.id == 0x01 {
        if m.payload.len() >= 4 {
            Some(MessageAttrModel::Status(spec_u32_be(m.payload.subrange(0, 4)) as i32))
        } else {
            None
        }
    } else if m.id == 0x02 {
        if valid_utf8(spec_trim_nul(m.payload)) {
            Some(MessageAttrModel::ObjPath(decode_utf8(spec_trim_nul(m.payload))))
        } else {
            None
        }
    } else if m.id == 0x03 {
        if m.payload.len() >= 4 {
            Some(MessageAttrModel::ObjId(spec_u32_be(m.payload.subrange(0, 4))))
        } else {
            None
        }
    } else if m.id == 0x04 {
        if valid_utf8(spec_trim_nul(m.payload)) {
            Some(MessageAttrModel::Method(decode_utf8(spec_trim_nul(m.payload))))
        } else {
            None
        }
    } else if m.id == 0x05 {
        if m.payload.len() >= 4 {
            Some(MessageAttrModel::ObjType(spec_u32_be(m.payload.subrange(0, 4))))
        } else {
            None
        }
    } else if m.id == 0x06 {
        Some(MessageAttrModel::Signature(m.payload))
    } else if m.id == 0x07 {
        Some(MessageAttrModel::Data(m.payload))
    } else if m.id == 0x08 {
        if m.payload.len() >= 4 {
            Some(MessageAttrModel::Target(spec_u32_be(m.payload.subrange(0, 4))))
        } else {
            None
        }
    } else if m.id == 0x09 {
        if m.payload.len() >= 1 {
            Some(MessageAttrModel::Active(m.payload[0] != 0))
        } else {
            None
        }
    } else if m.id == 0x0a {
        if m.payload.len() >= 1 {
            Some(MessageAttrModel::NoReply(m.payload[0] != 0))
        } else {
            None
        }
    } else if m.id == 0x0b {
        Some(MessageAttrModel::Subscribers(m.payload))
    } else if m.id == 0x0c {
        if valid_utf8(spec_trim_nul(m.payload)) {
            Some(MessageAttrModel::User(decode_utf8(spec_trim_nul(m.payload))))
        } else {
            None
        }
    } else if m.id == 0x0d {
        if valid_utf8(spec_trim_nul(m.payload)) {
            Some(MessageAttrModel::Group(decode_utf8(spec_trim_nul(m.payload))))
        } else {
            None
        }
    } else {
        Some(MessageAttrModel::Unknown(m.id, m.payload))
    }
}

/// One decoded (or to-be-sent) frame attribute.
pub enum MessageAttr<'a> {
    Status(i32),
    ObjPath(&'a str),
    ObjId(u32),
    Method(&'a str),
    ObjType(u32),
    Signature(&'a [u8]),
    Data(&'a [u8]),
    Target(u32),
    Active(bool),
    NoReply(bool),
    Subscribers(&'a [u8]),
    User(&'a str),
    Group(&'a str),
    Unknown(u32, &'a [u8]),
}

impl<'a> MessageAttr<'a> {
    /// The mathematical content this attribute stands for.
    pub open spec fn model(self) -> MessageAttrModel {
        match self {
            MessageAttr::Status(v) => MessageAttrModel::Status(v),
            MessageAttr::ObjPath(s) => MessageAttrModel::ObjPath(s@),
            MessageAttr::ObjId(v) => MessageAttrModel::ObjId(v),
            MessageAttr::Method(s) => MessageAttrModel::Method(s@),
            MessageAttr::ObjType(v) => MessageAttrModel::ObjType(v),
            MessageAttr::Signature(b) => MessageAttrModel::Signature(b@),
            MessageAttr::Data(b) => MessageAttrModel::Data(b@),
            MessageAttr::Target(v) => MessageAttrModel::Target(v),
            MessageAttr::Active(v) => MessageAttrModel::Active(v),
            MessageAttr::NoReply(v) => MessageAttrModel::NoReply(v),
            MessageAttr::Subscribers(b) => MessageAttrModel::Subscribers(b@),
            MessageAttr::User(s) => MessageAttrModel::User(s@),
            MessageAttr::Group(s) => MessageAttrModel::Group(s@),
            MessageAttr::Unknown(id, b) => MessageAttrModel::Unknown(id, b@),
        }
    }

    /// Decodes one attribute blob, dispatching on its id.
    pub fn from_blob(blob: Blob<'a>) -> (r: Result<Self, Error<NoIO>>)
        ensures
            match r {
                Ok(a) => spec_decode_attr(blob.model()) == Some(a.model()),
                Err(e) => spec_decode_attr(blob.model()) is None && e is InvalidData,
            },
    {
        match MessageAttrId::from_u32(blob.tag.id()) {
            MessageAttrId::Status => match blob.to_i32() {
                Ok(v) => Ok(MessageAttr::Status(v)),
                Err(e) => Err(e),
            },
            MessageAttrId::ObjPath => match blob.to_str() {
                Ok(s) => Ok(MessageAttr::ObjPath(s)),
                Err(e) => Err(e),
            },
            MessageAttrId::ObjId => match blob.to_u32() {
                Ok(v) => Ok(MessageAttr::ObjId(v)),
                Err(e) => Err(e),
            },
            MessageAttrId::Method => match blob.to_str() {
                Ok(s) => Ok(MessageAttr::Method(s)),
                Err(e) => Err(e),
            },
            MessageAttrId::ObjType => match blob.to_u32() {
                Ok(v) => Ok(MessageAttr::ObjType(v)),
                Err(e) => Err(e),
            },
            MessageAttrId::Signature => Ok(MessageAttr::Signature(blob.data)),
            MessageAttrId::Data => Ok(MessageAttr::Data(blob.data)),
            MessageAttrId::Target => match blob.to_u32() {
                Ok(v) => Ok(MessageAttr::Target(v)),
                Err(e) => Err(e),
            },
            MessageAttrId::Active => match blob.to_bool() {
                Ok(v) => Ok(MessageAttr::Active(v)),
                Err(e) => Err(e),
            },
            MessageAttrId::NoReply => match blob.to_bool() {
                Ok(v) => Ok(MessageAttr::NoReply(v)),
                Err(e) => Err(e),
            },
            MessageAttrId::Subscribers => Ok(MessageAttr::Subscribers(blob.data)),
            MessageAttrId::User => match blob.to_str() {
                Ok(s) => Ok(MessageAttr::User(s)),
                Err(e) => Err(e),
            },
            MessageAttrId::Group => match blob.to_str() {
                Ok(s) => Ok(MessageAttr::Group(s)),
                Err(e) => Err(e),
            },
            _ => Ok(MessageAttr::Unknown(blob.tag.id(), blob.data)),
        }
    }
}

/// The attributes decoded from a sequence of parsed blobs; decoding
/// stops at the first blob whose payload does not decode under its id,
/// as the skip-on-malformed iterators do.
pub open spec fn spec_attr_seq(blobs: Seq<BlobModel>) -> Seq<MessageAttrModel>
    decreases blobs.len(),
{
    if blobs.len() == 0 {
        Seq::empty()
    } else {
        match spec_decode_attr(blobs[0]) {
            None => Seq::empty(),
            Some(a) => seq![a] + spec_attr_seq(blobs.drop_first()),
        }
    }
}

/// The blob id under which an attribute is sent.
pub open spec fn spec_attr_id(attr: MessageAttr) -> u32 {
    match attr {
        MessageAttr::Status(_) => 0x01,
        MessageAttr::ObjPath(_) => 0x02,
        MessageAttr::ObjId(_) => 0x03,
        MessageAttr::Method(_) => 0x04,
        MessageAttr::ObjType(_) => 0x05,
        MessageAttr::Signature(_) => 0x06,
        MessageAttr::Data(_) => 0x07,
        MessageAttr::Target(_) => 0x08,
        MessageAttr::Active(_) => 0x09,
        MessageAttr::NoReply(_) => 0x0a,
        MessageAttr::Subscribers(_) => 0x0b,
        MessageAttr::User(_) => 0x0c,
        MessageAttr::Group(_) => 0x0d,
        MessageAttr::Unknown(id, _) => id,
    }
}

/// The payload bytes under which an attribute is sent: strings get a
/// trailing NUL, integers are big-endian, booleans are one byte.
pub open spec fn spec_attr_payload(attr: MessageAttr) -> Seq<u8> {
    match attr {
        MessageAttr::Status(v) => spec_u32_to_be(v as u32),
        MessageAttr::ObjPath(s) => s.spec_bytes() + seq![0u8],
        MessageAttr::ObjId(v) => spec_u32_to_be(v),
        MessageAttr::Method(s) => s.spec_bytes() + seq![0u8],
        MessageAttr::ObjType(v) => spec_u32_to_be(v),
        MessageAttr::Signature(b) => b@,
        MessageAttr::Data(b) => b@,
        MessageAttr::Target(v) => spec_u32_to_be(v),
        MessageAttr::Active(v) => seq![
            if v {
                1u8
            } else {
                0u8
            },
        ],
        MessageAttr::NoReply(v) => seq![
            if v {
                1u8
            } else {
                0u8
            },
        ],
        MessageAttr::Subscribers(b) => b@,
        MessageAttr::User(s) => s.spec_bytes() + seq![0u8],
        MessageAttr::Group(s) => s.spec_bytes() + seq![0u8],
        MessageAttr::Unknown(_, b) => b@,
    }
}

/// Builds one frame in a caller-supplied scratch buffer: the header
/// bytes, room for the outer tag, then one attribute blob per `put`;
/// `finish` patches the outer tag and hands the frame back.
pub struct MessageBuilder {
    buffer: Vec<u8>,
    offset: usize,
}

impl MessageBuilder {
    /// The bytes of the frame written so far.
    pub closed spec fn built(self) -> Seq<u8> {
        self.buffer@.take(self.offset as int)
    }

    /// The total room in the scratch buffer.
    pub closed spec fn capacity(self) -> int {
        self.buffer@.len() as int
    }

    /// The builder's internal consistency: header and tag room are
    /// written, the offset lies inside the buffer, and the buffer is
    /// small enough that the final frame size fits the outer tag.
    pub closed spec fn wf(self) -> bool {
        12 <= self.offset <= self.buffer@.len() <= 0xff_ffff + 8
    }

    /// Starts a frame: writes the header bytes and reserves four zeroed
    /// bytes for the outer tag, which `finish` patches. Refuses a buffer
    /// too small for header and tag, or too large for the outer tag's
    /// 24-bit size field.
    pub fn new(buffer: Vec<u8>, header: MessageHeader) -> (r: Result<MessageBuilder, Error<NoIO>>)
        ensures
            match r {
                Ok(mb) => {
                    &&& 12 <= buffer@.len() <= 0xff_ffff + 8
                    &&& mb.wf()
                    &&& mb.capacity() == buffer@.len()
                    &&& mb.built() =~= spec_header_bytes(header) + seq![0u8, 0u8, 0u8, 0u8]
                },
                Err(e) => e is InvalidData && (buffer@.len() < 12 || buffer@.len() > 0xff_ffff
                    + 8),
            },
    {
        if buffer.len() < 12 {
            return Err(Error::InvalidData("builder buffer too small"));
        }
        if buffer.len() > 0xff_ffff + 8 {
            return Err(Error::InvalidData("builder buffer too large"));
        }
        let mut buffer = buffer;
        let hb = header.to_bytes();
        write_slice(&mut buffer, 0, hb.as_slice());
        let mut zeros: Vec<u8> = Vec::new();
        zeros.push(0);
        zeros.push(0);
        zeros.push(0);
        zeros.push(0);
        write_slice(&mut buffer, 8, zeros.as_slice());
        let mb = MessageBuilder { buffer, offset: 12 };
        proof {
            assert(mb.built() =~= spec_header_bytes(header) + seq![0u8, 0u8, 0u8, 0u8]);
        }
        Ok(mb)
    }

    /// Appends one attribute blob. Fails, changing nothing, if the
    /// attribute's id or size is out of range or the blob and its padding
    /// would not fit in the remaining room. Signature and subscriber
    /// attributes would need extended blobs, which this builder does not
    /// emit; they are left out by contract.
    pub fn put(&mut self, attr: MessageAttr) -> (r: Result<(), Error<NoIO>>)
        requires
            old(self).wf(),
            !(attr is Signature),
            !(attr is Subscribers),
        ensures
            final(self).wf(),
            final(self).capacity() == old(self).capacity(),
            match r {
                Ok(_) => {
                    &&& spec_attr_id(attr) <= 0x7f
                    &&& 4 + spec_attr_payload(attr).len() <= 0xff_ffff
                    &&& old(self).built().len() + spec_align4(
                        4 + spec_attr_payload(attr).len() as int,
                    ) <= old(self).capacity()
                    &&& final(self).built() =~= old(self).built() + spec_blob_wire(
                        spec_attr_id(attr),
                        spec_attr_payload(attr),
                    )
                },
                Err(e) => {
                    &&& final(self).built() == old(self).built()
                    &&& e is InvalidData
                    &&& (spec_attr_id(attr) > 0x7f || 4 + spec_attr_payload(attr).len()
                        > 0xff_ffff || old(self).built().len() + spec_align4(
                        4 + spec_attr_payload(attr).len() as int,
                    ) > old(self).capacity())
                },
            },
    {
        let id: u32 = match &attr {
            MessageAttr::Status(_) => 0x01,
            MessageAttr::ObjPath(_) => 0x02,
            MessageAttr::ObjId(_) => 0x03,
            MessageAttr::Method(_) => 0x04,
            MessageAttr::ObjType(_) => 0x05,
            MessageAttr::Signature(_) => 0x06,
            MessageAttr::Data(_) => 0x07,
            MessageAttr::Target(_) => 0x08,
            MessageAttr::Active(_) => 0x09,
            MessageAttr::NoReply(_) => 0x0a,
            MessageAttr::Subscribers(_) => 0x0b,
            MessageAttr::User(_) => 0x0c,
            MessageAttr::Group(_) => 0x0d,
            MessageAttr::Unknown(i, _) => *i,
        };
        let payload: Vec<u8> = match &attr {
            MessageAttr::Status(v) => u32_to_be(*v as u32),
            MessageAttr::ObjPath(s) => {
                let mut p = slice_to_vec(s.as_bytes());
                p.push(0);
                p
            },
            MessageAttr::ObjId(v) => u32_to_be(*v),
            MessageAttr::Method(s) => {
                let mut p = slice_to_vec(s.as_bytes());
                p.push(0);
                p
            },
            MessageAttr::ObjType(v) => u32_to_be(*v),
            MessageAttr::Signature(_) => {
                proof {
                    assert(false);
                }
                Vec::new()
            },
            MessageAttr::Data(b) => slice_to_vec(b),
            MessageAttr::Target(v) => u32_to_be(*v),
            MessageAttr::Active(v) => {
                let mut p: Vec<u8> = Vec::new();
                p.push(
                    if *v {
                        1
                    } else {
                        0
                    },
                );
                p
            },
            MessageAttr::NoReply(v) => {
                let mut p: Vec<u8> = Vec::new();
                p.push(
                    if *v {
                        1
                    } else {
                        0
                    },
                );
                p
            },
            MessageAttr::Subscribers(_) => {
                proof {
                    assert(false);
                }
                Vec::new()
            },
            MessageAttr::User(s) => {
                let mut p = slice_to_vec(s.as_bytes());
                p.push(0);
                p
            },
            MessageAttr::Group(s) => {
                let mut p = slice_to_vec(s.as_bytes());
                p.push(0);
                p
            },
            MessageAttr::Unknown(_, b) => slice_to_vec(b),
        };
        proof {
            assert(id == spec_attr_id(attr));
            assert(payload@ =~= spec_attr_payload(attr));
        }
        let ghost pre = *self;
        match append_blob(&mut self.buffer, self.offset, id, payload.as_slice()) {
            Ok(end) => {
                self.offset = end;
                proof {
                    assert(self.built() =~= pre.built() + spec_blob_wire(
                        id,
                        spec_attr_payload(attr),
                    ));
                }
                Ok(())
            },
            Err(e) => Err(e),
        }
    }

    /// Patches the outer tag (id zero, size of everything after the
    /// header) and hands back the written frame.
    pub fn finish(self) -> (r: Vec<u8>)
        requires
            self.wf(),
        ensures
            r@.len() == self.built().len(),
            r@ =~= self.built().subrange(0, 8) + spec_tag_bytes(BlobTag {
                extended: false,
                id: 0,
                size: (self.built().len() - 8) as u32,
            }) + self.built().subrange(12, self.built().len() as int),
    {
        let MessageBuilder { mut buffer, offset } = self;
        let tag = BlobTag { extended: false, id: 0, size: (offset - 8) as u32 };
        let tag_bytes = tag.to_bytes();
        write_slice(&mut buffer, 8, tag_bytes.as_slice());
        buffer.truncate(offset);
        proof {
            assert(buffer@ =~= self.built().subrange(0, 8) + spec_tag_bytes(tag)
                + self.built().subrange(12, self.built().len() as int));
        }
        buffer
    }
}

} // verus!
