//! The blob-message codec: a typed variant layer keyed by blob id on top
//! of (usually extended, name-bearing) blobs. Arrays and tables wrap a
//! nested byte region of further blob messages; scalars are big-endian;
//! strings are NUL-terminated UTF-8 with the NUL stripped on decode; any
//! other id decodes to an unknown variant carrying the raw payload.

use vstd::prelude::*;
use vstd::utf8::{valid_utf8, decode_utf8};
use crate::{Error, NoIO};
use crate::bytes_be::{spec_u16_be, spec_u32_be, spec_u64_be};
use crate::blob::{Blob, BlobModel, BlobIter, spec_blob_seq, spec_trim_nul};

verus! {

/// The type ids of the blob-message layer.
#[derive(Clone, Copy, Debug, PartialEq, Eq, Structural)]
pub enum BlobMsgType {
    Unspec,
    Array,
    Table,
    Str,
    Int64,
    Int32,
    Int16,
    Int8,
    Double,
    Other(u32),
}

/// The blob-message type selected by a blob id.
pub open spec fn spec_blobmsg_type_of(v: u32) -> BlobMsgType {
    if v == 0 {
        BlobMsgType::Unspec
    } else if v == 1 {
        BlobMsgType::Array
    } else if v == 2 {
        BlobMsgType::Table
    } else if v == 3 {
        BlobMsgType::Str
    } else if v == 4 {
        BlobMsgType::Int64
    } else if v == 5 {
        BlobMsgType::Int32
    } else if v == 6 {
        BlobMsgType::Int16
    } else if v == 7 {
        BlobMsgType::Int8
    } else if v == 8 {
        BlobMsgType::Double
    } else {
        BlobMsgType::Other(v)
    }
}

impl BlobMsgType {
    /// The blob id that stands for this type on the wire.
    pub open spec fn spec_code(self) -> u32 {
        match self {
            BlobMsgType::Unspec => 0,
            BlobMsgType::Array => 1,
            BlobMsgType::Table => 2,
            BlobMsgType::Str => 3,
            BlobMsgType::Int64 => 4,
            BlobMsgType::Int32 => 5,
            BlobMsgType::Int16 => 6,
            BlobMsgType::Int8 => 7,
            BlobMsgType::Double => 8,
            BlobMsgType::Other(v) => v,
        }
    }

    /// Classifies a blob id.
    pub fn from_u32(v: u32) -> (r: Self)
        ensures
            r == spec_blobmsg_type_of(v),
    {
        if v == 0 {
            BlobMsgType::Unspec
        } else if v == 1 {
            BlobMsgType::Array
        } else if v == 2 {
            BlobMsgType::Table
        } else if v == 3 {
            BlobMsgType::Str
        } else if v == 4 {
            BlobMsgType::Int64
        } else if v == 5 {
            BlobMsgType::Int32
        } else if v == 6 {
            BlobMsgType::Int16
        } else if v == 7 {
            BlobMsgType::Int8
        } else if v == 8 {
            BlobMsgType::Double
        } else {
            BlobMsgType::Other(v)
        }
    }

    /// The blob id this type stands for.
    pub fn value(self) -> (r: u32)
        ensures
            r == self.spec_code(),
    {
        match self {
            BlobMsgType::Unspec => 0,
            BlobMsgType::Array => 1,
            BlobMsgType::Table => 2,
            BlobMsgType::Str => 3,
            BlobMsgType::Int64 => 4,
            BlobMsgType::Int32 => 5,
            BlobMsgType::Int16 => 6,
            BlobMsgType::Int8 => 7,
            BlobMsgType::Double => 8,
            BlobMsgType::Other(v) => v,
        }
    }

    /// Whether this is one of the ids the layer gives a meaning to.
    pub fn known(self) -> (r: bool)
        ensures
            r == !(self is Other),
    {
        match self {
            BlobMsgType::Other(_) => false,
            _ => true,
        }
    }
}

/// The mathematical content of a decoded blob-message payload.
pub ghost enum BlobMsgDataModel {
    Array(Seq<u8>),
    Table(Seq<u8>),
    Str(Seq<char>),
    Int64(i64),
    Int32(i32),
    Int16(i16),
    Int8(i8),
    Double(u64),
    Unknown(u32, Seq<u8>),
}

/// The mathematical content of one decoded blob message.
pub ghost struct BlobMsgModel {
    /// The blob's name, present exactly on extended blobs.
    pub name: Option<Seq<char>>,
    /// The typed payload.
    pub data: BlobMsgDataModel,
}

/// Decodes the payload of a parsed blob according to its id; `None` is a
/// malformed payload (too short for its scalar width, or a string that is
/// not UTF-8).
pub open spec fn spec_blobmsg_data(m: BlobModel) -> Option<BlobMsgDataModel> {
    if m.id == 1 {
        Some(BlobMsgDataModel::Array(m.payload))
    } else if m.id == 2 {
        Some(BlobMsgDataModel::Table(m.payload))
    } else if m.id == 3 {
        if valid_utf8(spec_trim_nul(m.payload)) {
            Some(BlobMsgDataModel::Str(decode_utf8(spec_trim_nul(m.payload))))
        } else {
            None
        }
    } else if m.id == 4 {
        if m.payload.len() >= 8 {
            Some(BlobMsgDataModel::Int64(spec_u64_be(m.payload.subrange(0, 8)) as i64))
        } else {
            None
        }
    } else if m.id == 5 {
        if m.payload.len() >= 4 {
            Some(BlobMsgDataModel::Int32(spec_u32_be(m.payload.subrange(0, 4)) as i32))
        } else {
            None
        }
    } else if m.id == 6 {
        if m.payload.len() >= 2 {
            Some(BlobMsgDataModel::Int16(spec_u16_be(m.payload.subrange(0, 2)) as i16))
        } else {
            None
        }
    } else if m.id == 7 {
        if m.payload.len() >= 1 {
            Some(BlobMsgDataModel::Int8(m.payload[0] as i8))
        } else {
            None
        }
    } else if m.id == 8 {
        if m.payload.len() >= 8 {
            Some(BlobMsgDataModel::Double(spec_u64_be(m.payload.subrange(0, 8))))
        } else {
            None
        }
    } else {
        Some(BlobMsgDataModel::Unknown(m.id, m.payload))
    }
}

/// Decodes a parsed blob into a blob message: the blob's name, and its
/// payload under the meaning its id selects.
pub open spec fn spec_blobmsg(m: BlobModel) -> Option<BlobMsgModel> {
    match spec_blobmsg_data(m) {
        Some(d) => Some(BlobMsgModel { name: m.name, data: d }),
        None => None,
    }
}

/// The blob messages decoded from a sequence of parsed blobs; decoding
/// stops at the first blob whose payload does not decode under its id,
/// as the skip-on-malformed iterators do.
pub open spec fn spec_blobmsg_seq(blobs: Seq<BlobModel>) -> Seq<BlobMsgModel>
    decreases blobs.len(),
{
    if blobs.len() == 0 {
        Seq::empty()
    } else {
        match spec_blobmsg(blobs[0]) {
            None => Seq::empty(),
            Some(m) => seq![m] + spec_blobmsg_seq(blobs.drop_first()),
        }
    }
}

/// The decoded payload of one blob message. Array and table variants
/// carry the nested byte region; the double variant carries the IEEE-754
/// bit pattern, which the caller turns into its floating-point type.
pub enum BlobMsgData<'a> {
    Array(&'a [u8]),
    Table(&'a [u8]),
    Str(&'a str),
    Int64(i64),
    Int32(i32),
    Int16(i16),
    Int8(i8),
    Double(u64),
    Unknown(u32, &'a [u8]),
}

impl<'a> BlobMsgData<'a> {
    /// The mathematical content this variant stands for.
    pub open spec fn model(self) -> BlobMsgDataModel {
        match self {
            BlobMsgData::Array(b) => BlobMsgDataModel::Array(b@),
            BlobMsgData::Table(b) => BlobMsgDataModel::Table(b@),
            BlobMsgData::Str(s) => BlobMsgDataModel::Str(s@),
            BlobMsgData::Int64(v) => BlobMsgDataModel::Int64(v),
            BlobMsgData::Int32(v) => BlobMsgDataModel::Int32(v),
            BlobMsgData::Int16(v) => BlobMsgDataModel::Int16(v),
            BlobMsgData::Int8(v) => BlobMsgDataModel::Int8(v),
            BlobMsgData::Double(v) => BlobMsgDataModel::Double(v),
            BlobMsgData::Unknown(id, b) => BlobMsgDataModel::Unknown(id, b@),
        }
    }
}

/// One decoded blob message: an optional name and a typed payload.
pub struct BlobMsg<'a> {
    /// The blob's name, present exactly on extended blobs.
    pub name: Option<&'a str>,
    /// The typed payload.
    pub data: BlobMsgData<'a>,
}

impl<'a> BlobMsg<'a> {
    /// The mathematical content this view stands for.
    pub open spec fn model(self) -> BlobMsgModel {
        BlobMsgModel {
            name: match self.name {
                Some(s) => Some(s@),
                None => None,
            },
            data: self.data.model(),
        }
    }

    /// Decodes a parsed blob into a blob message, dispatching on its id.
    pub fn from_blob(blob: Blob<'a>) -> (r: Result<Self, Error<NoIO>>)
        ensures
            match r {
                Ok(m) => spec_blobmsg(blob.model()) == Some(m.model()),
                Err(e) => spec_blobmsg(blob.model()) is None && e is InvalidData,
            },
    {
        let data = match BlobMsgType::from_u32(blob.tag.id()) {
            BlobMsgType::Array => BlobMsgData::Array(blob.data),
            BlobMsgType::Table => BlobMsgData::Table(blob.data),
            BlobMsgType::Str => match blob.to_str() {
                Ok(s) => BlobMsgData::Str(s),
                Err(e) => {
                    return Err(e);
                },
            },
            BlobMsgType::Int64 => match blob.to_i64() {
                Ok(v) => BlobMsgData::Int64(v),
                Err(e) => {
                    return Err(e);
                },
            },
            BlobMsgType::Int32 => match blob.to_i32() {
                Ok(v) => BlobMsgData::Int32(v),
                Err(e) => {
                    return Err(e);
                },
            },
            BlobMsgType::Int16 => match blob.to_i16() {
                Ok(v) => BlobMsgData::Int16(v),
                Err(e) => {
                    return Err(e);
                },
            },
            BlobMsgType::Int8 => match blob.to_i8() {
                Ok(v) => BlobMsgData::Int8(v),
                Err(e) => {
                    return Err(e);
                },
            },
            BlobMsgType::Double => match blob.to_f64_bits() {
                Ok(v) => BlobMsgData::Double(v),
                Err(e) => {
                    return Err(e);
                },
            },
            _ => BlobMsgData::Unknown(blob.tag.id(), blob.data),
        };
        Ok(BlobMsg { name: blob.name, data })
    }
}

/// A lazy, finite sequence of blob messages over a byte region. Iteration
/// ends at the end of the region, at the first malformed blob, or at the
/// first blob whose payload does not decode under its id; at such an end
/// the iterator stays where it is.
pub struct BlobMsgIter<'a> {
    data: &'a [u8],
}

impl<'a> BlobMsgIter<'a> {
    /// The bytes not yet consumed.
    pub closed spec fn remaining(self) -> Seq<u8> {
        self.data@
    }

    /// Starts iterating at the front of `data`.
    pub fn new(data: &'a [u8]) -> (r: Self)
        ensures
            r.remaining() == data@,
    {
        BlobMsgIter { data }
    }

    /// Decodes the next blob message and advances past its blob, or
    /// returns `None`, moving nothing, at the end of the region or on a
    /// malformed element.
    pub fn next(&mut self) -> (r: Option<BlobMsg<'a>>)
        ensures
            match r {
                None => (spec_blob_seq(old(self).remaining()).len() == 0 || spec_blobmsg(
                    spec_blob_seq(old(self).remaining())[0],
                ) is None) && final(self).remaining() == old(self).remaining(),
                Some(m) => {
                    &&& spec_blob_seq(old(self).remaining()).len() >= 1
                    &&& spec_blobmsg(spec_blob_seq(old(self).remaining())[0]) == Some(m.model())
                    &&& spec_blob_seq(final(self).remaining()) =~= spec_blob_seq(
                        old(self).remaining(),
                    ).drop_first()
                    &&& final(self).remaining().len() < old(self).remaining().len()
                },
            },
    {
        let mut it = BlobIter::new(self.data);
        match it.next() {
            None => None,
            Some(blob) => match BlobMsg::from_blob(blob) {
                Ok(m) => {
                    self.data = it.rest();
                    Some(m)
                },
                Err(_) => None,
            },
        }
    }
}

} // verus!
