//! The blob codec: parsing, building and iterating the tag/length/value
//! container of the wire format.
//!
//! A blob is a 4-byte tag followed by payload bytes and padding up to the
//! next 4-byte boundary. An extended blob carries a name between the tag
//! and the payload: a big-endian 16-bit length, the UTF-8 name bytes, a
//! mandatory NUL, and padding to a 4-byte boundary. The spec functions
//! `spec_parse_blob` and `spec_blob_wire` are the mathematical reading and
//! writing of this layout; every executable function here is proved
//! against them.

use vstd::prelude::*;
use vstd::slice::{slice_index_get, slice_subrange};
use vstd::string::StringSliceAdditionalSpecFns;
use vstd::utf8::{valid_utf8, decode_utf8, encode_utf8, encode_utf8_decode_utf8,
    encode_utf8_valid_utf8};
use crate::{Error, NoIO};
use crate::bytes_be::{spec_u16_be, spec_u32_be, spec_u64_be, u16_from_be, u32_from_be,
    u64_from_be};
use crate::tag::{BlobTag, spec_padding, spec_align4, spec_tag_of, spec_tag_bytes};

verus! {

/// The mathematical content of one parsed blob.
pub ghost struct BlobModel {
    /// Whether the blob carries a name.
    pub extended: bool,
    /// The tag's id field.
    pub id: u32,
    /// Total size in bytes, tag included.
    pub size: u32,
    /// The decoded name, present exactly on extended blobs.
    pub name: Option<Seq<char>>,
    /// The payload bytes after tag, name and name padding.
    pub payload: Seq<u8>,
}

/// Parses the bytes that follow an already-decoded tag. `data` are the
/// bytes after the four tag bytes; exactly `size - 4` of them belong to
/// the blob.
pub open spec fn spec_parse_parts(tag: BlobTag, data: Seq<u8>) -> Option<BlobModel> {
    if tag.size < 4 {
        None
    } else if data.len() < tag.size - 4 {
        None
    } else {
        let inner = data.subrange(0, tag.size - 4);
        if !tag.extended {
            Some(BlobModel {
                extended: false,
                id: tag.id,
                size: tag.size,
                name: None,
                payload: inner,
            })
        } else if inner.len() < 2 {
            None
        } else {
            let nlen = spec_u16_be(inner.subrange(0, 2)) as int;
            if 2 + nlen + 1 > inner.len() {
                None
            } else if inner[2 + nlen] != 0 {
                None
            } else if !valid_utf8(inner.subrange(2, 2 + nlen)) {
                None
            } else {
                let start = 2 + nlen + 1 + spec_padding(2 + nlen + 1);
                if start > inner.len() {
                    None
                } else {
                    Some(BlobModel {
                        extended: true,
                        id: tag.id,
                        size: tag.size,
                        name: Some(decode_utf8(inner.subrange(2, 2 + nlen))),
                        payload: inner.subrange(start, inner.len() as int),
                    })
                }
            }
        }
    }
}

/// Parses one blob from the front of a byte sequence.
pub open spec fn spec_parse_blob(bytes: Seq<u8>) -> Option<BlobModel> {
    if bytes.len() < 4 {
        None
    } else {
        spec_parse_parts(spec_tag_of(bytes.subrange(0, 4)), bytes.subrange(4, bytes.len() as int))
    }
}

/// A byte sequence with a single trailing NUL removed, if one is there.
pub open spec fn spec_trim_nul(b: Seq<u8>) -> Seq<u8> {
    if b.len() > 0 && b[b.len() - 1] == 0 {
        b.drop_last()
    } else {
        b
    }
}

/// Relies on core::str::from_utf8: it returns Ok exactly when the input is
/// valid UTF-8, and the returned string slice is over the input bytes.
#[verifier::external_body]
fn bytes_to_str<'a>(v: &'a [u8]) -> (r: Option<&'a str>)
    ensures
        r is Some <==> valid_utf8(v@),
        r matches Some(s) ==> s.spec_bytes() == v@,
{
    core::str::from_utf8(v).ok()
}

/// An in-place view of one parsed blob over a caller-owned byte slice.
#[derive(Clone, Copy)]
pub struct Blob<'a> {
    /// The decoded tag.
    pub tag: BlobTag,
    /// The payload bytes (name and name padding already skipped).
    pub data: &'a [u8],
    /// The decoded name, present exactly on extended blobs.
    pub name: Option<&'a str>,
}

impl<'a> Blob<'a> {
    /// The mathematical content this view stands for.
    pub open spec fn model(self) -> BlobModel {
        BlobModel {
            extended: self.tag.extended,
            id: self.tag.id,
            size: self.tag.size,
            name: match self.name {
                Some(s) => Some(s@),
                None => None,
            },
            payload: self.data@,
        }
    }

    /// Parses one blob from the front of `data`.
    pub fn from_bytes(data: &'a [u8]) -> (r: Result<Self, Error<NoIO>>)
        ensures
            match r {
                Ok(b) => spec_parse_blob(data@) == Some(b.model()) && b.tag.wf(),
                Err(e) => spec_parse_blob(data@) is None && e is InvalidData,
            },
    {
        if data.len() < 4 {
            return Err(Error::InvalidData("blob too short"));
        }
        let tag = BlobTag::from_bytes(slice_subrange(data, 0, 4));
        let rest = slice_subrange(data, 4, data.len());
        Self::from_tag_and_data(tag, rest)
    }

    /// Parses the remainder of a blob whose tag is already decoded; `data`
    /// are the bytes after the tag.
    pub fn from_tag_and_data(tag: BlobTag, data: &'a [u8]) -> (r: Result<Self, Error<NoIO>>)
        ensures
            match r {
                Ok(b) => spec_parse_parts(tag, data@) == Some(b.model()) && b.tag == tag,
                Err(e) => spec_parse_parts(tag, data@) is None && e is InvalidData,
            },
    {
        if let Err(e) = tag.is_valid() {
            return Err(e);
        }
        let ilen = tag.inner_len();
        if data.len() < ilen {
            return Err(Error::InvalidData("blob too short"));
        }
        let inner = slice_subrange(data, 0, ilen);
        if !tag.is_extended() {
            return Ok(Blob { tag, data: inner, name: None });
        }
        if inner.len() < 2 {
            return Err(Error::InvalidData("extended blob too short"));
        }
        let nlen = u16_from_be(inner) as usize;
        if nlen + 3 > inner.len() {
            return Err(Error::InvalidData("extended blob too short"));
        }
        if *slice_index_get(inner, 2 + nlen) != 0 {
            return Err(Error::InvalidData("no extended name nul terminator"));
        }
        let name_bytes = slice_subrange(inner, 2, 2 + nlen);
        let name = match bytes_to_str(name_bytes) {
            Some(s) => s,
            None => {
                return Err(Error::InvalidData("extended name not valid utf-8"));
            },
        };
        let start = 2 + nlen + 1 + crate::tag::align_padding(2 + nlen + 1);
        if start > inner.len() {
            return Err(Error::InvalidData("extended blob too short"));
        }
        let payload = slice_subrange(inner, start, inner.len());
        proof {
            encode_utf8_decode_utf8(name@);
        }
        Ok(Blob { tag, data: payload, name: Some(name) })
    }

    /// The payload decoded as a big-endian unsigned 8-bit integer.
    pub fn to_u8(&self) -> (r: Result<u8, Error<NoIO>>)
        ensures
            match r {
                Ok(v) => self.data@.len() >= 1 && v == self.data@[0],
                Err(e) => self.data@.len() < 1 && e is InvalidData,
            },
    {
        if self.data.len() < 1 {
            Err(Error::InvalidData("blob too short for u8"))
        } else {
            Ok(*slice_index_get(self.data, 0))
        }
    }

    /// The payload decoded as a big-endian signed 8-bit integer.
    pub fn to_i8(&self) -> (r: Result<i8, Error<NoIO>>)
        ensures
            match r {
                Ok(v) => self.data@.len() >= 1 && v == self.data@[0] as i8,
                Err(e) => self.data@.len() < 1 && e is InvalidData,
            },
    {
        match self.to_u8() {
            Ok(v) => Ok(v as i8),
            Err(e) => Err(e),
        }
    }

    /// The payload decoded as a big-endian unsigned 16-bit integer.
    pub fn to_u16(&self) -> (r: Result<u16, Error<NoIO>>)
        ensures
            match r {
                Ok(v) => self.data@.len() >= 2 && v == spec_u16_be(self.data@.subrange(0, 2)),
                Err(e) => self.data@.len() < 2 && e is InvalidData,
            },
    {
        if self.data.len() < 2 {
            Err(Error::InvalidData("blob too short for u16"))
        } else {
            Ok(u16_from_be(self.data))
        }
    }

    /// The payload decoded as a big-endian signed 16-bit integer.
    pub fn to_i16(&self) -> (r: Result<i16, Error<NoIO>>)
        ensures
            match r {
                Ok(v) => self.data@.len() >= 2 && v == spec_u16_be(
                    self.data@.subrange(0, 2),
                ) as i16,
                Err(e) => self.data@.len() < 2 && e is InvalidData,
            },
    {
        match self.to_u16() {
            Ok(v) => Ok(v as i16),
            Err(e) => Err(e),
        }
    }

    /// The payload decoded as a big-endian unsigned 32-bit integer.
    pub fn to_u32(&self) -> (r: Result<u32, Error<NoIO>>)
        ensures
            match r {
                Ok(v) => self.data@.len() >= 4 && v == spec_u32_be(self.data@.subrange(0, 4)),
                Err(e) => self.data@.len() < 4 && e is InvalidData,
            },
    {
        if self.data.len() < 4 {
            Err(Error::InvalidData("blob too short for u32"))
        } else {
            Ok(u32_from_be(self.data))
        }
    }

    /// The payload decoded as a big-endian signed 32-bit integer.
    pub fn to_i32(&self) -> (r: Result<i32, Error<NoIO>>)
        ensures
            match r {
                Ok(v) => self.data@.len() >= 4 && v == spec_u32_be(
                    self.data@.subrange(0, 4),
                ) as i32,
                Err(e) => self.data@.len() < 4 && e is InvalidData,
            },
    {
        match self.to_u32() {
            Ok(v) => Ok(v as i32),
            Err(e) => Err(e),
        }
    }

    /// The payload decoded as a big-endian unsigned 64-bit integer.
    pub fn to_u64(&self) -> (r: Result<u64, Error<NoIO>>)
        ensures
            match r {
                Ok(v) => self.data@.len() >= 8 && v == spec_u64_be(self.data@.subrange(0, 8)),
                Err(e) => self.data@.len() < 8 && e is InvalidData,
            },
    {
        if self.data.len() < 8 {
            Err(Error::InvalidData("blob too short for u64"))
        } else {
            Ok(u64_from_be(self.data))
        }
    }

    /// The payload decoded as a big-endian signed 64-bit integer.
    pub fn to_i64(&self) -> (r: Result<i64, Error<NoIO>>)
        ensures
            match r {
                Ok(v) => self.data@.len() >= 8 && v == spec_u64_be(
                    self.data@.subrange(0, 8),
                ) as i64,
                Err(e) => self.data@.len() < 8 && e is InvalidData,
            },
    {
        match self.to_u64() {
            Ok(v) => Ok(v as i64),
            Err(e) => Err(e),
        }
    }

    /// The payload decoded as the big-endian bit pattern of an IEEE-754
    /// double; the caller turns the bits into its floating-point type.
    pub fn to_f64_bits(&self) -> (r: Result<u64, Error<NoIO>>)
        ensures
            match r {
                Ok(v) => self.data@.len() >= 8 && v == spec_u64_be(self.data@.subrange(0, 8)),
                Err(e) => self.data@.len() < 8 && e is InvalidData,
            },
    {
        self.to_u64()
    }

    /// The payload decoded as a boolean: one byte, true iff nonzero.
    pub fn to_bool(&self) -> (r: Result<bool, Error<NoIO>>)
        ensures
            match r {
                Ok(v) => self.data@.len() >= 1 && v == (self.data@[0] != 0),
                Err(e) => self.data@.len() < 1 && e is InvalidData,
            },
    {
        match self.to_u8() {
            Ok(v) => Ok(v != 0),
            Err(e) => Err(e),
        }
    }

    /// The payload decoded as a UTF-8 string, with a single trailing NUL
    /// stripped if one is there.
    pub fn to_str(&self) -> (r: Result<&'a str, Error<NoIO>>)
        ensures
            r is Ok <==> valid_utf8(spec_trim_nul(self.data@)),
            r matches Ok(s) ==> s@ == decode_utf8(spec_trim_nul(self.data@))
                && s.spec_bytes() == spec_trim_nul(self.data@),
            r matches Err(e) ==> e is InvalidData,
    {
        let n = self.data.len();
        let trimmed: &'a [u8] = if n > 0 && *slice_index_get(self.data, n - 1) == 0 {
            slice_subrange(self.data, 0, n - 1)
        } else {
            self.data
        };
        assert(trimmed@ == spec_trim_nul(self.data@));
        match bytes_to_str(trimmed) {
            Some(s) => {
                proof {
                    encode_utf8_decode_utf8(s@);
                }
                Ok(s)
            },
            None => Err(Error::InvalidData("blob not valid utf-8")),
        }
    }
}

/// A sequence of `n` zero bytes.
pub open spec fn spec_zeros(n: int) -> Seq<u8> {
    Seq::new(n as nat, |i| 0u8)
}

/// The wire form of one non-extended blob: its tag, the payload, and
/// zeroed padding up to the next 4-byte boundary.
pub open spec fn spec_blob_wire(id: u32, payload: Seq<u8>) -> Seq<u8>
    recommends
        id <= 0x7f,
        4 + payload.len() <= 0xff_ffff,
{
    spec_tag_bytes(BlobTag { extended: false, id, size: (4 + payload.len()) as u32 }) + payload
        + spec_zeros(spec_padding(4 + payload.len() as int))
}

/// Appends the bytes of `src` to `dst`.
pub(crate) fn push_bytes_from(dst: &mut Vec<u8>, src: &[u8])
    ensures
        final(dst)@ == old(dst)@ + src@,
{
    let ghost dst0 = dst@;
    let mut i: usize = 0;
    while i < src.len()
        invariant
            i <= src@.len(),
            dst@ == dst0 + src@.take(i as int),
        decreases src@.len() - i,
    {
        dst.push(*slice_index_get(src, i));
        proof {
            assert(dst@ =~= dst0 + src@.take(i + 1));
        }
        i = i + 1;
    }
    proof {
        assert(dst@ =~= dst0 + src@);
    }
}

/// Overwrites `buffer` at `offset` with the bytes of `src`.
pub(crate) fn write_slice(buffer: &mut Vec<u8>, offset: usize, src: &[u8])
    requires
        offset + src@.len() <= old(buffer)@.len(),
    ensures
        final(buffer)@.len() == old(buffer)@.len(),
        final(buffer)@ =~= old(buffer)@.take(offset as int) + src@ + old(buffer)@.skip(
            offset + src@.len() as int,
        ),
{
    let ghost orig = buffer@;
    let blen = buffer.len();
    let mut i: usize = 0;
    while i < src.len()
        invariant
            i <= src@.len(),
            offset + src@.len() <= orig.len(),
            orig.len() == blen,
            buffer@.len() == orig.len(),
            forall|j: int|
                0 <= j < orig.len() && !(offset <= j < offset + i) ==> buffer@[j] == orig[j],
            forall|j: int| offset <= j < offset + i ==> buffer@[j] == src@[j - offset],
        decreases src@.len() - i,
    {
        let v = *slice_index_get(src, i);
        buffer[offset + i] = v;
        i = i + 1;
    }
    proof {
        assert(buffer@ =~= orig.take(offset as int) + src@ + orig.skip(offset + src@.len() as int));
    }
}

/// Appends one non-extended blob at `offset` in `buffer`, zeroing its
/// alignment padding; on success returns the offset just past the padding.
pub(crate) fn append_blob(buffer: &mut Vec<u8>, offset: usize, id: u32, payload: &[u8]) -> (r: Result<
    usize,
    Error<NoIO>,
>)
    requires
        offset <= old(buffer)@.len(),
    ensures
        final(buffer)@.len() == old(buffer)@.len(),
        match r {
            Ok(end) => {
                &&& id <= 0x7f
                &&& 4 + payload@.len() <= 0xff_ffff
                &&& offset + spec_align4(4 + payload@.len() as int) <= old(buffer)@.len()
                &&& end == offset + spec_align4(4 + payload@.len() as int)
                &&& final(buffer)@ =~= old(buffer)@.take(offset as int) + spec_blob_wire(
                    id,
                    payload@,
                ) + old(buffer)@.skip(end as int)
            },
            Err(e) => {
                &&& final(buffer)@ == old(buffer)@
                &&& e is InvalidData
                &&& (id > 0x7f || 4 + payload@.len() > 0xff_ffff || offset + spec_align4(
                    4 + payload@.len() as int,
                ) > old(buffer)@.len())
            },
        },
{
    if id > crate::tag::TAG_ID_MAX {
        return Err(Error::InvalidData("tag"));
    }
    let plen = payload.len();
    if plen > (crate::tag::TAG_SIZE_MAX as usize) - 4 {
        return Err(Error::InvalidData("tag"));
    }
    let size = 4 + plen;
    let pad = crate::tag::align_padding(size);
    let total = size + pad;
    if total > buffer.len() - offset {
        return Err(Error::InvalidData("builder overflow"));
    }
    let tag = BlobTag { extended: false, id, size: size as u32 };
    let mut wire = tag.to_bytes();
    push_bytes_from(&mut wire, payload);
    let mut k: usize = 0;
    while k < pad
        invariant
            k <= pad,
            wire@ == spec_tag_bytes(tag) + payload@ + spec_zeros(k as int),
        decreases pad - k,
    {
        wire.push(0);
        proof {
            assert(wire@ =~= spec_tag_bytes(tag) + payload@ + spec_zeros(k + 1));
        }
        k = k + 1;
    }
    proof {
        assert(wire@ =~= spec_blob_wire(id, payload@));
    }
    write_slice(buffer, offset, wire.as_slice());
    Ok(offset + total)
}

/// Appends blobs into a caller-supplied scratch buffer at an internal
/// offset; the written prefix is `built()`, the room is `capacity()`.
pub struct BlobBuilder {
    buffer: Vec<u8>,
    offset: usize,
}

impl BlobBuilder {
    /// The bytes written so far.
    pub closed spec fn built(self) -> Seq<u8> {
        self.buffer@.take(self.offset as int)
    }

    /// The total room in the scratch buffer.
    pub closed spec fn capacity(self) -> int {
        self.buffer@.len() as int
    }

    /// The builder's internal consistency: the write offset lies inside
    /// the scratch buffer.
    pub closed spec fn wf(self) -> bool {
        self.offset <= self.buffer@.len()
    }

    /// Starts building at the front of a caller-supplied scratch buffer.
    pub fn from_bytes(buffer: Vec<u8>) -> (r: Self)
        ensures
            r.wf(),
            r.built() =~= Seq::<u8>::empty(),
            r.capacity() == buffer@.len(),
    {
        BlobBuilder { buffer, offset: 0 }
    }

    /// Appends one blob with the given payload bytes. Fails, changing
    /// nothing, if the id or the blob size is out of range or the blob and
    /// its padding would not fit in the remaining room.
    pub fn push_bytes(&mut self, id: u32, data: &[u8]) -> (r: Result<(), Error<NoIO>>)
        requires
            old(self).wf(),
        ensures
            final(self).wf(),
            final(self).capacity() == old(self).capacity(),
            match r {
                Ok(_) => {
                    &&& id <= 0x7f
                    &&& 4 + data@.len() <= 0xff_ffff
                    &&& old(self).built().len() + spec_align4(4 + data@.len() as int) <= old(
                        self,
                    ).capacity()
                    &&& final(self).built() =~= old(self).built() + spec_blob_wire(id, data@)
                },
                Err(e) => {
                    &&& final(self).built() == old(self).built()
                    &&& e is InvalidData
                    &&& (id > 0x7f || 4 + data@.len() > 0xff_ffff || old(self).built().len()
                        + spec_align4(4 + data@.len() as int) > old(self).capacity())
                },
            },
    {
        let ghost pre = *self;
        match append_blob(&mut self.buffer, self.offset, id, data) {
            Ok(end) => {
                self.offset = end;
                proof {
                    assert(self.built() =~= pre.built() + spec_blob_wire(id, data@));
                }
                Ok(())
            },
            Err(e) => Err(e),
        }
    }

    /// Appends one blob holding a big-endian 32-bit integer.
    pub fn push_u32(&mut self, id: u32, data: u32) -> (r: Result<(), Error<NoIO>>)
        requires
            old(self).wf(),
        ensures
            final(self).wf(),
            final(self).capacity() == old(self).capacity(),
            match r {
                Ok(_) => {
                    &&& id <= 0x7f
                    &&& old(self).built().len() + 8 <= old(self).capacity()
                    &&& final(self).built() =~= old(self).built() + spec_blob_wire(
                        id,
                        crate::bytes_be::spec_u32_to_be(data),
                    )
                },
                Err(e) => {
                    &&& final(self).built() == old(self).built()
                    &&& e is InvalidData
                    &&& (id > 0x7f || old(self).built().len() + 8 > old(self).capacity())
                },
            },
    {
        let bytes = crate::bytes_be::u32_to_be(data);
        self.push_bytes(id, bytes.as_slice())
    }

    /// Appends one blob holding a boolean as a single byte.
    pub fn push_bool(&mut self, id: u32, data: bool) -> (r: Result<(), Error<NoIO>>)
        requires
            old(self).wf(),
        ensures
            final(self).wf(),
            final(self).capacity() == old(self).capacity(),
            match r {
                Ok(_) => {
                    &&& id <= 0x7f
                    &&& old(self).built().len() + 8 <= old(self).capacity()
                    &&& final(self).built() =~= old(self).built() + spec_blob_wire(
                        id,
                        seq![
                            if data {
                                1u8
                            } else {
                                0u8
                            },
                        ],
                    )
                },
                Err(e) => {
                    &&& final(self).built() == old(self).built()
                    &&& e is InvalidData
                    &&& (id > 0x7f || old(self).built().len() + 8 > old(self).capacity())
                },
            },
    {
        let mut payload: Vec<u8> = Vec::new();
        payload.push(
            if data {
                1
            } else {
                0
            },
        );
        self.push_bytes(id, payload.as_slice())
    }

    /// Appends one blob holding the string's UTF-8 bytes and a trailing
    /// NUL.
    pub fn push_str(&mut self, id: u32, data: &str) -> (r: Result<(), Error<NoIO>>)
        requires
            old(self).wf(),
        ensures
            final(self).wf(),
            final(self).capacity() == old(self).capacity(),
            match r {
                Ok(_) => {
                    &&& id <= 0x7f
                    &&& 5 + data.spec_bytes().len() <= 0xff_ffff
                    &&& old(self).built().len() + spec_align4(5 + data.spec_bytes().len() as int)
                        <= old(self).capacity()
                    &&& final(self).built() =~= old(self).built() + spec_blob_wire(
                        id,
                        data.spec_bytes() + seq![0u8],
                    )
                },
                Err(e) => {
                    &&& final(self).built() == old(self).built()
                    &&& e is InvalidData
                    &&& (id > 0x7f || 5 + data.spec_bytes().len() > 0xff_ffff || old(
                        self,
                    ).built().len() + spec_align4(5 + data.spec_bytes().len() as int) > old(
                        self,
                    ).capacity())
                },
            },
    {
        let bytes = data.as_bytes();
        let mut payload = vstd::slice::slice_to_vec(bytes);
        payload.push(0);
        proof {
            assert(payload@ =~= data.spec_bytes() + seq![0u8]);
        }
        self.push_bytes(id, payload.as_slice())
    }

    /// Number of bytes written so far.
    pub fn len(&self) -> (r: usize)
        requires
            self.wf(),
        ensures
            r == self.built().len(),
    {
        self.offset
    }

    /// Whether nothing has been written yet.
    pub fn is_empty(&self) -> (r: bool)
        requires
            self.wf(),
        ensures
            r == (self.built().len() == 0),
    {
        self.len() == 0
    }

    /// Gives back the written bytes, dropping the unused rest of the
    /// scratch buffer.
    pub fn into_bytes(self) -> (r: Vec<u8>)
        requires
            self.wf(),
        ensures
            r@ == self.built(),
    {
        let BlobBuilder { mut buffer, offset } = self;
        buffer.truncate(offset);
        buffer
    }
}

/// The sequence of blobs parsed from the front of a byte region. Parsing
/// ends cleanly at the end of input or at the first malformed blob; a
/// final blob whose trailing padding is cut off by the end of input is
/// still yielded.
pub open spec fn spec_blob_seq(bytes: Seq<u8>) -> Seq<BlobModel>
    decreases bytes.len(),
{
    if bytes.len() < 4 {
        Seq::empty()
    } else {
        match spec_parse_blob(bytes) {
            Option::None => Seq::empty(),
            Option::Some(m) => {
                let adv = spec_align4(m.size as int);
                if adv >= bytes.len() || adv < 4 {
                    seq![m]
                } else {
                    seq![m] + spec_blob_seq(bytes.skip(adv))
                }
            },
        }
    }
}

/// A lazy, finite sequence of blobs over a byte region. Each step parses
/// one blob and advances by the aligned size of its tag; iteration ends at
/// the end of the region or at the first malformed blob.
pub struct BlobIter<'a> {
    data: &'a [u8],
}

impl<'a> BlobIter<'a> {
    /// The bytes not yet consumed.
    pub closed spec fn remaining(self) -> Seq<u8> {
        self.data@
    }

    /// Starts iterating at the front of `data`.
    pub fn new(data: &'a [u8]) -> (r: Self)
        ensures
            r.remaining() == data@,
    {
        BlobIter { data }
    }

    /// The bytes not yet consumed, as a slice.
    pub fn rest(&self) -> (r: &'a [u8])
        ensures
            r@ == self.remaining(),
    {
        self.data
    }

    /// Parses the next blob and advances past it, or returns `None` at the
    /// end of the region or on a malformed blob.
    pub fn next(&mut self) -> (r: Option<Blob<'a>>)
        ensures
            match r {
                None => spec_blob_seq(old(self).remaining()).len() == 0 && final(self).remaining()
                    == old(self).remaining(),
                Some(b) => {
                    &&& spec_parse_blob(old(self).remaining()) == Some(b.model())
                    &&& spec_blob_seq(old(self).remaining()).len() >= 1
                    &&& spec_blob_seq(old(self).remaining())[0] == b.model()
                    &&& spec_blob_seq(final(self).remaining()) =~= spec_blob_seq(
                        old(self).remaining(),
                    ).drop_first()
                    &&& ({
                        let adv = spec_align4(b.model().size as int);
                        final(self).remaining() =~= if adv >= old(self).remaining().len() {
                            Seq::<u8>::empty()
                        } else {
                            old(self).remaining().skip(adv)
                        }
                    })
                    &&& final(self).remaining().len() < old(self).remaining().len()
                    &&& b.tag.wf()
                },
            },
    {
        if self.data.len() < 4 {
            return None;
        }
        match Blob::from_bytes(self.data) {
            Err(_) => None,
            Ok(b) => {
                let ghost before = self.data@;
                let n = self.data.len();
                let adv = b.tag.next_tag();
                if adv >= n {
                    self.data = slice_subrange(self.data, n, n);
                } else {
                    self.data = slice_subrange(self.data, adv, n);
                }
                proof {
                    let m = b.model();
                    let adv_s = spec_align4(m.size as int);
                    assert(adv == adv_s);
                    if adv_s >= before.len() || adv_s < 4 {
                        assert(spec_blob_seq(before) =~= seq![m]);
                        assert(self.data@ =~= before.subrange(n as int, n as int));
                        assert(spec_blob_seq(self.data@) =~= Seq::<BlobModel>::empty());
                    } else {
                        assert(self.data@ =~= before.skip(adv_s));
                        assert(spec_blob_seq(before) =~= seq![m] + spec_blob_seq(before.skip(
                            adv_s,
                        )));
                        assert(spec_blob_seq(self.data@) =~= spec_blob_seq(before).drop_first());
                    }
                }
                Some(b)
            },
        }
    }
}

/// Parsing a built blob (with anything laid after it) yields exactly the
/// id and payload it was built from, in a non-extended blob whose size is
/// the tag plus the payload; the offset to the next tag is the tag plus
/// the payload rounded up to 4-byte alignment.
pub proof fn lemma_blob_wire_round_trip(id: u32, payload: Seq<u8>, tail: Seq<u8>)
    requires
        id <= 0x7f,
        4 + payload.len() <= 0xff_ffff,
    ensures
        spec_parse_blob(spec_blob_wire(id, payload) + tail) == Some(BlobModel {
            extended: false,
            id,
            size: (4 + payload.len()) as u32,
            name: None,
            payload,
        }),
        spec_blob_wire(id, payload).len() == spec_align4((4 + payload.len()) as int),
        spec_align4((4 + payload.len()) as int) == 4 + spec_align4(payload.len() as int),
{
    let size = (4 + payload.len()) as u32;
    let t = BlobTag { extended: false, id, size };
    let wire = spec_blob_wire(id, payload);
    let bytes = wire + tail;
    crate::tag::lemma_tag_round_trip(false, id, size);
    assert(bytes.subrange(0, 4) =~= spec_tag_bytes(t));
    let data = bytes.subrange(4, bytes.len() as int);
    assert(data.subrange(0, size - 4) =~= payload);
    vstd::arithmetic::div_mod::lemma_mod_add_multiples_vanish(payload.len() as int, 4);
}

/// Blobs laid out back to back on 4-byte alignment parse in order: the
/// blob sequence of one built blob followed by further bytes is that
/// blob's content followed by the blob sequence of the rest, so a
/// concatenation of built blobs is parsed blob by blob to the input's end.
pub proof fn lemma_blob_seq_concat(id: u32, payload: Seq<u8>, rest: Seq<u8>)
    requires
        id <= 0x7f,
        4 + payload.len() <= 0xff_ffff,
    ensures
        spec_blob_seq(spec_blob_wire(id, payload) + rest) =~= seq![
            BlobModel {
                extended: false,
                id,
                size: (4 + payload.len()) as u32,
                name: None,
                payload,
            },
        ] + spec_blob_seq(rest),
{
    lemma_blob_wire_round_trip(id, payload, rest);
    let wire = spec_blob_wire(id, payload);
    let bytes = wire + rest;
    let m = spec_parse_blob(bytes).unwrap();
    let adv = spec_align4(m.size as int);
    vstd::arithmetic::div_mod::lemma_mod_bound((4 + payload.len()) as int, 4);
    assert(adv == wire.len());
    if adv >= bytes.len() {
        assert(rest.len() == 0);
        assert(spec_blob_seq(rest) =~= Seq::<BlobModel>::empty());
        assert(spec_blob_seq(bytes) =~= seq![m]);
    } else {
        assert(bytes.skip(adv) =~= rest);
    }
}

/// A string without NUL characters, pushed as a NUL-terminated string
/// blob, parses back to the same string: the payload's single trailing
/// NUL is trimmed and the remaining bytes are valid UTF-8 that decodes to
/// the very characters that were pushed.
pub proof fn lemma_string_blob_round_trip(id: u32, s: Seq<char>)
    requires
        id <= 0x7f,
        !s.contains('\0'),
        5 + encode_utf8(s).len() <= 0xff_ffff,
    ensures
        ({
            let m = spec_parse_blob(spec_blob_wire(id, encode_utf8(s) + seq![0u8]));
            &&& m is Some
            &&& valid_utf8(spec_trim_nul(m.unwrap().payload))
            &&& decode_utf8(spec_trim_nul(m.unwrap().payload)) == s
        }),
{
    let payload = encode_utf8(s) + seq![0u8];
    lemma_blob_wire_round_trip(id, payload, Seq::<u8>::empty());
    assert(spec_blob_wire(id, payload) + Seq::<u8>::empty() =~= spec_blob_wire(id, payload));
    let m = spec_parse_blob(spec_blob_wire(id, payload)).unwrap();
    assert(m.payload == payload);
    assert(payload[payload.len() - 1] == 0);
    assert(spec_trim_nul(payload) =~= encode_utf8(s));
    encode_utf8_valid_utf8(s);
    encode_utf8_decode_utf8(s);
}

} // verus!
