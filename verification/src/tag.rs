//! Blob tag primitives: a 32-bit big-endian word packing an extended flag
//! (bit 31), a seven-bit id (low bits of byte 0), and a 24-bit total size in
//! bytes that includes the tag itself. Blobs are laid out on 4-byte
//! alignment; the padding after a blob is whatever brings its size up to the
//! next multiple of four.

use vstd::prelude::*;
use vstd::slice::slice_index_get;
use crate::{Error, NoIO};

verus! {

/// Number of bytes in an encoded tag.
pub const TAG_SIZE: usize = 4;

/// Largest blob id a tag can carry (seven bits).
pub const TAG_ID_MAX: u32 = 0x7f;

/// Largest total size a tag can carry (24 bits).
pub const TAG_SIZE_MAX: u32 = 0xff_ffff;

/// Bytes of padding that follow a region of `n` bytes before the next
/// 4-byte boundary.
pub open spec fn spec_padding(n: int) -> int {
    (4 - n % 4) % 4
}

/// `n` rounded up to the next multiple of four.
pub open spec fn spec_align4(n: int) -> int {
    n + spec_padding(n)
}

/// Bytes of padding needed after `n` bytes to reach a 4-byte boundary.
pub fn align_padding(n: usize) -> (r: usize)
    ensures
        r == spec_padding(n as int),
{
    let rem = n % 4;
    if rem == 0 {
        0
    } else {
        4 - rem
    }
}

/// The decoded form of a blob tag word.
#[derive(Clone, Copy, Debug, PartialEq, Eq, Structural)]
pub struct BlobTag {
    pub extended: bool,
    pub id: u32,
    pub size: u32,
}

/// The four bytes that encode a tag: the extended bit and id in byte 0, the
/// size big-endian in bytes 1 to 3.
pub open spec fn spec_tag_bytes(t: BlobTag) -> Seq<u8> {
    seq![
        (t.id as int % 0x80 + if t.extended {
            0x80int
        } else {
            0int
        }) as u8,
        ((t.size as int / 0x1_0000) % 0x100) as u8,
        ((t.size as int / 0x100) % 0x100) as u8,
        (t.size as int % 0x100) as u8,
    ]
}

/// The tag decoded from four bytes.
pub open spec fn spec_tag_of(b: Seq<u8>) -> BlobTag
    recommends
        b.len() == 4,
{
    BlobTag {
        extended: b[0] >= 0x80,
        id: (b[0] % 0x80) as u32,
        size: (b[1] as int * 0x1_0000 + b[2] as int * 0x100 + b[3] as int) as u32,
    }
}

impl BlobTag {
    /// Field bounds that every decoded or constructed tag satisfies.
    pub open spec fn wf(self) -> bool {
        self.id <= 0x7f && self.size <= 0xff_ffff
    }

    /// A tag is valid iff its size covers at least the tag itself.
    pub open spec fn spec_valid(self) -> bool {
        self.size >= 4
    }

    /// Number of payload bytes following the tag, zero for malformed sizes.
    pub open spec fn spec_inner_len(self) -> int {
        if self.size >= 4 {
            self.size - 4
        } else {
            0
        }
    }

    /// Constructs a non-extended tag, refusing an id above seven bits or a
    /// size outside the representable range.
    pub fn new(id: u32, len: usize) -> (r: Result<Self, Error<NoIO>>)
        ensures
            match r {
                Ok(t) => id <= 0x7f && 4 <= len <= 0xff_ffff && t == (BlobTag {
                    extended: false,
                    id,
                    size: len as u32,
                }),
                Err(e) => (id > 0x7f || len < 4 || len > 0xff_ffff) && e is InvalidData,
            },
    {
        if id > TAG_ID_MAX || len < TAG_SIZE || len > TAG_SIZE_MAX as usize {
            Err(Error::InvalidData("tag"))
        } else {
            Ok(BlobTag { extended: false, id, size: len as u32 })
        }
    }

    /// Decodes a tag from four bytes; every four-byte word decodes.
    pub fn from_bytes(bytes: &[u8]) -> (r: Self)
        requires
            bytes@.len() == 4,
        ensures
            r == spec_tag_of(bytes@),
            r.wf(),
    {
        let b0 = *slice_index_get(bytes, 0);
        let b1 = *slice_index_get(bytes, 1);
        let b2 = *slice_index_get(bytes, 2);
        let b3 = *slice_index_get(bytes, 3);
        BlobTag {
            extended: b0 >= 0x80,
            id: (b0 % 0x80) as u32,
            size: (b1 as u32) * 0x1_0000 + (b2 as u32) * 0x100 + (b3 as u32),
        }
    }

    /// Encodes the tag into its four-byte wire form.
    pub fn to_bytes(&self) -> (r: Vec<u8>)
        requires
            self.wf(),
        ensures
            r@ =~= spec_tag_bytes(*self),
    {
        let mut out: Vec<u8> = Vec::new();
        out.push(self.id as u8 + if self.extended {
            0x80
        } else {
            0
        });
        out.push((self.size / 0x1_0000) as u8);
        out.push(((self.size / 0x100) % 0x100) as u8);
        out.push((self.size % 0x100) as u8);
        out
    }

    /// Id code of this blob.
    pub fn id(&self) -> (r: u32)
        ensures
            r == self.id,
    {
        self.id
    }

    /// Total number of bytes this blob covers, tag included.
    pub fn size(&self) -> (r: usize)
        ensures
            r == self.size,
    {
        self.size as usize
    }

    /// Number of padding bytes between this blob and the next one.
    pub fn padding(&self) -> (r: usize)
        ensures
            r == spec_padding(self.size as int),
    {
        let rem = (self.size % 4) as usize;
        if rem == 0 {
            0
        } else {
            4 - rem
        }
    }

    /// Number of bytes from this tag to the next tag.
    pub fn next_tag(&self) -> (r: usize)
        requires
            self.size <= 0xff_ffff,
        ensures
            r == spec_align4(self.size as int),
    {
        self.size as usize + self.padding()
    }

    /// Number of payload bytes following the tag.
    pub fn inner_len(&self) -> (r: usize)
        ensures
            r == self.spec_inner_len(),
    {
        if self.size >= 4 {
            (self.size - 4) as usize
        } else {
            0
        }
    }

    /// Whether the extended flag is set (the blob carries a name).
    pub fn is_extended(&self) -> (r: bool)
        ensures
            r == self.extended,
    {
        self.extended
    }

    /// Checks that the blob looks valid: the size covers the tag.
    pub fn is_valid(&self) -> (r: Result<(), Error<NoIO>>)
        ensures
            r is Ok <==> self.spec_valid(),
            r matches Err(e) ==> e is InvalidData,
    {
        if self.size as usize >= TAG_SIZE {
            Ok(())
        } else {
            Err(Error::InvalidData("tag size smaller than tag"))
        }
    }
}

/// For any valid tag the size covers the tag itself, the offset to the next
/// tag is a multiple of four, and the padding is less than four bytes.
pub proof fn lemma_tag_alignment(t: BlobTag)
    requires
        t.spec_valid(),
    ensures
        t.size >= 4,
        spec_align4(t.size as int) % 4 == 0,
        0 <= spec_padding(t.size as int) < 4,
{
    let n = t.size as int;
    vstd::arithmetic::div_mod::lemma_fundamental_div_mod(n, 4);
    vstd::arithmetic::div_mod::lemma_mod_bound(n, 4);
}

/// Encoding a tag and decoding the result returns the same flag, id and
/// size, for every id and size a tag can be built from.
pub proof fn lemma_tag_round_trip(extended: bool, id: u32, size: u32)
    requires
        id <= 0x7f,
        4 <= size <= 0xff_ffff,
    ensures
        spec_tag_of(spec_tag_bytes(BlobTag { extended, id, size })) == (BlobTag {
            extended,
            id,
            size,
        }),
{
    let t = BlobTag { extended, id, size };
    let b = spec_tag_bytes(t);
    assert(id % 0x80 == id as int) by (bit_vector)
        requires
            id <= 0x7f,
    ;
    assert(size as int == (size / 0x1_0000) as int % 0x100 * 0x1_0000
        + ((size / 0x100) % 0x100) as int * 0x100 + (size % 0x100) as int) by (bit_vector)
        requires
            size <= 0xff_ffff,
    ;
    assert(spec_tag_of(b).extended == extended);
    assert(spec_tag_of(b).id == id);
    assert(spec_tag_of(b).size == size);
}

} // verus!

