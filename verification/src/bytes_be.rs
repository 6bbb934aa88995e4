//! Big-endian integer codecs over byte sequences.
//!
//! All multi-byte fields of the wire format are big-endian. The spec
//! functions here are the mathematical meaning of those fields; the
//! executable functions are proved against them, and the round-trip lemmas
//! state that decoding the encoding of a value returns the value, for every
//! width, signed and unsigned.

use vstd::prelude::*;
use vstd::slice::slice_index_get;

verus! {

pub open spec fn spec_u8_be(b: Seq<u8>) -> u8
    recommends
        b.len() == 1,
{
    b[0]
}

pub open spec fn spec_u16_be(b: Seq<u8>) -> u16
    recommends
        b.len() == 2,
{
    (b[0] as int * 0x100 + b[1] as int) as u16
}

pub open spec fn spec_u32_be(b: Seq<u8>) -> u32
    recommends
        b.len() == 4,
{
    (b[0] as int * 0x100_0000 + b[1] as int * 0x1_0000 + b[2] as int * 0x100
        + b[3] as int) as u32
}

pub open spec fn spec_u64_be(b: Seq<u8>) -> u64
    recommends
        b.len() == 8,
{
    (b[0] as int * 0x100_0000_0000_0000 + b[1] as int * 0x1_0000_0000_0000
        + b[2] as int * 0x100_0000_0000 + b[3] as int * 0x1_0000_0000
        + b[4] as int * 0x100_0000 + b[5] as int * 0x1_0000 + b[6] as int * 0x100
        + b[7] as int) as u64
}

pub open spec fn spec_u8_to_be(v: u8) -> Seq<u8> {
    seq![v]
}

pub open spec fn spec_u16_to_be(v: u16) -> Seq<u8> {
    seq![(v as int / 0x100) as u8, (v as int % 0x100) as u8]
}

pub open spec fn spec_u32_to_be(v: u32) -> Seq<u8> {
    seq![
        (v as int / 0x100_0000) as u8,
        ((v as int / 0x1_0000) % 0x100) as u8,
        ((v as int / 0x100) % 0x100) as u8,
        (v as int % 0x100) as u8,
    ]
}

pub open spec fn spec_u64_to_be(v: u64) -> Seq<u8> {
    seq![
        (v as int / 0x100_0000_0000_0000) as u8,
        ((v as int / 0x1_0000_0000_0000) % 0x100) as u8,
        ((v as int / 0x100_0000_0000) % 0x100) as u8,
        ((v as int / 0x1_0000_0000) % 0x100) as u8,
        ((v as int / 0x100_0000) % 0x100) as u8,
        ((v as int / 0x1_0000) % 0x100) as u8,
        ((v as int / 0x100) % 0x100) as u8,
        (v as int % 0x100) as u8,
    ]
}

/// Decoding the big-endian encoding of an 8-bit value returns the value.
pub proof fn lemma_u8_be_round_trip(v: u8)
    ensures
        spec_u8_be(spec_u8_to_be(v)) == v,
{
}

/// Decoding the big-endian encoding of a 16-bit value returns the value.
pub proof fn lemma_u16_be_round_trip(v: u16)
    ensures
        spec_u16_be(spec_u16_to_be(v)) == v,
{
    assert(v as int == (v / 0x100) as int * 0x100 + (v % 0x100) as int) by (bit_vector);
}

/// Decoding the big-endian encoding of a 32-bit value returns the value.
pub proof fn lemma_u32_be_round_trip(v: u32)
    ensures
        spec_u32_be(spec_u32_to_be(v)) == v,
{
    assert(v as int == (v / 0x100_0000) as int * 0x100_0000
        + ((v / 0x1_0000) % 0x100) as int * 0x1_0000 + ((v / 0x100) % 0x100) as int * 0x100
        + (v % 0x100) as int) by (bit_vector);
}

/// Decoding the big-endian encoding of a 64-bit value returns the value.
pub proof fn lemma_u64_be_round_trip(v: u64)
    ensures
        spec_u64_be(spec_u64_to_be(v)) == v,
{
    assert(v as int == (v / 0x100_0000_0000_0000) as int * 0x100_0000_0000_0000
        + ((v / 0x1_0000_0000_0000) % 0x100) as int * 0x1_0000_0000_0000
        + ((v / 0x100_0000_0000) % 0x100) as int * 0x100_0000_0000
        + ((v / 0x1_0000_0000) % 0x100) as int * 0x1_0000_0000
        + ((v / 0x100_0000) % 0x100) as int * 0x100_0000
        + ((v / 0x1_0000) % 0x100) as int * 0x1_0000 + ((v / 0x100) % 0x100) as int * 0x100
        + (v % 0x100) as int) by (bit_vector);
}

/// The signed decoders reinterpret the unsigned decoding two's-complement;
/// decoding the encoding of a signed 8-bit value returns the value.
pub proof fn lemma_i8_be_round_trip(v: i8)
    ensures
        spec_u8_be(spec_u8_to_be(v as u8)) as i8 == v,
{
    assert(v as u8 as i8 == v) by (bit_vector);
}

/// Decoding the big-endian encoding of a signed 16-bit value returns the value.
pub proof fn lemma_i16_be_round_trip(v: i16)
    ensures
        spec_u16_be(spec_u16_to_be(v as u16)) as i16 == v,
{
    lemma_u16_be_round_trip(v as u16);
    assert(v as u16 as i16 == v) by (bit_vector);
}

/// Decoding the big-endian encoding of a signed 32-bit value returns the value.
pub proof fn lemma_i32_be_round_trip(v: i32)
    ensures
        spec_u32_be(spec_u32_to_be(v as u32)) as i32 == v,
{
    lemma_u32_be_round_trip(v as u32);
    assert(v as u32 as i32 == v) by (bit_vector);
}

/// Decoding the big-endian encoding of a signed 64-bit value returns the value.
pub proof fn lemma_i64_be_round_trip(v: i64)
    ensures
        spec_u64_be(spec_u64_to_be(v as u64)) as i64 == v,
{
    lemma_u64_be_round_trip(v as u64);
    assert(v as u64 as i64 == v) by (bit_vector);
}

pub fn u16_from_be(b: &[u8]) -> (r: u16)
    requires
        b@.len() >= 2,
    ensures
        r == spec_u16_be(b@.subrange(0, 2)),
{
    let b0 = *slice_index_get(b, 0);
    let b1 = *slice_index_get(b, 1);
    (b0 as u16) * 0x100 + (b1 as u16)
}

pub fn u32_from_be(b: &[u8]) -> (r: u32)
    requires
        b@.len() >= 4,
    ensures
        r == spec_u32_be(b@.subrange(0, 4)),
{
    let b0 = *slice_index_get(b, 0);
    let b1 = *slice_index_get(b, 1);
    let b2 = *slice_index_get(b, 2);
    let b3 = *slice_index_get(b, 3);
    (b0 as u32) * 0x100_0000 + (b1 as u32) * 0x1_0000 + (b2 as u32) * 0x100 + (b3 as u32)
}

pub fn u64_from_be(b: &[u8]) -> (r: u64)
    requires
        b@.len() >= 8,
    ensures
        r == spec_u64_be(b@.subrange(0, 8)),
{
    let b0 = *slice_index_get(b, 0);
    let b1 = *slice_index_get(b, 1);
    let b2 = *slice_index_get(b, 2);
    let b3 = *slice_index_get(b, 3);
    let b4 = *slice_index_get(b, 4);
    let b5 = *slice_index_get(b, 5);
    let b6 = *slice_index_get(b, 6);
    let b7 = *slice_index_get(b, 7);
    (b0 as u64) * 0x100_0000_0000_0000 + (b1 as u64) * 0x1_0000_0000_0000
        + (b2 as u64) * 0x100_0000_0000 + (b3 as u64) * 0x1_0000_0000 + (b4 as u64) * 0x100_0000
        + (b5 as u64) * 0x1_0000 + (b6 as u64) * 0x100 + (b7 as u64)
}

pub fn u16_to_be(v: u16) -> (r: Vec<u8>)
    ensures
        r@ =~= spec_u16_to_be(v),
{
    let mut out: Vec<u8> = Vec::new();
    out.push((v / 0x100) as u8);
    out.push((v % 0x100) as u8);
    out
}

pub fn u32_to_be(v: u32) -> (r: Vec<u8>)
    ensures
        r@ =~= spec_u32_to_be(v),
{
    let mut out: Vec<u8> = Vec::new();
    out.push((v / 0x100_0000) as u8);
    out.push(((v / 0x1_0000) % 0x100) as u8);
    out.push(((v / 0x100) % 0x100) as u8);
    out.push((v % 0x100) as u8);
    out
}

pub fn u64_to_be(v: u64) -> (r: Vec<u8>)
    ensures
        r@ =~= spec_u64_to_be(v),
{
    let mut out: Vec<u8> = Vec::new();
    out.push((v / 0x100_0000_0000_0000) as u8);
    out.push(((v / 0x1_0000_0000_0000) % 0x100) as u8);
    out.push(((v / 0x100_0000_0000) % 0x100) as u8);
    out.push(((v / 0x1_0000_0000) % 0x100) as u8);
    out.push(((v / 0x100_0000) % 0x100) as u8);
    out.push(((v / 0x1_0000) % 0x100) as u8);
    out.push(((v / 0x100) % 0x100) as u8);
    out.push((v % 0x100) as u8);
    out
}

} // verus!
