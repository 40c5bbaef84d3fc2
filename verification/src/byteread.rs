//! Endian-aware primitive reads over a byte slice.
//!
//! Each multi-byte integer field of a record is interpreted in the byte order
//! the capture session declared; the decoder never infers endianness from the
//! input. The spec functions below are the mathematical meaning of each read,
//! and the executable readers are proved against them.

use vstd::prelude::*;

verus! {

/// Byte order used to interpret multi-byte fields.
#[derive(Clone, Copy, PartialEq, Eq, Structural, Debug)]
pub enum Endian {
    Little,
    Big,
}

pub open spec fn u16_le(d: Seq<u8>, p: int) -> u16 {
    (d[p] + d[p + 1] * 0x100) as u16
}

pub open spec fn u16_be(d: Seq<u8>, p: int) -> u16 {
    (d[p + 1] + d[p] * 0x100) as u16
}

pub open spec fn u32_le(d: Seq<u8>, p: int) -> u32 {
    (d[p] + d[p + 1] * 0x100 + d[p + 2] * 0x1_0000 + d[p + 3] * 0x100_0000) as u32
}

pub open spec fn u32_be(d: Seq<u8>, p: int) -> u32 {
    (d[p + 3] + d[p + 2] * 0x100 + d[p + 1] * 0x1_0000 + d[p] * 0x100_0000) as u32
}

pub open spec fn u64_le(d: Seq<u8>, p: int) -> u64 {
    (d[p] + d[p + 1] * 0x100 + d[p + 2] * 0x1_0000 + d[p + 3] * 0x100_0000
        + d[p + 4] * 0x1_0000_0000 + d[p + 5] * 0x100_0000_0000
        + d[p + 6] * 0x1_0000_0000_0000 + d[p + 7] * 0x100_0000_0000_0000) as u64
}

pub open spec fn u64_be(d: Seq<u8>, p: int) -> u64 {
    (d[p + 7] + d[p + 6] * 0x100 + d[p + 5] * 0x1_0000 + d[p + 4] * 0x100_0000
        + d[p + 3] * 0x1_0000_0000 + d[p + 2] * 0x100_0000_0000
        + d[p + 1] * 0x1_0000_0000_0000 + d[p] * 0x100_0000_0000_0000) as u64
}

/// The `u16` stored at byte offset `p` of `d` in byte order `e`.
pub open spec fn u16_at(d: Seq<u8>, e: Endian, p: int) -> u16 {
    match e {
        Endian::Little => u16_le(d, p),
        Endian::Big => u16_be(d, p),
    }
}

/// The `u32` stored at byte offset `p` of `d` in byte order `e`.
pub open spec fn u32_at(d: Seq<u8>, e: Endian, p: int) -> u32 {
    match e {
        Endian::Little => u32_le(d, p),
        Endian::Big => u32_be(d, p),
    }
}

/// The `u64` stored at byte offset `p` of `d` in byte order `e`.
pub open spec fn u64_at(d: Seq<u8>, e: Endian, p: int) -> u64 {
    match e {
        Endian::Little => u64_le(d, p),
        Endian::Big => u64_be(d, p),
    }
}

/// The `i32` stored at byte offset `p` of `d`: the `u32` bits reinterpreted.
pub open spec fn i32_at(d: Seq<u8>, e: Endian, p: int) -> i32 {
    u32_at(d, e, p) as i32
}

pub fn read_u8_at(d: &[u8], p: usize) -> (r: u8)
    requires
        p < d@.len(),
    ensures
        r == d@[p as int],
{
    d[p]
}

pub fn read_u16_at(d: &[u8], e: Endian, p: usize) -> (r: u16)
    requires
        p + 2 <= d@.len(),
    ensures
        r == u16_at(d@, e, p as int),
{
    let b0 = d[p] as u16;
    let b1 = d[p + 1] as u16;
    match e {
        Endian::Little => b0 + b1 * 0x100,
        Endian::Big => b1 + b0 * 0x100,
    }
}

pub fn read_u32_at(d: &[u8], e: Endian, p: usize) -> (r: u32)
    requires
        p + 4 <= d@.len(),
    ensures
        r == u32_at(d@, e, p as int),
{
    let b0 = d[p] as u32;
    let b1 = d[p + 1] as u32;
    let b2 = d[p + 2] as u32;
    let b3 = d[p + 3] as u32;
    match e {
        Endian::Little => b0 + b1 * 0x100 + b2 * 0x1_0000 + b3 * 0x100_0000,
        Endian::Big => b3 + b2 * 0x100 + b1 * 0x1_0000 + b0 * 0x100_0000,
    }
}

pub fn read_u64_at(d: &[u8], e: Endian, p: usize) -> (r: u64)
    requires
        p + 8 <= d@.len(),
    ensures
        r == u64_at(d@, e, p as int),
{
    let b0 = d[p] as u64;
    let b1 = d[p + 1] as u64;
    let b2 = d[p + 2] as u64;
    let b3 = d[p + 3] as u64;
    let b4 = d[p + 4] as u64;
    let b5 = d[p + 5] as u64;
    let b6 = d[p + 6] as u64;
    let b7 = d[p + 7] as u64;
    match e {
        Endian::Little => b0 + b1 * 0x100 + b2 * 0x1_0000 + b3 * 0x100_0000
            + b4 * 0x1_0000_0000 + b5 * 0x100_0000_0000 + b6 * 0x1_0000_0000_0000
            + b7 * 0x100_0000_0000_0000,
        Endian::Big => b7 + b6 * 0x100 + b5 * 0x1_0000 + b4 * 0x100_0000
            + b3 * 0x1_0000_0000 + b2 * 0x100_0000_0000 + b1 * 0x1_0000_0000_0000
            + b0 * 0x100_0000_0000_0000,
    }
}

pub fn read_i32_at(d: &[u8], e: Endian, p: usize) -> (r: i32)
    requires
        p + 4 <= d@.len(),
    ensures
        r == i32_at(d@, e, p as int),
{
    let u = read_u32_at(d, e, p);
    #[verifier::truncate]
    (u as i32)
}

} // verus!
