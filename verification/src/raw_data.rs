//! Zero-copy views over a record's bytes.
//!
//! `RawData` is a borrowed byte view with clamped subrange extraction: an
//! out-of-range subrange yields an empty view, never a panic. `RawRegs` is a
//! view of the same kind that indexes a contiguous run of 64-bit words in the
//! session's byte order.

use vstd::prelude::*;
use crate::byteread::{Endian, u64_at, read_u64_at};

verus! {

/// A zero-copy view over a byte sequence, borrowed from the record buffer.
#[derive(Clone, Copy, Debug)]
pub struct RawData<'a> {
    bytes: &'a [u8],
}

impl<'a> View for RawData<'a> {
    type V = Seq<u8>;

    closed spec fn view(&self) -> Seq<u8> {
        self.bytes@
    }
}

/// The subrange `[start, end)` of `d`, or the empty sequence when the range
/// is out of bounds or inverted.
pub open spec fn subrange_clamped(d: Seq<u8>, start: int, end: int) -> Seq<u8> {
    if 0 <= start <= end <= d.len() {
        d.subrange(start, end)
    } else {
        Seq::empty()
    }
}

impl<'a> RawData<'a> {
    pub fn new(bytes: &'a [u8]) -> (r: Self)
        ensures
            r@ == bytes@,
    {
        RawData { bytes }
    }

    pub fn len(&self) -> (r: usize)
        ensures
            r == self@.len(),
    {
        self.bytes.len()
    }

    pub fn is_empty(&self) -> (r: bool)
        ensures
            r == (self@.len() == 0),
    {
        self.bytes.len() == 0
    }

    /// Subrange extraction without copying. An out-of-range or inverted range
    /// yields an empty view.
    pub fn get(&self, start: usize, end: usize) -> (r: RawData<'a>)
        ensures
            r@ == subrange_clamped(self@, start as int, end as int),
    {
        if start <= end && end <= self.bytes.len() {
            RawData { bytes: &self.bytes[start..end] }
        } else {
            RawData { bytes: &self.bytes[0..0] }
        }
    }

    /// The viewed bytes, as a slice borrowed from the underlying buffer.
    pub fn as_slice(&self) -> (r: &'a [u8])
        ensures
            r@ == self@,
    {
        self.bytes
    }
}

/// A view of a contiguous run of 64-bit words, read in byte order `endian`.
#[derive(Clone, Copy, Debug)]
pub struct RawRegs<'a> {
    data: RawData<'a>,
    endian: Endian,
}

impl<'a> View for RawRegs<'a> {
    type V = Seq<u64>;

    closed spec fn view(&self) -> Seq<u64> {
        Seq::new(self.data@.len() / 8, |i: int| u64_at(self.data@, self.endian, 8 * i))
    }
}

impl<'a> RawRegs<'a> {
    pub fn from_raw_data(data: RawData<'a>, endian: Endian) -> (r: Self)
        ensures
            r@ == Seq::new(data@.len() / 8, |i: int| u64_at(data@, endian, 8 * i)),
    {
        RawRegs { data, endian }
    }

    pub fn len(&self) -> (r: usize)
        ensures
            r == self@.len(),
    {
        self.data.len() / 8
    }

    /// The `i`-th 64-bit word of the view.
    pub fn get(&self, i: usize) -> (r: u64)
        requires
            i < self@.len(),
        ensures
            r == self@[i as int],
    {
        let d = self.data.as_slice();
        let n = d.len();
        proof {
            assert(8 * (i as int) + 8 <= n as int) by (nonlinear_arith)
                requires
                    (i as int) < (n as int) / 8,
            ;
        }
        read_u64_at(d, self.endian, 8 * i)
    }
}

} // verus!
