//! A borrowed byte window with checked cursor reads.
//!
//! `FontData` wraps a byte slice and offers bounds-checked slicing and
//! big-endian scalar reads; every fallible operation returns a value or a
//! `ReadError`, never panics.

use vstd::prelude::*;
use vstd::slice::{slice_index_get, slice_subrange};

verus! {

/// Errors surfaced by checked reads of font tables.
#[derive(Clone, Copy, Debug, PartialEq, Eq)]
pub enum ReadError {
    /// A slice or typed read exceeded the available data.
    OutOfBounds,
    /// A fixed structural assumption was violated (for example a bad version).
    InvalidFormat(&'static str),
    /// Structurally legal but internally inconsistent data.
    MalformedData(&'static str),
}

/// The big-endian 16-bit value stored at `off` in `d`.
pub open spec fn be_u16(d: Seq<u8>, off: int) -> u16
    recommends
        0 <= off,
        off + 2 <= d.len(),
{
    (d[off] as int * 256 + d[off + 1] as int) as u16
}

/// The big-endian 32-bit value stored at `off` in `d`.
pub open spec fn be_u32(d: Seq<u8>, off: int) -> u32
    recommends
        0 <= off,
        off + 4 <= d.len(),
{
    (d[off] as int * 0x1000000 + d[off + 1] as int * 0x10000 + d[off + 2] as int * 256 + d[off
        + 3] as int) as u32
}

/// The 16-bit two's-complement reinterpretation of `v`.
pub open spec fn as_i16(v: u16) -> i16 {
    if v < 0x8000 {
        v as i16
    } else {
        (v - 0x10000) as i16
    }
}

/// The 8-bit two's-complement reinterpretation of `v`.
pub open spec fn as_i8(v: u8) -> i8 {
    if v < 0x80 {
        v as i8
    } else {
        (v - 0x100) as i8
    }
}

/// An immutable window over a byte range. Every read is bounds-checked and
/// yields either a value or a `ReadError::OutOfBounds`.
#[derive(Clone, Copy)]
pub struct FontData<'a> {
    bytes: &'a [u8],
}

impl View for FontData<'_> {
    type V = Seq<u8>;

    closed spec fn view(&self) -> Seq<u8> {
        self.bytes@
    }
}

impl<'a> FontData<'a> {
    /// Wrap a byte slice.
    pub fn new(bytes: &'a [u8]) -> (r: FontData<'a>)
        ensures
            r@ == bytes@,
    {
        FontData { bytes }
    }

    /// The number of bytes in the window.
    pub fn len(&self) -> (r: usize)
        ensures
            r == self@.len(),
    {
        self.bytes.len()
    }

    /// Read the unsigned byte at `offset`.
    pub fn read_u8(&self, offset: usize) -> (r: Result<u8, ReadError>)
        ensures
            offset < self@.len() ==> r == Ok::<u8, ReadError>(self@[offset as int]),
            offset >= self@.len() ==> r == Err::<u8, ReadError>(ReadError::OutOfBounds),
    {
        if offset < self.bytes.len() {
            Ok(*slice_index_get(self.bytes, offset))
        } else {
            Err(ReadError::OutOfBounds)
        }
    }

    /// Read the signed byte at `offset`.
    pub fn read_i8(&self, offset: usize) -> (r: Result<i8, ReadError>)
        ensures
            offset < self@.len() ==> r == Ok::<i8, ReadError>(as_i8(self@[offset as int])),
            offset >= self@.len() ==> r == Err::<i8, ReadError>(ReadError::OutOfBounds),
    {
        match self.read_u8(offset) {
            Ok(v) => if v < 0x80 {
                Ok(v as i8)
            } else {
                Ok((v as i16 - 0x100) as i8)
            },
            Err(e) => Err(e),
        }
    }

    /// Read the big-endian unsigned 16-bit value at `offset`.
    pub fn read_u16(&self, offset: usize) -> (r: Result<u16, ReadError>)
        ensures
            offset + 2 <= self@.len() ==> r == Ok::<u16, ReadError>(be_u16(self@, offset as int)),
            offset + 2 > self@.len() ==> r == Err::<u16, ReadError>(ReadError::OutOfBounds),
    {
        if offset < self.bytes.len() && self.bytes.len() - offset >= 2 {
            let b0 = *slice_index_get(self.bytes, offset);
            let b1 = *slice_index_get(self.bytes, offset + 1);
            Ok(b0 as u16 * 256 + b1 as u16)
        } else {
            Err(ReadError::OutOfBounds)
        }
    }

    /// Read the big-endian signed 16-bit value at `offset`.
    pub fn read_i16(&self, offset: usize) -> (r: Result<i16, ReadError>)
        ensures
            offset + 2 <= self@.len() ==> r == Ok::<i16, ReadError>(
                as_i16(be_u16(self@, offset as int)),
            ),
            offset + 2 > self@.len() ==> r == Err::<i16, ReadError>(ReadError::OutOfBounds),
    {
        match self.read_u16(offset) {
            Ok(v) => if v < 0x8000 {
                Ok(v as i16)
            } else {
                Ok((v as i32 - 0x10000) as i16)
            },
            Err(e) => Err(e),
        }
    }

    /// Read the big-endian unsigned 32-bit value at `offset`.
    pub fn read_u32(&self, offset: usize) -> (r: Result<u32, ReadError>)
        ensures
            offset + 4 <= self@.len() ==> r == Ok::<u32, ReadError>(be_u32(self@, offset as int)),
            offset + 4 > self@.len() ==> r == Err::<u32, ReadError>(ReadError::OutOfBounds),
    {
        if offset < self.bytes.len() && self.bytes.len() - offset >= 4 {
            let b0 = *slice_index_get(self.bytes, offset);
            let b1 = *slice_index_get(self.bytes, offset + 1);
            let b2 = *slice_index_get(self.bytes, offset + 2);
            let b3 = *slice_index_get(self.bytes, offset + 3);
            Ok(b0 as u32 * 0x1000000 + b1 as u32 * 0x10000 + b2 as u32 * 256 + b3 as u32)
        } else {
            Err(ReadError::OutOfBounds)
        }
    }

    /// Produce the sub-window `[start, end)`, or `None` if out of range.
    pub fn slice(&self, start: usize, end: usize) -> (r: Option<FontData<'a>>)
        ensures
            start <= end <= self@.len() ==> r is Some && r.unwrap()@ == self@.subrange(
                start as int,
                end as int,
            ),
            !(start <= end <= self@.len()) ==> r is None,
    {
        if start <= end && end <= self.bytes.len() {
            Some(FontData { bytes: slice_subrange(self.bytes, start, end) })
        } else {
            None
        }
    }

    /// Produce the sub-window starting at `offset`, or `None` if out of range.
    pub fn split_off(&self, offset: usize) -> (r: Option<FontData<'a>>)
        ensures
            offset <= self@.len() ==> r is Some && r.unwrap()@ == self@.subrange(
                offset as int,
                self@.len() as int,
            ),
            offset > self@.len() ==> r is None,
    {
        self.slice(offset, self.bytes.len())
    }

    /// Split off the first `n` bytes as a new window, leaving this window on
    /// the remainder; `None` (and no change) if fewer than `n` bytes remain.
    pub fn take_up_to(&mut self, n: usize) -> (r: Option<FontData<'a>>)
        ensures
            n <= old(self)@.len() ==> r is Some && r.unwrap()@ == old(self)@.subrange(0, n as int)
                && final(self)@ == old(self)@.subrange(n as int, old(self)@.len() as int),
            n > old(self)@.len() ==> r is None && final(self)@ == old(self)@,
    {
        if n <= self.bytes.len() {
            let front = slice_subrange(self.bytes, 0, n);
            self.bytes = slice_subrange(self.bytes, n, self.bytes.len());
            Some(FontData { bytes: front })
        } else {
            None
        }
    }
}

} // verus!
