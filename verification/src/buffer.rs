//! The byte cursor: big-endian reads at absolute offsets, each bounds-checked.

use crate::error::{ClassFileError, ClassFileResult};
use vstd::prelude::*;

verus! {

/// The unsigned 16-bit value that starts at `i`, big-endian.
pub open spec fn be_u16(data: Seq<u8>, i: int) -> int {
    data[i] * 0x100 + data[i + 1]
}

/// The unsigned 32-bit value that starts at `i`, big-endian.
pub open spec fn be_u32(data: Seq<u8>, i: int) -> int {
    be_u16(data, i) * 0x1_0000 + be_u16(data, i + 2)
}

/// The unsigned 64-bit value that starts at `i`, big-endian.
pub open spec fn be_u64(data: Seq<u8>, i: int) -> int {
    be_u32(data, i) * 0x1_0000_0000 + be_u32(data, i + 4)
}

/// The two's complement reading of an unsigned value of `bits` bits, where
/// `half` is two to the power `bits - 1`.
pub open spec fn signed(value: int, half: int) -> int {
    if value < half {
        value
    } else {
        value - 2 * half
    }
}

/// Whether `len` bytes starting at `index` lie inside a buffer of `total` bytes.
pub open spec fn in_bounds(total: int, index: int, len: int) -> bool {
    index + len <= total
}

/// The error of a read of `len` bytes at `index` that leaves the buffer: it
/// names the last index the read would have touched, capped at the largest
/// index there is.
pub open spec fn out_of_bounds(total: int, index: int, len: int) -> ClassFileError {
    ClassFileError::OutOfBounds {
        index: if index + len - 1 > usize::MAX {
            usize::MAX
        } else if index + len < 1 {
            0usize
        } else {
            (index + len - 1) as usize
        },
        len: total as usize,
    }
}

/// The outcome of reading a value of `len` bytes at `index`: `value` where the
/// bytes are there, the bounds error where they are not.
pub open spec fn read_at<T>(data: Seq<u8>, index: int, len: int, value: T) -> ClassFileResult<T> {
    if in_bounds(data.len() as int, index, len) {
        Ok(value)
    } else {
        Err(out_of_bounds(data.len() as int, index, len))
    }
}

pub open spec fn spec_read_u8(data: Seq<u8>, index: int) -> ClassFileResult<u8> {
    read_at(data, index, 1, data[index])
}

pub open spec fn spec_read_u16(data: Seq<u8>, index: int) -> ClassFileResult<u16> {
    read_at(data, index, 2, be_u16(data, index) as u16)
}

pub open spec fn spec_read_u32(data: Seq<u8>, index: int) -> ClassFileResult<u32> {
    read_at(data, index, 4, be_u32(data, index) as u32)
}

pub open spec fn spec_read_u64(data: Seq<u8>, index: int) -> ClassFileResult<u64> {
    read_at(data, index, 8, be_u64(data, index) as u64)
}

pub open spec fn spec_read_i32(data: Seq<u8>, index: int) -> ClassFileResult<i32> {
    read_at(data, index, 4, signed(be_u32(data, index), 0x8000_0000) as i32)
}

pub open spec fn spec_read_i64(data: Seq<u8>, index: int) -> ClassFileResult<i64> {
    read_at(data, index, 8, signed(be_u64(data, index), 0x8000_0000_0000_0000) as i64)
}

/// The offset `by` bytes behind `offset`, or the largest offset there is
/// where that one does not fit the machine's word. No read at the largest
/// offset succeeds, so that a read behind the end fails wherever it is tried.
pub open spec fn spec_advance(offset: int, by: int) -> usize {
    if offset + by > usize::MAX {
        usize::MAX
    } else if offset + by < 0 {
        0usize
    } else {
        (offset + by) as usize
    }
}

/// The offset `by` bytes behind `offset`, as far as the machine's word goes.
#[verifier::when_used_as_spec(spec_advance_exec)]
pub fn advance(offset: usize, by: usize) -> (r: usize)
    ensures
        r == spec_advance(offset as int, by as int),
{
    match offset.checked_add(by) {
        Some(end) => end,
        None => usize::MAX,
    }
}

pub open spec fn spec_advance_exec(offset: usize, by: usize) -> usize {
    spec_advance(offset as int, by as int)
}

/// A view of the bytes of a class file, or of a part of them. It has no
/// position of its own: every read names its offset.
#[derive(Copy, Clone, Debug)]
pub struct ClassBuffer<'class> {
    data: &'class [u8],
}

impl<'class> View for ClassBuffer<'class> {
    type V = Seq<u8>;

    closed spec fn view(&self) -> Seq<u8> {
        self.data@
    }
}

/// Reinterprets eight bits as a signed number.
pub fn to_i8(value: u8) -> (r: i8)
    ensures
        r == signed(value as int, 0x80),
{
    if value < 0x80 {
        value as i8
    } else {
        (value as i16 - 0x100) as i8
    }
}

/// Reinterprets sixteen bits as a signed number.
pub fn to_i16(value: u16) -> (r: i16)
    ensures
        r == signed(value as int, 0x8000),
{
    if value < 0x8000 {
        value as i16
    } else {
        (value as i32 - 0x1_0000) as i16
    }
}

/// Reinterprets thirty-two bits as a signed number.
pub fn to_i32(value: u32) -> (r: i32)
    ensures
        r == signed(value as int, 0x8000_0000),
{
    if value < 0x8000_0000 {
        value as i32
    } else {
        (value as i64 - 0x1_0000_0000) as i32
    }
}

/// Reinterprets sixty-four bits as a signed number.
pub fn to_i64(value: u64) -> (r: i64)
    ensures
        r == signed(value as int, 0x8000_0000_0000_0000),
{
    if value < 0x8000_0000_0000_0000 {
        value as i64
    } else {
        (value as i128 - 0x1_0000_0000_0000_0000) as i64
    }
}

impl<'class> ClassBuffer<'class> {
    /// A cursor over all of `data`.
    pub fn new(data: &'class [u8]) -> (r: Self)
        ensures
            r@ == data@,
    {
        ClassBuffer { data }
    }

    /// The bytes under the cursor.
    pub fn as_bytes(&self) -> (r: &'class [u8])
        ensures
            r@ == self@,
    {
        self.data
    }

    pub fn len(&self) -> (n: usize)
        ensures
            self@.len() <= usize::MAX,
            n == self@.len(),
    {
        self.data.len()
    }

    pub fn is_empty(&self) -> (r: bool)
        ensures
            r == (self@.len() == 0),
    {
        self.len() == 0
    }

    /// The offset `by` bytes behind `offset`, as far as the machine's word
    /// goes. A read there gives what a read at the true offset would give.
    pub fn advance(&self, offset: usize, by: usize) -> (r: usize)
        ensures
            r == spec_advance(offset as int, by as int),
            self@.len() <= usize::MAX,
    {
        let total: usize = self.data.len();
        advance(offset, by)
    }

    /// The error of a read of `len` bytes at `index` that leaves the buffer.
    fn fail(&self, index: usize, len: usize) -> (e: ClassFileError)
        ensures
            e == out_of_bounds(self@.len() as int, index as int, len as int),
    {
        let last: usize = match index.checked_add(len) {
            None => usize::MAX,
            Some(end) => if end == 0 {
                0
            } else {
                end - 1
            },
        };
        ClassFileError::OutOfBounds { index: last, len: self.data.len() }
    }

    /// Whether `len` bytes starting at `index` lie inside the buffer.
    fn has(&self, index: usize, len: usize) -> (r: bool)
        ensures
            r == in_bounds(self@.len() as int, index as int, len as int),
            self@.len() <= usize::MAX,
    {
        index <= self.data.len() && len <= self.data.len() - index
    }

    pub fn read_u8(&self, index: usize) -> (r: ClassFileResult<u8>)
        ensures
            self@.len() <= usize::MAX,
            r == spec_read_u8(self@, index as int),
    {
        if !self.has(index, 1) {
            return Err(self.fail(index, 1));
        }
        Ok(self.data[index])
    }

    pub fn read_u16(&self, index: usize) -> (r: ClassFileResult<u16>)
        ensures
            self@.len() <= usize::MAX,
            r == spec_read_u16(self@, index as int),
    {
        if !self.has(index, 2) {
            return Err(self.fail(index, 2));
        }
        let hi: u16 = self.data[index] as u16;
        let lo: u16 = self.data[index + 1] as u16;
        Ok(hi * 0x100 + lo)
    }

    pub fn read_u32(&self, index: usize) -> (r: ClassFileResult<u32>)
        ensures
            self@.len() <= usize::MAX,
            r == spec_read_u32(self@, index as int),
    {
        if !self.has(index, 4) {
            return Err(self.fail(index, 4));
        }
        let b0: u32 = self.data[index] as u32;
        let b1: u32 = self.data[index + 1] as u32;
        let b2: u32 = self.data[index + 2] as u32;
        let b3: u32 = self.data[index + 3] as u32;
        Ok((b0 * 0x100 + b1) * 0x1_0000 + (b2 * 0x100 + b3))
    }

    pub fn read_u64(&self, index: usize) -> (r: ClassFileResult<u64>)
        ensures
            self@.len() <= usize::MAX,
            r == spec_read_u64(self@, index as int),
    {
        if !self.has(index, 8) {
            return Err(self.fail(index, 8));
        }
        let b0: u64 = self.data[index] as u64;
        let b1: u64 = self.data[index + 1] as u64;
        let b2: u64 = self.data[index + 2] as u64;
        let b3: u64 = self.data[index + 3] as u64;
        let b4: u64 = self.data[index + 4] as u64;
        let b5: u64 = self.data[index + 5] as u64;
        let b6: u64 = self.data[index + 6] as u64;
        let b7: u64 = self.data[index + 7] as u64;
        let hi: u64 = (b0 * 0x100 + b1) * 0x1_0000 + (b2 * 0x100 + b3);
        let lo: u64 = (b4 * 0x100 + b5) * 0x1_0000 + (b6 * 0x100 + b7);
        Ok(hi * 0x1_0000_0000 + lo)
    }

    pub fn read_i8(&self, index: usize) -> (r: ClassFileResult<i8>)
        ensures
            self@.len() <= usize::MAX,
            r == read_at(self@, index as int, 1, signed(self@[index as int] as int, 0x80) as i8),
    {
        match self.read_u8(index) {
            Ok(u) => Ok(to_i8(u)),
            Err(e) => Err(e),
        }
    }

    pub fn read_i16(&self, index: usize) -> (r: ClassFileResult<i16>)
        ensures
            self@.len() <= usize::MAX,
            r == read_at(self@, index as int, 2, signed(be_u16(self@, index as int), 0x8000) as i16),
    {
        match self.read_u16(index) {
            Ok(u) => Ok(to_i16(u)),
            Err(e) => Err(e),
        }
    }

    pub fn read_i32(&self, index: usize) -> (r: ClassFileResult<i32>)
        ensures
            self@.len() <= usize::MAX,
            r == spec_read_i32(self@, index as int),
    {
        match self.read_u32(index) {
            Ok(u) => Ok(to_i32(u)),
            Err(e) => Err(e),
        }
    }

    pub fn read_i64(&self, index: usize) -> (r: ClassFileResult<i64>)
        ensures
            self@.len() <= usize::MAX,
            r == spec_read_i64(self@, index as int),
    {
        match self.read_u64(index) {
            Ok(u) => Ok(to_i64(u)),
            Err(e) => Err(e),
        }
    }

    /// The bits of the IEEE-754 single that starts at `index`.
    pub fn read_f32(&self, index: usize) -> (r: ClassFileResult<u32>)
        ensures
            self@.len() <= usize::MAX,
            r == spec_read_u32(self@, index as int),
    {
        self.read_u32(index)
    }

    /// The bits of the IEEE-754 double that starts at `index`.
    pub fn read_f64(&self, index: usize) -> (r: ClassFileResult<u64>)
        ensures
            self@.len() <= usize::MAX,
            r == spec_read_u64(self@, index as int),
    {
        self.read_u64(index)
    }

    /// The `len` bytes that start at `index`.
    pub fn read_bytes(&self, index: usize, len: usize) -> (r: ClassFileResult<&'class [u8]>)
        ensures
            self@.len() <= usize::MAX,
            r is Ok <==> in_bounds(self@.len() as int, index as int, len as int),
            r is Ok ==> r->Ok_0@ == self@.subrange(index as int, index + len),
            r is Err ==> r->Err_0 == out_of_bounds(self@.len() as int, index as int, len as int),
    {
        if !self.has(index, len) {
            return Err(self.fail(index, len));
        }
        let total: usize = self.data.len();
        let end: usize = index + len;
        Ok(&self.data[index..end])
    }

    /// The part of the buffer from `start` up to, not including, `end`. The
    /// error of a range that is not inside the buffer names the buffer's
    /// length twice.
    pub fn slice(&self, start: usize, end: usize) -> (r: ClassFileResult<ClassBuffer<'class>>)
        ensures
            self@.len() <= usize::MAX,
            r is Ok <==> start <= end <= self@.len(),
            r is Ok ==> r->Ok_0@ == self@.subrange(start as int, end as int),
            r is Err ==> r->Err_0 == (ClassFileError::OutOfBounds {
                index: self@.len() as usize,
                len: self@.len() as usize,
            }),
    {
        if start <= end && end <= self.data.len() {
            Ok(ClassBuffer { data: &self.data[start..end] })
        } else {
            Err(ClassFileError::OutOfBounds { index: self.data.len(), len: self.data.len() })
        }
    }
}

} // verus!
