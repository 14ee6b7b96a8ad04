//! A sequential, bounds-checked reader over an owned byte buffer.
//!
//! The containers this crate decodes are little-endian and tightly packed.
//! A record type says how many bytes it takes and how those bytes spell a
//! value ([`Record`]); the reader hands out records one after another and
//! refuses any read that would leave the buffer.

use vstd::prelude::*;

verus! {

/// Why a read from a [`BufferReader`] failed.
#[derive(Debug, Clone, Copy, PartialEq, Eq, Structural)]
pub enum ReadError {
    /// The read would have gone past the end of the buffer.
    BufferOverrun,
}

/// The unsigned 32-bit number that the four bytes from `at` on spell,
/// least significant byte first.
pub open spec fn le_u32(bytes: Seq<u8>, at: int) -> u32 {
    (bytes[at] as int + 0x100 * (bytes[at + 1] as int) + 0x1_0000 * (bytes[at + 2] as int)
        + 0x100_0000 * (bytes[at + 3] as int)) as u32
}

/// Whether `bytes` starts with `prefix`.
pub open spec fn starts_with(bytes: Seq<u8>, prefix: Seq<u8>) -> bool {
    bytes.len() >= prefix.len() && bytes.subrange(0, prefix.len() as int) == prefix
}

/// Reads the little-endian `u32` at offset `at` of `bytes`.
pub fn read_le_u32(bytes: &[u8], at: usize) -> (v: u32)
    requires
        at + 4 <= bytes@.len(),
    ensures
        v == le_u32(bytes@, at as int),
{
    let b0: u32 = bytes[at] as u32;
    let b1: u32 = bytes[at + 1] as u32;
    let b2: u32 = bytes[at + 2] as u32;
    let b3: u32 = bytes[at + 3] as u32;
    b0 + 0x100 * b1 + 0x1_0000 * b2 + 0x100_0000 * b3
}

/// A fixed-layout record: a value that a fixed number of bytes spell.
pub trait Record: Sized {
    /// The number of bytes one record takes.
    spec fn spec_size() -> nat;

    /// The record that `bytes` spell; `bytes` holds exactly one record.
    spec fn spec_decode(bytes: Seq<u8>) -> Self;

    /// The number of bytes one record takes.
    fn size() -> (n: usize)
        ensures
            n == Self::spec_size(),
    ;

    /// Decodes the record that `bytes` spell.
    fn decode(bytes: &[u8]) -> (r: Self)
        requires
            bytes@.len() == Self::spec_size(),
        ensures
            r == Self::spec_decode(bytes@),
    ;
}

impl Record for u8 {
    open spec fn spec_size() -> nat {
        1
    }

    open spec fn spec_decode(bytes: Seq<u8>) -> u8 {
        bytes[0]
    }

    fn size() -> (n: usize) {
        1
    }

    fn decode(bytes: &[u8]) -> (r: u8) {
        bytes[0]
    }
}

impl Record for u32 {
    open spec fn spec_size() -> nat {
        4
    }

    open spec fn spec_decode(bytes: Seq<u8>) -> u32 {
        le_u32(bytes, 0)
    }

    fn size() -> (n: usize) {
        4
    }

    fn decode(bytes: &[u8]) -> (r: u32) {
        read_le_u32(bytes, 0)
    }
}

/// The record of type `T` that starts at byte `start` of `bytes`.
pub open spec fn record_at<T: Record>(bytes: Seq<u8>, start: int) -> T {
    T::spec_decode(bytes.subrange(start, start + T::spec_size()))
}

/// The `count` consecutive records of type `T` that start at byte `start`.
pub open spec fn records_at<T: Record>(bytes: Seq<u8>, start: int, count: nat) -> Seq<T> {
    Seq::new(count, |i: int| record_at::<T>(bytes, start + i * T::spec_size()))
}

/// A record that lies within the first `k` bytes of a file is the same
/// record in the file cut off after `k` bytes.
pub proof fn lemma_record_in_prefix<T: Record>(bytes: Seq<u8>, k: int, at: int)
    requires
        0 <= at,
        at + T::spec_size() <= k <= bytes.len(),
    ensures
        record_at::<T>(bytes.subrange(0, k), at) == record_at::<T>(bytes, at),
{
    assert(bytes.subrange(0, k).subrange(at, at + T::spec_size()) =~= bytes.subrange(
        at,
        at + T::spec_size(),
    ));
}

/// Records that lie within the first `k` bytes of a file are the same
/// records in the file cut off after `k` bytes.
pub proof fn lemma_records_in_prefix<T: Record>(bytes: Seq<u8>, k: int, at: int, count: nat)
    requires
        0 <= at,
        at + count * T::spec_size() <= k <= bytes.len(),
    ensures
        records_at::<T>(bytes.subrange(0, k), at, count) == records_at::<T>(bytes, at, count),
{
    let size = T::spec_size() as int;
    assert forall|i: int| 0 <= i < count implies (#[trigger] records_at::<T>(
        bytes.subrange(0, k),
        at,
        count,
    )[i]) == records_at::<T>(bytes, at, count)[i] by {
        assert(0 <= i * size && (i + 1) * size <= count * size && (i + 1) * size == i * size
            + size) by (nonlinear_arith)
            requires
                0 <= i,
                i + 1 <= count,
                0 <= size,
        ;
        lemma_record_in_prefix::<T>(bytes, k, at + i * size);
    }
    assert(records_at::<T>(bytes.subrange(0, k), at, count) =~= records_at::<T>(bytes, at, count));
}

/// Reads from an owned byte vector, front to back.
///
/// The reader never moves past the end of its buffer: a read that does not
/// fit fails and leaves the position where it was.
#[derive(Debug)]
pub struct BufferReader {
    buf: Vec<u8>,
    pos: usize,
}

impl BufferReader {
    #[verifier::type_invariant]
    spec fn in_bounds(self) -> bool {
        self.pos <= self.buf@.len()
    }

    /// The bytes of the buffer, all of them, whatever has been read.
    pub closed spec fn bytes(self) -> Seq<u8> {
        self.buf@
    }

    /// How many bytes have been read so far.
    pub closed spec fn position(self) -> nat {
        self.pos as nat
    }

    /// A reader at the start of `buf`.
    pub fn new(buf: Vec<u8>) -> (r: BufferReader)
        ensures
            r.bytes() == buf@,
            r.position() == 0,
    {
        BufferReader { buf, pos: 0 }
    }

    /// Gives the buffer back.
    pub fn into_inner(self) -> (buf: Vec<u8>)
        ensures
            buf@ == self.bytes(),
    {
        self.buf
    }

    /// The buffer's length in bytes.
    pub fn len(&self) -> (n: usize)
        ensures
            n == self.bytes().len(),
    {
        self.buf.len()
    }

    /// The number of bytes read from the buffer.
    pub fn bytes_read(&self) -> (n: usize)
        ensures
            n == self.position(),
            n <= self.bytes().len(),
    {
        proof {
            use_type_invariant(self);
        }
        self.pos
    }

    /// Skips the given number of bytes.
    ///
    /// Fails, without moving, when fewer than `bytes` bytes are left.
    pub fn skip_bytes(&mut self, bytes: usize) -> (r: Result<(), ReadError>)
        ensures
            final(self).bytes() == old(self).bytes(),
            r is Ok <==> old(self).position() + bytes <= old(self).bytes().len(),
            r is Ok ==> final(self).position() == old(self).position() + bytes,
            r is Err ==> final(self).position() == old(self).position(),
    {
        proof {
            use_type_invariant(&*self);
        }
        if bytes > self.buf.len() - self.pos {
            return Err(ReadError::BufferOverrun);
        }
        self.pos = self.pos + bytes;
        Ok(())
    }

    /// Pops one record of type `T`.
    ///
    /// Fails, without moving, when fewer bytes are left than one record
    /// takes.
    pub fn pop_value<T: Record>(&mut self) -> (r: Result<T, ReadError>)
        ensures
            final(self).bytes() == old(self).bytes(),
            r is Ok <==> old(self).position() + T::spec_size() <= old(self).bytes().len(),
            r matches Ok(v) ==> {
                &&& v == record_at::<T>(old(self).bytes(), old(self).position() as int)
                &&& final(self).position() == old(self).position() + T::spec_size()
            },
            r is Err ==> final(self).position() == old(self).position(),
    {
        proof {
            use_type_invariant(&*self);
        }
        let size = T::size();
        if size > self.buf.len() - self.pos {
            return Err(ReadError::BufferOverrun);
        }
        let end = self.pos + size;
        let value = T::decode(vstd::slice::slice_subrange(self.buf.as_slice(), self.pos, end));
        self.pos = end;
        Ok(value)
    }

    /// Pops `size` consecutive records of type `T`.
    ///
    /// Fails, without moving, when fewer bytes are left than `size` records
    /// take.
    pub fn pop_slice<T: Record>(&mut self, size: usize) -> (r: Result<Vec<T>, ReadError>)
        ensures
            final(self).bytes() == old(self).bytes(),
            r is Ok <==> old(self).position() + size * T::spec_size() <= old(self).bytes().len(),
            r matches Ok(v) ==> {
                &&& v@ == records_at::<T>(
                    old(self).bytes(),
                    old(self).position() as int,
                    size as nat,
                )
                &&& final(self).position() == old(self).position() + size * T::spec_size()
            },
            r is Err ==> final(self).position() == old(self).position(),
    {
        proof {
            use_type_invariant(&*self);
        }
        let each = T::size();
        let left = self.buf.len() - self.pos;
        let fits = match size.checked_mul(each) {
            Some(total) => total <= left,
            None => false,
        };
        if !fits {
            return Err(ReadError::BufferOverrun);
        }
        let start = self.pos;
        let mut out: Vec<T> = Vec::new();
        let mut at: usize = start;
        let mut i: usize = 0;
        while i < size
            invariant
                i <= size,
                each == T::spec_size(),
                start + size * each <= self.buf@.len() <= usize::MAX,
                at == start + i * each,
                out@ == records_at::<T>(self.buf@, start as int, i as nat),
            decreases size - i,
        {
            proof {
                assert((i + 1) * each == i * each + each) by (nonlinear_arith);
                assert((i + 1) * each <= size * each) by (nonlinear_arith)
                    requires
                        i + 1 <= size,
                        each >= 0,
                ;
            }
            let end = at + each;
            let value = T::decode(vstd::slice::slice_subrange(self.buf.as_slice(), at, end));
            out.push(value);
            proof {
                assert(out@ =~= records_at::<T>(self.buf@, start as int, (i + 1) as nat));
            }
            at = end;
            i = i + 1;
        }
        self.pos = at;
        Ok(out)
    }

    /// Returns the bytes from `start` up to `end` of the buffer, wherever
    /// the reader stands, and does not move.
    ///
    /// Fails unless `start <= end` and `end` is within the buffer.
    pub fn peek_slice(&self, start: usize, end: usize) -> (r: Result<&[u8], ReadError>)
        ensures
            r is Ok <==> start <= end <= self.bytes().len(),
            r matches Ok(s) ==> s@ == self.bytes().subrange(start as int, end as int),
    {
        if start > end || end > self.buf.len() {
            return Err(ReadError::BufferOverrun);
        }
        Ok(vstd::slice::slice_subrange(self.buf.as_slice(), start, end))
    }
}

} // verus!
