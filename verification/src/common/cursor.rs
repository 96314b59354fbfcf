use vstd::prelude::*;

use crate::common::error::AppError;

verus! {

/// Nanoseconds in a second, the factor that combines the two halves of a
/// wire timestamp.
pub const NANOS_PER_SEC: u64 = 1_000_000_000;

/// True when `n` bytes can be read at `pos` without running past the end of
/// `data`.
pub open spec fn can_read(data: Seq<u8>, pos: int, n: int) -> bool {
    0 <= pos && 0 <= n && pos + n <= data.len()
}

/// The `n` bytes of `data` starting at `pos`.
pub open spec fn bytes_at(data: Seq<u8>, pos: int, n: int) -> Seq<u8> {
    data.subrange(pos, pos + n)
}

/// The little-endian `u32` held by the four bytes of `data` at `pos`.
pub open spec fn u32_at(data: Seq<u8>, pos: int) -> u32 {
    vstd::bytes::spec_u32_from_le_bytes(bytes_at(data, pos, 4))
}

/// The nanosecond timestamp held by the eight bytes of `data` at `pos`:
/// a `u32` count of seconds followed by a `u32` count of nanoseconds.
pub open spec fn time_at(data: Seq<u8>, pos: int) -> int {
    NANOS_PER_SEC * u32_at(data, pos) + u32_at(data, pos + 4)
}

/// The declared length of the length-prefixed chunk of `data` at `pos`.
pub open spec fn chunk_len_at(data: Seq<u8>, pos: int) -> int {
    u32_at(data, pos) as int
}

/// True when the length-prefixed chunk of `data` at `pos` lies entirely
/// within `data`.
pub open spec fn can_read_chunk(data: Seq<u8>, pos: int) -> bool {
    can_read(data, pos, 4) && can_read(data, pos + 4, chunk_len_at(data, pos))
}

/// The body of the length-prefixed chunk of `data` at `pos`.
pub open spec fn chunk_at(data: Seq<u8>, pos: int) -> Seq<u8> {
    bytes_at(data, pos + 4, chunk_len_at(data, pos))
}

/// The position just past the length-prefixed chunk of `data` at `pos`.
pub open spec fn chunk_end(data: Seq<u8>, pos: int) -> int {
    pos + 4 + chunk_len_at(data, pos)
}

/// A sequential, bounds-checked reader over an immutable byte buffer.
///
/// The position only moves forward, and a failed read consumes nothing
/// beyond what had already succeeded when it failed.
pub struct Cursor<'a> {
    data: &'a [u8],
    pos: u64,
}

impl<'a> Cursor<'a> {
    /// The whole underlying buffer.
    pub closed spec fn bytes(self) -> Seq<u8> {
        self.data@
    }

    /// The current read position.
    pub closed spec fn pos(self) -> int {
        self.pos as int
    }

    /// A cursor over `data`, positioned at its start.
    pub fn new(data: &'a [u8]) -> (c: Self)
        ensures
            c.bytes() == data@,
            c.pos() == 0,
    {
        Self { data, pos: 0 }
    }

    /// The length of the underlying buffer.
    pub fn len(&self) -> (n: u64)
        ensures
            n == self.bytes().len(),
    {
        self.data.len() as u64
    }

    /// Reads the next `n` bytes, or fails with [`AppError::OutOfBounds`]
    /// when fewer than `n` bytes remain; a failed read does not move the
    /// position.
    pub fn next_bytes(&mut self, n: u64) -> (r: Result<&'a [u8], AppError>)
        ensures
            final(self).bytes() == old(self).bytes(),
            can_read(old(self).bytes(), old(self).pos(), n as int)
                ==> (r matches Ok(b)
                    && b@ == bytes_at(old(self).bytes(), old(self).pos(), n as int)
                    && final(self).pos() == old(self).pos() + n),
            !can_read(old(self).bytes(), old(self).pos(), n as int)
                ==> (r matches Err(e)
                    && e matches AppError::OutOfBounds
                    && final(self).pos() == old(self).pos()),
    {
        let len_us: usize = self.data.len();
        let len: u64 = len_us as u64;
        if n > len || self.pos > len - n {
            return Err(AppError::OutOfBounds);
        }
        assert(self.pos + n <= len_us);
        let s = self.pos as usize;
        let e = s + (n as usize);
        self.pos = self.pos + n;
        Ok(vstd::slice::slice_subrange(self.data, s, e))
    }

    /// Reads a `u32` length prefix and then that many bytes, or fails with
    /// [`AppError::OutOfBounds`]; when the prefix itself cannot be read the
    /// position does not move, and when only the body runs past the end the
    /// four prefix bytes stay consumed.
    pub fn next_chunk(&mut self) -> (r: Result<&'a [u8], AppError>)
        ensures
            final(self).bytes() == old(self).bytes(),
            can_read_chunk(old(self).bytes(), old(self).pos())
                ==> (r matches Ok(b)
                    && b@ == chunk_at(old(self).bytes(), old(self).pos())
                    && final(self).pos() == chunk_end(old(self).bytes(), old(self).pos())),
            !can_read_chunk(old(self).bytes(), old(self).pos())
                ==> (r matches Err(e) && e matches AppError::OutOfBounds),
            !can_read(old(self).bytes(), old(self).pos(), 4)
                ==> final(self).pos() == old(self).pos(),
            can_read(old(self).bytes(), old(self).pos(), 4)
                && !can_read_chunk(old(self).bytes(), old(self).pos())
                ==> final(self).pos() == old(self).pos() + 4,
    {
        let n = match self.next_u32() {
            Ok(v) => v,
            Err(e) => {
                return Err(e);
            },
        };
        match self.next_bytes(n as u64) {
            Ok(b) => Ok(b),
            Err(e) => Err(e),
        }
    }

    /// Reads the next byte, or fails with [`AppError::OutOfBounds`] without
    /// moving the position.
    pub fn next_u8(&mut self) -> (r: Result<u8, AppError>)
        ensures
            final(self).bytes() == old(self).bytes(),
            can_read(old(self).bytes(), old(self).pos(), 1)
                ==> (r matches Ok(v)
                    && v == old(self).bytes()[old(self).pos()]
                    && final(self).pos() == old(self).pos() + 1),
            !can_read(old(self).bytes(), old(self).pos(), 1)
                ==> (r matches Err(e)
                    && e matches AppError::OutOfBounds
                    && final(self).pos() == old(self).pos()),
    {
        match self.next_bytes(1) {
            Ok(b) => Ok(b[0]),
            Err(e) => Err(e),
        }
    }

    /// Reads the next four bytes as a little-endian `u32`, or fails with
    /// [`AppError::OutOfBounds`] without moving the position.
    pub fn next_u32(&mut self) -> (r: Result<u32, AppError>)
        ensures
            final(self).bytes() == old(self).bytes(),
            can_read(old(self).bytes(), old(self).pos(), 4)
                ==> (r matches Ok(v)
                    && v == u32_at(old(self).bytes(), old(self).pos())
                    && final(self).pos() == old(self).pos() + 4),
            !can_read(old(self).bytes(), old(self).pos(), 4)
                ==> (r matches Err(e)
                    && e matches AppError::OutOfBounds
                    && final(self).pos() == old(self).pos()),
    {
        match self.next_bytes(4) {
            Ok(b) => Ok(vstd::bytes::u32_from_le_bytes(b)),
            Err(e) => Err(e),
        }
    }

    /// Reads two `u32` fields (seconds, then nanoseconds) and combines them
    /// into a single nanosecond timestamp, or fails with
    /// [`AppError::OutOfBounds`]; when the second field runs past the end
    /// the first four bytes stay consumed.
    pub fn next_time(&mut self) -> (r: Result<u64, AppError>)
        ensures
            final(self).bytes() == old(self).bytes(),
            can_read(old(self).bytes(), old(self).pos(), 8)
                ==> (r matches Ok(v)
                    && v == time_at(old(self).bytes(), old(self).pos())
                    && final(self).pos() == old(self).pos() + 8),
            !can_read(old(self).bytes(), old(self).pos(), 8)
                ==> (r matches Err(e) && e matches AppError::OutOfBounds),
            !can_read(old(self).bytes(), old(self).pos(), 4)
                ==> final(self).pos() == old(self).pos(),
            can_read(old(self).bytes(), old(self).pos(), 4)
                && !can_read(old(self).bytes(), old(self).pos(), 8)
                ==> final(self).pos() == old(self).pos() + 4,
    {
        let s = match self.next_u32() {
            Ok(v) => v,
            Err(e) => {
                return Err(e);
            },
        };
        let ns = match self.next_u32() {
            Ok(v) => v,
            Err(e) => {
                return Err(e);
            },
        };
        Ok(NANOS_PER_SEC * (s as u64) + (ns as u64))
    }
}

} // verus!
