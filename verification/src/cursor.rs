//! A bounds-checked, forward-only reader over an immutable byte buffer.
//!
//! Every decoder in this crate is expressed purely in terms of the cursor's
//! checked read operations; no decoder ever indexes a buffer directly. Each
//! read either returns the decoded value and advances the offset by exactly
//! the consumed width, or fails with [`CalAmpError::Eos`] without consuming
//! anything and without touching memory past the buffer's end.
//!
//! The functions `spec_read_u8`, `spec_read_u16_be` and `spec_read_bytes`
//! are the mathematical counterparts of the reads: every cursor method is
//! proved to return exactly what the corresponding specification function
//! says for the cursor's buffer and offset.

use vstd::prelude::*;

use crate::CalAmpError;

verus! {

/// A big-endian combination of two bytes: the first byte is the high one.
pub open spec fn spec_u16_be(hi: u8, lo: u8) -> u16 {
    ((hi as int) * 256 + (lo as int)) as u16
}

/// What reading one byte at offset `i` of `s` yields: the byte and the new
/// offset, or `Eos` when the buffer is too short.
pub open spec fn spec_read_u8(s: Seq<u8>, i: int) -> Result<(u8, int), CalAmpError> {
    if 0 <= i && i + 1 <= s.len() {
        Ok((s[i], i + 1))
    } else {
        Err(CalAmpError::Eos)
    }
}

/// What reading a big-endian 16-bit integer at offset `i` of `s` yields.
pub open spec fn spec_read_u16_be(s: Seq<u8>, i: int) -> Result<(u16, int), CalAmpError> {
    if 0 <= i && i + 2 <= s.len() {
        Ok((spec_u16_be(s[i], s[i + 1]), i + 2))
    } else {
        Err(CalAmpError::Eos)
    }
}

/// What reading `n` raw bytes at offset `i` of `s` yields.
pub open spec fn spec_read_bytes(s: Seq<u8>, i: int, n: int) -> Result<(Seq<u8>, int), CalAmpError> {
    if 0 <= i && 0 <= n && i + n <= s.len() {
        Ok((s.subrange(i, i + n), i + n))
    } else {
        Err(CalAmpError::Eos)
    }
}

/// A forward-only reading position inside a borrowed byte buffer.
///
/// Invariant: the offset never exceeds the buffer length, and every
/// successful read advances it by exactly the number of bytes consumed.
pub struct Cursor<'a> {
    buf: &'a [u8],
    pos: usize,
}

impl<'a> Cursor<'a> {
    /// The bytes the cursor reads from.
    pub closed spec fn bytes(&self) -> Seq<u8> {
        self.buf@
    }

    /// The current read offset.
    pub closed spec fn position(&self) -> int {
        self.pos as int
    }

    /// The cursor's invariant: the offset stays within the buffer.
    pub open spec fn wf(&self) -> bool {
        0 <= self.position() <= self.bytes().len()
    }

    /// Create a cursor at the start of `buf`.
    pub fn new(buf: &'a [u8]) -> (c: Cursor<'a>)
        ensures
            c.wf(),
            c.bytes() == buf@,
            c.position() == 0,
    {
        Cursor { buf, pos: 0 }
    }

    /// How many bytes have been consumed so far.
    pub fn offset(&self) -> (n: usize)
        ensures
            n as int == self.position(),
    {
        self.pos
    }

    /// Read one byte and advance by one.
    pub fn read_u8(&mut self) -> (r: Result<u8, CalAmpError>)
        requires
            old(self).wf(),
        ensures
            final(self).wf(),
            final(self).bytes() == old(self).bytes(),
            (match r {
                Ok(b) => spec_read_u8(old(self).bytes(), old(self).position())
                    == Ok::<(u8, int), CalAmpError>((b, final(self).position())),
                Err(e) => spec_read_u8(old(self).bytes(), old(self).position())
                    == Err::<(u8, int), CalAmpError>(e)
                    && final(self).position() == old(self).position(),
            }),
    {
        if self.pos < self.buf.len() {
            let b = self.buf[self.pos];
            self.pos = self.pos + 1;
            Ok(b)
        } else {
            Err(CalAmpError::Eos)
        }
    }

    /// Read two bytes as a big-endian 16-bit integer and advance by two.
    pub fn read_u16_be(&mut self) -> (r: Result<u16, CalAmpError>)
        requires
            old(self).wf(),
        ensures
            final(self).wf(),
            final(self).bytes() == old(self).bytes(),
            (match r {
                Ok(v) => spec_read_u16_be(old(self).bytes(), old(self).position())
                    == Ok::<(u16, int), CalAmpError>((v, final(self).position())),
                Err(e) => spec_read_u16_be(old(self).bytes(), old(self).position())
                    == Err::<(u16, int), CalAmpError>(e)
                    && final(self).position() == old(self).position(),
            }),
    {
        if 2 <= self.buf.len() - self.pos {
            let hi = self.buf[self.pos];
            let lo = self.buf[self.pos + 1];
            self.pos = self.pos + 2;
            Ok((hi as u16) * 256 + (lo as u16))
        } else {
            Err(CalAmpError::Eos)
        }
    }

    /// Read `n` raw bytes as a borrowed slice and advance by `n`.
    pub fn read_fixed_bytes(&mut self, n: usize) -> (r: Result<&'a [u8], CalAmpError>)
        requires
            old(self).wf(),
        ensures
            final(self).wf(),
            final(self).bytes() == old(self).bytes(),
            (match r {
                Ok(b) => spec_read_bytes(old(self).bytes(), old(self).position(), n as int)
                    == Ok::<(Seq<u8>, int), CalAmpError>((b@, final(self).position())),
                Err(e) => spec_read_bytes(old(self).bytes(), old(self).position(), n as int)
                    == Err::<(Seq<u8>, int), CalAmpError>(e)
                    && final(self).position() == old(self).position(),
            }),
    {
        if n <= self.buf.len() - self.pos {
            let b = vstd::slice::slice_subrange(self.buf, self.pos, self.pos + n);
            self.pos = self.pos + n;
            Ok(b)
        } else {
            Err(CalAmpError::Eos)
        }
    }

    /// Read `n` raw bytes as an owned vector and advance by `n`.
    pub fn read_vector(&mut self, n: usize) -> (r: Result<Vec<u8>, CalAmpError>)
        requires
            old(self).wf(),
        ensures
            final(self).wf(),
            final(self).bytes() == old(self).bytes(),
            (match r {
                Ok(v) => spec_read_bytes(old(self).bytes(), old(self).position(), n as int)
                    == Ok::<(Seq<u8>, int), CalAmpError>((v@, final(self).position())),
                Err(e) => spec_read_bytes(old(self).bytes(), old(self).position(), n as int)
                    == Err::<(Seq<u8>, int), CalAmpError>(e)
                    && final(self).position() == old(self).position(),
            }),
    {
        match self.read_fixed_bytes(n) {
            Ok(b) => Ok(vstd::slice::slice_to_vec(b)),
            Err(e) => Err(e),
        }
    }
}

} // verus!
