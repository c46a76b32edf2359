//! A forward-only reader over a byte buffer.

use vstd::prelude::*;
use vstd::slice::slice_subrange;
use crate::errors::{ErrorKind, MalformedFileError};

verus! {

/// The value of four bytes read as a big-endian unsigned integer.
pub open spec fn be_u32(bytes: Seq<u8>) -> int
    recommends
        bytes.len() == 4,
{
    bytes[0] * 0x100_0000 + bytes[1] * 0x1_0000 + bytes[2] * 0x100 + bytes[3]
}

/// A byte buffer and a read position in it. Reads consume bytes from the position on and
/// move it forward; nothing moves it back.
pub struct ByteCursor<'a> {
    data: &'a [u8],
    pos: usize,
}

impl<'a> ByteCursor<'a> {
    #[verifier::type_invariant]
    spec fn in_bounds(self) -> bool {
        self.pos <= self.data@.len()
    }

    /// The whole buffer, read or not.
    pub closed spec fn buffer(&self) -> Seq<u8> {
        self.data@
    }

    /// How many bytes have been consumed.
    pub closed spec fn position(&self) -> nat {
        self.pos as nat
    }

    /// The bytes not yet consumed.
    pub open spec fn remaining(&self) -> Seq<u8> {
        self.buffer().skip(self.position() as int)
    }

    /// `next` is this cursor after `n` more bytes were consumed.
    pub open spec fn advanced_by(&self, n: nat, next: &Self) -> bool {
        &&& next.buffer() == self.buffer()
        &&& next.position() == self.position() + n
        &&& n <= self.remaining().len()
        &&& next.remaining() == self.remaining().skip(n as int)
    }

    /// A cursor at the start of `data`.
    pub fn new(data: &'a [u8]) -> (cursor: Self)
        ensures
            cursor.buffer() == data@,
            cursor.position() == 0,
            cursor.remaining() == data@,
    {
        ByteCursor { data, pos: 0 }
    }

    /// The number of bytes not yet consumed.
    pub fn remaining_len(&self) -> (n: usize)
        ensures
            n == self.remaining().len(),
            self.position() + n == self.buffer().len(),
    {
        proof {
            use_type_invariant(self);
        }
        self.data.len() - self.pos
    }

    /// The next byte.
    pub fn read_u8(&mut self) -> (r: Result<u8, MalformedFileError>)
        ensures
            match r {
                Ok(byte) => old(self).advanced_by(1, final(self)) && byte == old(
                    self,
                ).remaining()[0],
                Err(e) => e@ == ErrorKind::TruncatedInput && old(self).remaining().len() == 0
                    && *final(self) == *old(self),
            },
    {
        proof {
            use_type_invariant(&*self);
        }
        if self.pos < self.data.len() {
            let byte = self.data[self.pos];
            self.pos += 1;
            assert(self.remaining() =~= old(self).remaining().skip(1));
            Ok(byte)
        } else {
            Err(MalformedFileError::new(ErrorKind::TruncatedInput))
        }
    }

    /// The next four bytes as a big-endian unsigned integer.
    pub fn read_u32_be(&mut self) -> (r: Result<u32, MalformedFileError>)
        ensures
            match r {
                Ok(value) => old(self).advanced_by(4, final(self)) && value == be_u32(
                    old(self).remaining().take(4),
                ),
                Err(e) => e@ == ErrorKind::TruncatedInput && old(self).remaining().len() < 4
                    && *final(self) == *old(self),
            },
    {
        proof {
            use_type_invariant(&*self);
        }
        if self.data.len() - self.pos < 4 {
            return Err(MalformedFileError::new(ErrorKind::TruncatedInput));
        }
        let b0: u32 = self.data[self.pos] as u32;
        let b1: u32 = self.data[self.pos + 1] as u32;
        let b2: u32 = self.data[self.pos + 2] as u32;
        let b3: u32 = self.data[self.pos + 3] as u32;
        self.pos += 4;
        assert(self.remaining() =~= old(self).remaining().skip(4));
        Ok(b0 * 0x100_0000 + b1 * 0x1_0000 + b2 * 0x100 + b3)
    }

    /// The next `n` bytes.
    pub fn read_n(&mut self, n: usize) -> (r: Result<&'a [u8], MalformedFileError>)
        ensures
            match r {
                Ok(bytes) => old(self).advanced_by(n as nat, final(self)) && bytes@ == old(
                    self,
                ).remaining().take(n as int),
                Err(e) => e@ == ErrorKind::TruncatedInput && old(self).remaining().len() < n
                    && *final(self) == *old(self),
            },
    {
        proof {
            use_type_invariant(&*self);
        }
        if self.data.len() - self.pos < n {
            return Err(MalformedFileError::new(ErrorKind::TruncatedInput));
        }
        let bytes = slice_subrange(self.data, self.pos, self.pos + n);
        self.pos += n;
        assert(self.remaining() =~= old(self).remaining().skip(n as int));
        Ok(bytes)
    }
}

} // verus!
