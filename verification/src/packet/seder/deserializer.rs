//! A bounds-checked reader over a borrowed byte buffer.

use vstd::prelude::*;
use vstd::slice::slice_subrange;
use crate::packet::seder::big_endian::{be_fold, be_value, lemma_be_value_bound, lemma_pow256_values};

verus! {

/// Why a read from a [`Deserialize`] failed.
#[derive(Debug, PartialEq, Eq, Clone, Copy, Structural)]
pub enum DeserializeError {
    /// That many bytes were asked for and the buffer does not hold them.
    TooMuchDataRequested(u16),
    /// The position is at or behind the end of the buffer.
    ReaderIsPastTheDataBuffer,
}

pub type DeserializeResult<T> = Result<T, DeserializeError>;

/// The `count` bytes of `buffer` from `position` on, where `position` lies
/// inside the buffer and that many bytes follow it.
pub open spec fn bytes_at(buffer: Seq<u8>, position: nat, count: nat) -> Option<Seq<u8>> {
    if position < buffer.len() && position + count <= buffer.len() {
        Some(buffer.subrange(position as int, (position + count) as int))
    } else {
        None
    }
}

/// The big-endian number in the `width` bytes of `buffer` from `position` on.
pub open spec fn number_at(buffer: Seq<u8>, position: nat, width: nat) -> Option<nat> {
    match bytes_at(buffer, position, width) {
        Some(bytes) => Some(be_value(bytes)),
        None => None,
    }
}

/// A position in a byte buffer that the reader borrows and never changes.
///
/// Several readers may share one buffer, each with a position of its own.
#[derive(Debug, Clone, Copy)]
pub struct Deserialize<'a> {
    bin_data: &'a [u8],
    cursor: usize,
}

impl<'a> Deserialize<'a> {
    /// The bytes of the buffer.
    pub closed spec fn buffer(&self) -> Seq<u8> {
        self.bin_data@
    }

    /// The offset of the next byte to read.
    pub closed spec fn position(&self) -> nat {
        self.cursor as nat
    }

    /// The position lies within the buffer or at its end.
    pub open spec fn wf(&self) -> bool {
        self.position() <= self.buffer().len()
    }

    /// A reader at the start of `bin_data`.
    pub fn new(bin_data: &'a [u8]) -> (reader: Deserialize<'a>)
        ensures
            reader.buffer() == bin_data@,
            reader.position() == 0,
            reader.wf(),
    {
        Deserialize { bin_data, cursor: 0 }
    }

    fn buf_len(&self) -> (len: usize)
        ensures
            len == self.buffer().len(),
    {
        self.bin_data.len()
    }

    /// Reads the next `n` bytes, or fails and stays where it is.
    pub fn read_n_bytes(&mut self, n: u16) -> (result: DeserializeResult<&'a [u8]>)
        ensures
            final(self).buffer() == old(self).buffer(),
            old(self).wf() ==> final(self).wf(),
            match result {
                Ok(bytes) => bytes_at(old(self).buffer(), old(self).position(), n as nat) == Some(
                    bytes@,
                ) && final(self).position() == old(self).position() + n,
                Err(e) => bytes_at(old(self).buffer(), old(self).position(), n as nat) is None && e
                    == DeserializeError::TooMuchDataRequested(n) && final(self).position() == old(
                    self,
                ).position(),
            },
    {
        let buf_len = self.buf_len();
        if self.cursor >= buf_len || n as usize > buf_len - self.cursor {
            return Err(DeserializeError::TooMuchDataRequested(n));
        }
        let data = slice_subrange(self.bin_data, self.cursor, self.cursor + n as usize);
        self.cursor += n as usize;
        Ok(data)
    }

    /// Reads one byte.
    pub fn read_u8(&mut self) -> (result: DeserializeResult<u8>)
        ensures
            final(self).buffer() == old(self).buffer(),
            old(self).wf() ==> final(self).wf(),
            match result {
                Ok(value) => old(self).position() < old(self).buffer().len() && value == old(
                    self,
                ).buffer()[old(self).position() as int] && final(self).position() == old(
                    self,
                ).position() + 1,
                Err(e) => old(self).position() >= old(self).buffer().len() && e
                    == DeserializeError::TooMuchDataRequested(1) && final(self).position() == old(
                    self,
                ).position(),
            },
    {
        match self.read_n_bytes(1) {
            Ok(bytes) => Ok(bytes[0]),
            Err(e) => Err(e),
        }
    }

    /// Reads a big-endian 16-bit number.
    pub fn read_u16(&mut self) -> (result: DeserializeResult<u16>)
        ensures
            final(self).buffer() == old(self).buffer(),
            old(self).wf() ==> final(self).wf(),
            match result {
                Ok(value) => number_at(old(self).buffer(), old(self).position(), 2) == Some(
                    value as nat,
                ) && final(self).position() == old(self).position() + 2,
                Err(e) => number_at(old(self).buffer(), old(self).position(), 2) is None && e
                    == DeserializeError::TooMuchDataRequested(2) && final(self).position() == old(
                    self,
                ).position(),
            },
    {
        match self.read_n_bytes(2) {
            Ok(bytes) => {
                let value = be_fold(bytes);
                proof {
                    lemma_be_value_bound(bytes@);
                    lemma_pow256_values();
                }
                Ok(value as u16)
            },
            Err(e) => Err(e),
        }
    }

    /// Reads a big-endian 32-bit number.
    pub fn read_u32(&mut self) -> (result: DeserializeResult<u32>)
        ensures
            final(self).buffer() == old(self).buffer(),
            old(self).wf() ==> final(self).wf(),
            match result {
                Ok(value) => number_at(old(self).buffer(), old(self).position(), 4) == Some(
                    value as nat,
                ) && final(self).position() == old(self).position() + 4,
                Err(e) => number_at(old(self).buffer(), old(self).position(), 4) is None && e
                    == DeserializeError::TooMuchDataRequested(4) && final(self).position() == old(
                    self,
                ).position(),
            },
    {
        match self.read_n_bytes(4) {
            Ok(bytes) => {
                let value = be_fold(bytes);
                proof {
                    lemma_be_value_bound(bytes@);
                    lemma_pow256_values();
                }
                Ok(value as u32)
            },
            Err(e) => Err(e),
        }
    }

    /// Reads a big-endian 128-bit number.
    pub fn read_u128(&mut self) -> (result: DeserializeResult<u128>)
        ensures
            final(self).buffer() == old(self).buffer(),
            old(self).wf() ==> final(self).wf(),
            match result {
                Ok(value) => number_at(old(self).buffer(), old(self).position(), 16) == Some(
                    value as nat,
                ) && final(self).position() == old(self).position() + 16,
                Err(e) => number_at(old(self).buffer(), old(self).position(), 16) is None && e
                    == DeserializeError::TooMuchDataRequested(16) && final(self).position() == old(
                    self,
                ).position(),
            },
    {
        match self.read_n_bytes(16) {
            Ok(bytes) => Ok(be_fold(bytes)),
            Err(e) => Err(e),
        }
    }

    /// The byte at the position, which stays where it is.
    pub fn peek(&self) -> (result: DeserializeResult<u8>)
        ensures
            match result {
                Ok(value) => self.position() < self.buffer().len() && value
                    == self.buffer()[self.position() as int],
                Err(e) => self.position() >= self.buffer().len() && e
                    == DeserializeError::ReaderIsPastTheDataBuffer,
            },
    {
        if self.cursor >= self.bin_data.len() {
            return Err(DeserializeError::ReaderIsPastTheDataBuffer);
        }
        Ok(self.bin_data[self.cursor])
    }

    /// A second reader over the same buffer, at offset `cursor`.
    pub fn cheap_clone(&self, cursor: u16) -> (reader: Deserialize<'a>)
        ensures
            reader.buffer() == self.buffer(),
            reader.position() == cursor,
    {
        Deserialize { bin_data: self.bin_data, cursor: cursor as usize }
    }

    /// The offset of the next byte to read.
    pub fn cursor(&self) -> (cursor: usize)
        ensures
            cursor == self.position(),
    {
        self.cursor
    }
}

} // verus!
