//! A bounds-checked reader that owns its buffer and says, when a read
//! fails, how much data was left.

use vstd::prelude::*;
use vstd::slice::slice_subrange;
use crate::packet::seder::big_endian::{be_fold, lemma_be_value_bound, lemma_pow256_values};
use crate::packet::seder::deserializer::number_at;

verus! {

/// Why a read from a [`Decoder`] failed.
#[derive(Debug, PartialEq, Eq, Clone, Copy, Structural)]
pub enum ParserError {
    /// More bytes were asked for than the buffer holds behind the position.
    TooMuchDataRequested { data_requested: usize, remaining_data: usize },
}

pub type ParserResult<T> = Result<T, ParserError>;

/// A byte buffer and a position in it, which never lies behind its end.
pub struct Decoder {
    binary_data: Vec<u8>,
    cursor: usize,
}

impl Decoder {
    #[verifier::type_invariant]
    spec fn within_buffer(self) -> bool {
        self.cursor <= self.binary_data@.len()
    }

    /// The bytes of the buffer.
    pub closed spec fn buffer(&self) -> Seq<u8> {
        self.binary_data@
    }

    /// The offset of the next byte to read.
    pub closed spec fn position(&self) -> nat {
        self.cursor as nat
    }

    /// A reader at the start of `binary_data`.
    pub fn new(binary_data: Vec<u8>) -> (decoder: Decoder)
        ensures
            decoder.buffer() == binary_data@,
            decoder.position() == 0,
    {
        Decoder { binary_data, cursor: 0 }
    }

    fn buf_len(&self) -> (len: usize)
        ensures
            len == self.buffer().len(),
    {
        self.binary_data.len()
    }

    /// Reads the next `n` bytes, or fails and stays where it is.
    pub fn read_n_bytes(&mut self, n: usize) -> (result: ParserResult<&[u8]>)
        ensures
            final(self).buffer() == old(self).buffer(),
            match result {
                Ok(bytes) => old(self).position() < old(self).buffer().len() && old(
                    self,
                ).position() + n <= old(self).buffer().len() && bytes@ == old(
                    self,
                ).buffer().subrange(
                    old(self).position() as int,
                    old(self).position() + n,
                ) && final(self).position() == old(self).position() + n,
                Err(e) => !(old(self).position() < old(self).buffer().len() && old(
                    self,
                ).position() + n <= old(self).buffer().len()) && e
                    == (ParserError::TooMuchDataRequested {
                    data_requested: n,
                    remaining_data: (old(self).buffer().len() - old(self).position()) as usize,
                }) && final(self).position() == old(self).position(),
            },
    {
        proof {
            use_type_invariant(&*self);
        }
        let buf_len = self.buf_len();
        if self.cursor >= buf_len || n > buf_len - self.cursor {
            return Err(
                ParserError::TooMuchDataRequested {
                    data_requested: n,
                    remaining_data: buf_len - self.cursor,
                },
            );
        }
        let start = self.cursor;
        self.cursor = start + n;
        Ok(slice_subrange(self.binary_data.as_slice(), start, start + n))
    }

    /// Reads one byte.
    pub fn read_u8(&mut self) -> (result: ParserResult<u8>)
        ensures
            final(self).buffer() == old(self).buffer(),
            match result {
                Ok(value) => number_at(old(self).buffer(), old(self).position(), 1) == Some(
                    value as nat,
                ) && final(self).position() == old(self).position() + 1,
                Err(e) => number_at(old(self).buffer(), old(self).position(), 1) is None && e
                    == (ParserError::TooMuchDataRequested {
                    data_requested: 1,
                    remaining_data: (old(self).buffer().len() - old(self).position()) as usize,
                }) && final(self).position() == old(self).position(),
            },
    {
        match self.read_n_bytes(1) {
            Ok(bytes) => {
                let value = be_fold(bytes);
                proof {
                    lemma_be_value_bound(bytes@);
                    lemma_pow256_values();
                }
                Ok(value as u8)
            },
            Err(e) => Err(e),
        }
    }

    /// Reads a big-endian 16-bit number.
    pub fn read_u16(&mut self) -> (result: ParserResult<u16>)
        ensures
            final(self).buffer() == old(self).buffer(),
            match result {
                Ok(value) => number_at(old(self).buffer(), old(self).position(), 2) == Some(
                    value as nat,
                ) && final(self).position() == old(self).position() + 2,
                Err(e) => number_at(old(self).buffer(), old(self).position(), 2) is None && e
                    == (ParserError::TooMuchDataRequested {
                    data_requested: 2,
                    remaining_data: (old(self).buffer().len() - old(self).position()) as usize,
                }) && final(self).position() == old(self).position(),
            },
    {
        match self.read_n_bytes(2) {
            Ok(bytes) => {
                let value = be_fold(bytes);
                proof {
                    lemma_be_value_bound(bytes@);
                    lemma_pow256_values();
                }
                Ok(value as u16)
            },
            Err(e) => Err(e),
        }
    }

    /// Reads a big-endian 32-bit number.
    pub fn read_u32(&mut self) -> (result: ParserResult<u32>)
        ensures
            final(self).buffer() == old(self).buffer(),
            match result {
                Ok(value) => number_at(old(self).buffer(), old(self).position(), 4) == Some(
                    value as nat,
                ) && final(self).position() == old(self).position() + 4,
                Err(e) => number_at(old(self).buffer(), old(self).position(), 4) is None && e
                    == (ParserError::TooMuchDataRequested {
                    data_requested: 4,
                    remaining_data: (old(self).buffer().len() - old(self).position()) as usize,
                }) && final(self).position() == old(self).position(),
            },
    {
        match self.read_n_bytes(4) {
            Ok(bytes) => {
                let value = be_fold(bytes);
                proof {
                    lemma_be_value_bound(bytes@);
                    lemma_pow256_values();
                }
                Ok(value as u32)
            },
            Err(e) => Err(e),
        }
    }
}

} // verus!
