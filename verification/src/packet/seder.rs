//! Reading from and writing to byte buffers.

use vstd::prelude::*;
use crate::packet::seder::deserializer::Deserialize;
use crate::packet::seder::serializer::{Serialize, WireState};

pub mod big_endian;
pub mod deserializer;
pub mod serializer;

verus! {

/// A value that can be read from the wire.
pub trait TryFromBytes: Sized {
    type Error;

    /// Whether reading a value at offset `position` of `buffer` gives
    /// `result` and leaves the reader at offset `next`.
    spec fn reads(
        buffer: Seq<u8>,
        position: nat,
        result: Result<Self, Self::Error>,
        next: nat,
    ) -> bool;

    /// Reads a value at the reader's position.
    fn try_from_bytes(decoder: &mut Deserialize) -> (result: Result<Self, Self::Error>)
        ensures
            final(decoder).buffer() == old(decoder).buffer(),
            old(decoder).wf() ==> final(decoder).wf(),
            Self::reads(
                old(decoder).buffer(),
                old(decoder).position(),
                result,
                final(decoder).position(),
            ),
    ;
}

/// A value that can be written to the wire.
pub trait ToBytes {
    /// The state of a writer once the value is written into one in state
    /// `state`.
    spec fn written(&self, state: WireState) -> WireState;

    /// Writes the value.
    fn to_bytes(&self, encoder: &mut Serialize)
        ensures
            final(encoder)@ == self.written(old(encoder)@),
    ;
}

} // verus!
