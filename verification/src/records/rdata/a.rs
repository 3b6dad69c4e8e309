//! The data of an A record: an IPv4 address.

use vstd::prelude::*;
use crate::packet::seder::big_endian::be_bytes;
use crate::packet::seder::deserializer::{number_at, Deserialize};
use crate::packet::seder::serializer::{Serialize, WireState};
use crate::packet::seder::{ToBytes, TryFromBytes};
use crate::records::record_data::RecordDataError;

verus! {

pub type ARecordResult = Result<A, RecordDataError>;

/// An IPv4 address, as the 32-bit number that its four bytes denote.
#[derive(Debug, PartialEq, Eq, Clone, Copy, Structural)]
pub struct A {
    pub address: u32,
}

impl TryFromBytes for A {
    type Error = RecordDataError;

    open spec fn reads(
        buffer: Seq<u8>,
        position: nat,
        result: Result<Self, RecordDataError>,
        next: nat,
    ) -> bool {
        match result {
            Ok(data) => number_at(buffer, position, 4) == Some(data.address as nat) && next
                == position + 4,
            Err(e) => number_at(buffer, position, 4) is None && e == RecordDataError::UnableToReadIpv4Address
                && next == position,
        }
    }

    /// Reads the four bytes of an address. On failure the reader stays where
    /// it was.
    fn try_from_bytes(decoder: &mut Deserialize) -> (result: ARecordResult)
    {
        match decoder.read_u32() {
            Ok(address) => Ok(A { address }),
            Err(_) => Err(RecordDataError::UnableToReadIpv4Address),
        }
    }
}

impl ToBytes for A {
    open spec fn written(&self, state: WireState) -> WireState {
        state.write(be_bytes(4, 2) + be_bytes(self.address as nat, 4))
    }

    /// Writes the length of the address, in two bytes, and the address.
    fn to_bytes(&self, encoder: &mut Serialize)
    {
        encoder.write_u16(A::RECORD_DATA_LENGTH);
        encoder.write_u32(self.address);
        assert(encoder@.output =~= old(encoder)@.output + (be_bytes(4, 2) + be_bytes(
            self.address as nat,
            4,
        )));
    }
}

impl A {
    /// The number of bytes of the address.
    pub const RECORD_DATA_LENGTH: u16 = 4;

    pub fn new(address: u32) -> (a: Self)
        ensures
            a.address == address,
    {
        Self { address }
    }


}

} // verus!
