//! The data of an AAAA record: an IPv6 address.

use vstd::prelude::*;
use crate::packet::seder::big_endian::{be_bytes, be_encode};
use crate::packet::seder::deserializer::{number_at, Deserialize};
use crate::packet::seder::serializer::{Serialize, WireState};
use crate::packet::seder::{ToBytes, TryFromBytes};
use crate::records::record_data::RecordDataError;

verus! {

pub type AAAARecordResult = Result<AAAA, RecordDataError>;

/// An IPv6 address, as the 128-bit number that its sixteen bytes denote.
#[derive(Debug, PartialEq, Eq, Clone, Copy, Structural)]
pub struct AAAA {
    pub address: u128,
}

impl TryFromBytes for AAAA {
    type Error = RecordDataError;

    open spec fn reads(
        buffer: Seq<u8>,
        position: nat,
        result: Result<Self, RecordDataError>,
        next: nat,
    ) -> bool {
        match result {
            Ok(data) => number_at(buffer, position, 16) == Some(data.address as nat) && next
                == position + 16,
            Err(e) => number_at(buffer, position, 16) is None && e == RecordDataError::UnableToReadIpv6Address
                && next == position,
        }
    }

    /// Reads the sixteen bytes of an address. On failure the reader stays
    /// where it was.
    fn try_from_bytes(decoder: &mut Deserialize) -> (result: AAAARecordResult)
    {
        match decoder.read_u128() {
            Ok(address) => Ok(AAAA { address }),
            Err(_) => Err(RecordDataError::UnableToReadIpv6Address),
        }
    }
}

impl ToBytes for AAAA {
    open spec fn written(&self, state: WireState) -> WireState {
        state.write(be_bytes(16, 2) + be_bytes(self.address as nat, 16))
    }

    /// Writes the length of the address, in two bytes, and the address.
    fn to_bytes(&self, encoder: &mut Serialize)
    {
        encoder.write_u16(AAAA::RECORD_DATA_LENGTH);
        encoder.write_n_bytes(be_encode(self.address, 16));
        assert(encoder@.output =~= old(encoder)@.output + (be_bytes(16, 2) + be_bytes(
            self.address as nat,
            16,
        )));
    }
}

impl AAAA {
    /// The number of bytes of the address.
    pub const RECORD_DATA_LENGTH: u16 = 16;

    pub fn new(address: u128) -> (aaaa: Self)
        ensures
            aaaa.address == address,
    {
        Self { address }
    }


}

} // verus!
