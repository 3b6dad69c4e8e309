//! The data of a record, by its type.

use vstd::prelude::*;
use crate::packet::seder::big_endian::be_bytes;
use crate::packet::seder::deserializer::{number_at, Deserialize};
use crate::packet::seder::serializer::Serialize;
use crate::packet::seder::{ToBytes, TryFromBytes};
use crate::records::rdata::a::A;
use crate::records::rdata::aaaa::AAAA;
use crate::records::record_type::RecordType;

verus! {

/// Why the data of a record could not be read.
#[derive(Debug, PartialEq, Eq, Clone, Copy, Structural)]
pub enum RecordDataError {
    /// The buffer ends before the four bytes of an IPv4 address.
    UnableToReadIpv4Address,
    /// The buffer ends before the sixteen bytes of an IPv6 address.
    UnableToReadIpv6Address,
}

/// The data of a record.
#[derive(Debug, PartialEq, Eq, Clone, Copy, Structural)]
pub enum RecordData {
    A(A),
    AAAA(AAAA),
    /// Data of a type that the codec does not know: nothing is kept of it.
    UNKNOWN,
}

/// The data of type `record_type` that stands at `position`, and the offset
/// behind it.
pub open spec fn parse_data(buffer: Seq<u8>, position: nat, record_type: RecordType) -> Result<
    (RecordData, nat),
    RecordDataError,
> {
    match record_type {
        RecordType::A => match number_at(buffer, position, 4) {
            Some(address) => Ok((RecordData::A(A { address: address as u32 }), position + 4)),
            None => Err(RecordDataError::UnableToReadIpv4Address),
        },
        RecordType::AAAA => match number_at(buffer, position, 16) {
            Some(address) => Ok((RecordData::AAAA(AAAA { address: address as u128 }), position + 16)),
            None => Err(RecordDataError::UnableToReadIpv6Address),
        },
    }
}

/// The bytes that the data takes on the wire, length first. Unknown data
/// takes none.
pub open spec fn data_bytes(data: RecordData) -> Seq<u8> {
    match data {
        RecordData::A(a) => be_bytes(4, 2) + be_bytes(a.address as nat, 4),
        RecordData::AAAA(aaaa) => be_bytes(16, 2) + be_bytes(aaaa.address as nat, 16),
        RecordData::UNKNOWN => Seq::empty(),
    }
}

/// The number of bytes that the data of a type takes behind its length.
pub open spec fn data_length(record_type: RecordType) -> nat {
    match record_type {
        RecordType::A => 4,
        RecordType::AAAA => 16,
    }
}

impl RecordData {
    /// Reads the data of a record of type `record_type`. On failure the
    /// reader stays where it was.
    pub fn from_bytes(decoder: &mut Deserialize, record_type: &RecordType) -> (result: Result<
        Self,
        RecordDataError,
    >)
        ensures
            final(decoder).buffer() == old(decoder).buffer(),
            old(decoder).wf() ==> final(decoder).wf(),
            match result {
                Ok(data) => parse_data(old(decoder).buffer(), old(decoder).position(), *record_type)
                    == Ok::<(RecordData, nat), RecordDataError>((data, final(decoder).position())),
                Err(e) => parse_data(old(decoder).buffer(), old(decoder).position(), *record_type)
                    == Err::<(RecordData, nat), RecordDataError>(e) && final(decoder).position()
                    == old(decoder).position(),
            },
    {
        match record_type {
            RecordType::A => match A::try_from_bytes(decoder) {
                Ok(data) => Ok(RecordData::A(data)),
                Err(e) => Err(e),
            },
            RecordType::AAAA => match AAAA::try_from_bytes(decoder) {
                Ok(data) => Ok(RecordData::AAAA(data)),
                Err(e) => Err(e),
            },
        }
    }

    /// Writes the data, length first; for unknown data, nothing.
    pub fn to_bytes(&self, encoder: &mut Serialize)
        ensures
            final(encoder)@ == old(encoder)@.write(data_bytes(*self)),
    {
        match self {
            RecordData::A(a_rdata) => a_rdata.to_bytes(encoder),
            RecordData::AAAA(aaaa_rdata) => aaaa_rdata.to_bytes(encoder),
            RecordData::UNKNOWN => {
                assert(encoder@.output =~= old(encoder)@.output + data_bytes(*self));
            },
        }
    }
}

} // verus!
