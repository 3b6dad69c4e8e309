//! The types of record that the codec knows.

use vstd::prelude::*;
use vstd::std_specs::convert::{FromSpecImpl, TryFromSpecImpl};

verus! {

/// Why a number stands for no type of record.
#[derive(Debug, PartialEq, Eq, Clone, Copy, Structural)]
pub enum RecordTypeError {
    /// The codec knows no type with this number.
    UnknownRecordType(u16),
}

/// The type of a record.
#[derive(Debug, PartialEq, Eq, Clone, Copy, Structural)]
pub enum RecordType {
    /// An IPv4 address.
    A,
    /// An IPv6 address.
    AAAA,
}

/// The type that a number stands for.
pub open spec fn record_type_of(value: u16) -> Result<RecordType, RecordTypeError> {
    if value == 1 {
        Ok(RecordType::A)
    } else if value == 28 {
        Ok(RecordType::AAAA)
    } else {
        Err(RecordTypeError::UnknownRecordType(value))
    }
}

/// The number that stands for a type.
pub open spec fn record_type_code(record_type: RecordType) -> u16 {
    match record_type {
        RecordType::A => 1,
        RecordType::AAAA => 28,
    }
}

impl TryFrom<u16> for RecordType {
    type Error = RecordTypeError;

    fn try_from(value: u16) -> (result: Result<Self, Self::Error>) {
        match value {
            1 => Ok(RecordType::A),
            28 => Ok(RecordType::AAAA),
            _ => Err(RecordTypeError::UnknownRecordType(value)),
        }
    }
}

impl TryFromSpecImpl<u16> for RecordType {
    open spec fn obeys_try_from_spec() -> bool {
        true
    }

    open spec fn try_from_spec(value: u16) -> Result<Self, Self::Error> {
        record_type_of(value)
    }
}

impl From<RecordType> for u16 {
    fn from(val: RecordType) -> (code: Self) {
        match val {
            RecordType::A => 1,
            RecordType::AAAA => 28,
        }
    }
}

impl FromSpecImpl<RecordType> for u16 {
    open spec fn obeys_from_spec() -> bool {
        true
    }

    open spec fn from_spec(val: RecordType) -> Self {
        record_type_code(val)
    }
}

/// Reading a type's number gives the type back.
pub proof fn lemma_record_type_round_trip(record_type: RecordType)
    ensures
        record_type_of(record_type_code(record_type)) == Ok::<RecordType, RecordTypeError>(
            record_type,
        ),
{
}

} // verus!
