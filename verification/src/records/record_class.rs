//! The classes of record that the codec knows.

use vstd::prelude::*;
use vstd::std_specs::convert::{FromSpecImpl, TryFromSpecImpl};

verus! {

/// Why a number stands for no class of record.
#[derive(Debug, PartialEq, Eq, Clone, Copy, Structural)]
pub enum RecordClassError {
    /// The codec knows no class with this number.
    UnknownRecordClass(u16),
}

/// The class of a record.
#[derive(Debug, PartialEq, Eq, Clone, Copy, Structural)]
pub enum RecordClass {
    /// The Internet.
    IN,
    /// Chaos.
    CH,
    /// Hesiod.
    HS,
    /// Any class.
    ANY,
}

/// The class that a number stands for.
pub open spec fn record_class_of(value: u16) -> Result<RecordClass, RecordClassError> {
    if value == 1 {
        Ok(RecordClass::IN)
    } else if value == 3 {
        Ok(RecordClass::CH)
    } else if value == 4 {
        Ok(RecordClass::HS)
    } else if value == 255 {
        Ok(RecordClass::ANY)
    } else {
        Err(RecordClassError::UnknownRecordClass(value))
    }
}

/// The number that stands for a class.
pub open spec fn record_class_code(class: RecordClass) -> u16 {
    match class {
        RecordClass::IN => 1,
        RecordClass::CH => 3,
        RecordClass::HS => 4,
        RecordClass::ANY => 255,
    }
}

impl TryFrom<u16> for RecordClass {
    type Error = RecordClassError;

    fn try_from(value: u16) -> (result: Result<Self, Self::Error>) {
        match value {
            1 => Ok(RecordClass::IN),
            3 => Ok(RecordClass::CH),
            4 => Ok(RecordClass::HS),
            255 => Ok(RecordClass::ANY),
            _ => Err(RecordClassError::UnknownRecordClass(value)),
        }
    }
}

impl TryFromSpecImpl<u16> for RecordClass {
    open spec fn obeys_try_from_spec() -> bool {
        true
    }

    open spec fn try_from_spec(value: u16) -> Result<Self, Self::Error> {
        record_class_of(value)
    }
}

impl From<RecordClass> for u16 {
    fn from(val: RecordClass) -> (code: Self) {
        match val {
            RecordClass::IN => 1,
            RecordClass::CH => 3,
            RecordClass::HS => 4,
            RecordClass::ANY => 255,
        }
    }
}

impl FromSpecImpl<RecordClass> for u16 {
    open spec fn obeys_from_spec() -> bool {
        true
    }

    open spec fn from_spec(val: RecordClass) -> Self {
        record_class_code(val)
    }
}

/// Reading a class's number gives the class back.
pub proof fn lemma_record_class_round_trip(class: RecordClass)
    ensures
        record_class_of(record_class_code(class)) == Ok::<RecordClass, RecordClassError>(class),
{
}

} // verus!
