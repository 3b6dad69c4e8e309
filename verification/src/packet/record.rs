//! A resource record: the name of its owner, a type, a class, a time to
//! live, and the data.

use vstd::prelude::*;
use crate::packet::fqdn::{parse_fqdn, write_name, Fqdn};
use crate::packet::seder::big_endian::be_bytes;
use crate::packet::seder::deserializer::{number_at, Deserialize};
use crate::packet::seder::serializer::{Serialize, WireState};
use crate::packet::seder::{ToBytes, TryFromBytes};
use crate::records::record_class::{record_class_code, record_class_of, RecordClass};
use crate::records::record_data::{data_bytes, data_length, parse_data, RecordData};
use crate::records::record_type::{record_type_code, record_type_of, RecordType};

verus! {

/// Why a record could not be read.
#[derive(Debug, PartialEq, Eq, Clone, Copy, Structural)]
pub enum RecordError {
    /// The name of the owner could not be read.
    InvalidName,
    /// The buffer ends before the type, or the codec does not know the type.
    InvalidType,
    /// The buffer ends before the class, or the codec does not know the class.
    InvalidClass,
    /// The buffer ends before the time to live.
    InvalidTtl,
    /// The buffer ends before the length of the data, or the length is not
    /// that of the data of the record's type.
    InvalidDataLength,
    /// The buffer ends before the end of the data.
    InvalidData,
}

pub type RecordResult = Result<Record, RecordError>;

/// A resource record.
#[derive(Debug, PartialEq, Clone)]
pub struct Record {
    pub owner_name: Fqdn,
    pub record_type: RecordType,
    pub class: RecordClass,
    pub ttl: u32,
    pub data: RecordData,
}

/// A resource record, as mathematics.
pub struct RecordView {
    pub owner_name: Seq<Seq<u8>>,
    pub record_type: RecordType,
    pub class: RecordClass,
    pub ttl: u32,
    pub data: RecordData,
}

impl View for Record {
    type V = RecordView;

    open spec fn view(&self) -> RecordView {
        RecordView {
            owner_name: self.owner_name@,
            record_type: self.record_type,
            class: self.class,
            ttl: self.ttl,
            data: self.data,
        }
    }
}

/// The record that stands at `position`, and the offset behind it. The
/// fields are read in their order on the wire, and the first that fails
/// decides the error.
pub open spec fn parse_record(buffer: Seq<u8>, position: nat) -> Result<
    (RecordView, nat),
    RecordError,
> {
    match parse_fqdn(buffer, position) {
        Err(_) => Err(RecordError::InvalidName),
        Ok((owner_name, after_name)) => match number_at(buffer, after_name, 2) {
            None => Err(RecordError::InvalidType),
            Some(type_code) => match record_type_of(type_code as u16) {
                Err(_) => Err(RecordError::InvalidType),
                Ok(record_type) => match number_at(buffer, after_name + 2, 2) {
                    None => Err(RecordError::InvalidClass),
                    Some(class_code) => match record_class_of(class_code as u16) {
                        Err(_) => Err(RecordError::InvalidClass),
                        Ok(class) => match number_at(buffer, after_name + 4, 4) {
                            None => Err(RecordError::InvalidTtl),
                            Some(ttl) => match number_at(buffer, after_name + 8, 2) {
                                None => Err(RecordError::InvalidDataLength),
                                Some(length) => if length != data_length(record_type) {
                                    Err(RecordError::InvalidDataLength)
                                } else {
                                    match parse_data(buffer, after_name + 10, record_type) {
                                        Err(_) => Err(RecordError::InvalidData),
                                        Ok((data, next)) => Ok(
                                            (
                                                RecordView {
                                                    owner_name,
                                                    record_type,
                                                    class,
                                                    ttl: ttl as u32,
                                                    data,
                                                },
                                                next,
                                            ),
                                        ),
                                    }
                                },
                            },
                        },
                    },
                },
            },
        },
    }
}

/// The state after a record is written: the name of the owner, the numbers
/// of the type and of the class, the time to live, and the data with its
/// length.
pub open spec fn write_record(state: WireState, record: RecordView) -> WireState {
    write_name(state, record.owner_name).write(
        be_bytes(record_type_code(record.record_type) as nat, 2),
    ).write(be_bytes(record_class_code(record.class) as nat, 2)).write(
        be_bytes(record.ttl as nat, 4),
    ).write(data_bytes(record.data))
}

impl TryFromBytes for Record {
    type Error = RecordError;

    open spec fn reads(
        buffer: Seq<u8>,
        position: nat,
        result: Result<Self, RecordError>,
        next: nat,
    ) -> bool {
        match result {
            Ok(record) => parse_record(buffer, position) == Ok::<(RecordView, nat), RecordError>(
                (record@, next),
            ),
            Err(e) => parse_record(buffer, position) == Err::<(RecordView, nat), RecordError>(e)
                && next == position,
        }
    }

    /// As [`Record::from_bytes`].
    fn try_from_bytes(decoder: &mut Deserialize) -> (result: RecordResult) {
        Self::from_bytes(decoder)
    }
}

impl ToBytes for Record {
    open spec fn written(&self, state: WireState) -> WireState {
        write_record(state, self@)
    }

    /// Writes the record.
    fn to_bytes(&self, encoder: &mut Serialize)
    {
        self.owner_name.to_bytes(encoder);
        encoder.write_u16(self.record_type.into());
        encoder.write_u16(self.class.into());
        encoder.write_u32(self.ttl);
        self.data.to_bytes(encoder);
    }
}

impl Record {
    /// Reads a record at the reader's position. On failure the reader stays
    /// where it was.
    pub fn from_bytes(decoder: &mut Deserialize) -> (result: RecordResult)
        ensures
            final(decoder).buffer() == old(decoder).buffer(),
            old(decoder).wf() ==> final(decoder).wf(),
            match result {
                Ok(record) => parse_record(old(decoder).buffer(), old(decoder).position()) == Ok::<
                    (RecordView, nat),
                    RecordError,
                >((record@, final(decoder).position())),
                Err(e) => parse_record(old(decoder).buffer(), old(decoder).position()) == Err::<
                    (RecordView, nat),
                    RecordError,
                >(e) && final(decoder).position() == old(decoder).position(),
            },
    {
        let mut reader: Deserialize = *decoder;
        let owner_name = match Fqdn::try_from_bytes(&mut reader) {
            Ok(name) => name,
            Err(_) => {
                return Err(RecordError::InvalidName);
            },
        };
        let record_type = match reader.read_u16() {
            Ok(code) => code,
            Err(_) => {
                return Err(RecordError::InvalidType);
            },
        };
        let record_type = match RecordType::try_from(record_type) {
            Ok(record_type) => record_type,
            Err(_) => {
                return Err(RecordError::InvalidType);
            },
        };
        let class = match reader.read_u16() {
            Ok(code) => code,
            Err(_) => {
                return Err(RecordError::InvalidClass);
            },
        };
        let class = match RecordClass::try_from(class) {
            Ok(class) => class,
            Err(_) => {
                return Err(RecordError::InvalidClass);
            },
        };
        let ttl = match reader.read_u32() {
            Ok(ttl) => ttl,
            Err(_) => {
                return Err(RecordError::InvalidTtl);
            },
        };
        let data_length = match reader.read_u16() {
            Ok(length) => length,
            Err(_) => {
                return Err(RecordError::InvalidDataLength);
            },
        };
        let expected: u16 = match record_type {
            RecordType::A => 4,
            RecordType::AAAA => 16,
        };
        if data_length != expected {
            return Err(RecordError::InvalidDataLength);
        }
        let data = match RecordData::from_bytes(&mut reader, &record_type) {
            Ok(data) => data,
            Err(_) => {
                return Err(RecordError::InvalidData);
            },
        };
        let record = RecordBuilder::new().owner_name(owner_name).record_type(record_type).data(
            data,
        ).class(class).ttl(ttl).build();
        *decoder = reader;
        Ok(record)
    }


    /// Writes the record and gives it up.
    pub fn into_bytes(self, encoder: &mut Serialize)
        ensures
            final(encoder)@ == write_record(old(encoder)@, self@),
    {
        self.to_bytes(encoder);
    }
}

/// The state of a builder that has no data yet.
pub struct RecordDataUnset;

/// The state of a builder that has this data.
pub struct RecordDataSet(pub RecordData);

/// Whether a [`RecordBuilder`] has data.
pub trait RecordDataState {

}

impl RecordDataState for RecordDataUnset {

}

impl RecordDataState for RecordDataSet {

}

/// The state of a builder that has no owner yet.
pub struct RecordOwnerUnset;

/// The state of a builder that has this owner.
pub struct RecordOwnerSet(pub Fqdn);

/// Whether a [`RecordBuilder`] has an owner.
pub trait RecordOwnerState {

}

impl RecordOwnerState for RecordOwnerUnset {

}

impl RecordOwnerState for RecordOwnerSet {

}

/// The state of a builder that has no type yet.
pub struct RecordTypeUnset;

/// The state of a builder that has this type.
pub struct RecordTypeSet(pub RecordType);

/// Whether a [`RecordBuilder`] has a type.
pub trait RecordTypeState {

}

impl RecordTypeState for RecordTypeUnset {

}

impl RecordTypeState for RecordTypeSet {

}

/// Builds a record: first the owner, then the type, then the data; the
/// class and the time to live at any time. A class that is not given is
/// `IN`, a time to live that is not given is zero.
pub struct RecordBuilder<O: RecordOwnerState, T: RecordTypeState, D: RecordDataState> {
    pub owner_name: O,
    pub record_type: T,
    pub class: RecordClass,
    pub ttl: u32,
    pub data: D,
}

pub type RecordBuilderUnset = RecordBuilder<RecordOwnerUnset, RecordTypeUnset, RecordDataUnset>;

pub type RecordBuilderOwnerSet = RecordBuilder<RecordOwnerSet, RecordTypeUnset, RecordDataUnset>;

pub type RecordBuilderTypeSet = RecordBuilder<RecordOwnerSet, RecordTypeSet, RecordDataUnset>;

pub type RecordBuilderSet = RecordBuilder<RecordOwnerSet, RecordTypeSet, RecordDataSet>;

impl Default for RecordBuilderUnset {
    /// A builder with the class `IN` and a time to live of zero.
    fn default() -> (builder: Self)
        ensures
            builder.class == RecordClass::IN,
            builder.ttl == 0,
    {
        RecordBuilder {
            owner_name: RecordOwnerUnset,
            record_type: RecordTypeUnset,
            class: RecordClass::IN,
            ttl: 0,
            data: RecordDataUnset,
        }
    }
}

impl RecordBuilderUnset {
    /// A builder with the class `IN` and a time to live of zero.
    pub fn new() -> (builder: Self)
        ensures
            builder.class == RecordClass::IN,
            builder.ttl == 0,
    {
        RecordBuilder::default()
    }

    pub fn owner_name(self, name: Fqdn) -> (builder: RecordBuilderOwnerSet)
        ensures
            builder.owner_name.0 == name,
            builder.class == self.class,
            builder.ttl == self.ttl,
    {
        RecordBuilder {
            owner_name: RecordOwnerSet(name),
            record_type: self.record_type,
            class: self.class,
            ttl: self.ttl,
            data: self.data,
        }
    }
}

impl RecordBuilderOwnerSet {
    pub fn record_type(self, r_type: RecordType) -> (builder: RecordBuilderTypeSet)
        ensures
            builder.owner_name == self.owner_name,
            builder.record_type.0 == r_type,
            builder.class == self.class,
            builder.ttl == self.ttl,
    {
        RecordBuilder {
            owner_name: self.owner_name,
            record_type: RecordTypeSet(r_type),
            class: self.class,
            ttl: self.ttl,
            data: self.data,
        }
    }
}

impl RecordBuilderTypeSet {
    pub fn data(self, rdata: RecordData) -> (builder: RecordBuilderSet)
        ensures
            builder.owner_name == self.owner_name,
            builder.record_type == self.record_type,
            builder.class == self.class,
            builder.ttl == self.ttl,
            builder.data.0 == rdata,
    {
        RecordBuilder {
            owner_name: self.owner_name,
            record_type: self.record_type,
            class: self.class,
            ttl: self.ttl,
            data: RecordDataSet(rdata),
        }
    }
}

impl RecordBuilderSet {
    /// The record that the builder holds.
    pub fn build(self) -> (record: Record)
        ensures
            record == (Record {
                owner_name: self.owner_name.0,
                record_type: self.record_type.0,
                class: self.class,
                ttl: self.ttl,
                data: self.data.0,
            }),
    {
        Record {
            owner_name: self.owner_name.0,
            record_type: self.record_type.0,
            class: self.class,
            ttl: self.ttl,
            data: self.data.0,
        }
    }
}

impl<O: RecordOwnerState, T: RecordTypeState, D: RecordDataState> RecordBuilder<O, T, D> {
    pub fn class(self, class: RecordClass) -> (builder: Self)
        ensures
            builder.owner_name == self.owner_name,
            builder.record_type == self.record_type,
            builder.class == class,
            builder.ttl == self.ttl,
            builder.data == self.data,
    {
        Self {
            owner_name: self.owner_name,
            record_type: self.record_type,
            class,
            ttl: self.ttl,
            data: self.data,
        }
    }

    pub fn ttl(self, ttl: u32) -> (builder: Self)
        ensures
            builder.owner_name == self.owner_name,
            builder.record_type == self.record_type,
            builder.class == self.class,
            builder.ttl == ttl,
            builder.data == self.data,
    {
        Self {
            owner_name: self.owner_name,
            record_type: self.record_type,
            class: self.class,
            ttl,
            data: self.data,
        }
    }
}

} // verus!
