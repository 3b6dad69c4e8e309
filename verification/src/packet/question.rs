//! The question of a message: a name, a type and a class.

use vstd::prelude::*;
use crate::packet::fqdn::{parse_fqdn, write_name, Fqdn};
use crate::packet::seder::big_endian::be_bytes;
use crate::packet::seder::deserializer::{number_at, Deserialize};
use crate::packet::seder::serializer::{Serialize, WireState};
use crate::packet::seder::{ToBytes, TryFromBytes};
use crate::records::record_class::{record_class_code, record_class_of, RecordClass};
use crate::records::record_type::{record_type_code, record_type_of, RecordType};

verus! {

/// Why a question could not be read.
#[derive(Debug, PartialEq, Eq, Clone, Copy, Structural)]
pub enum QuestionError {
    /// The name could not be read.
    NameReadingError,
    /// The buffer ends before the type, or the codec does not know the type.
    TypeReadingError,
    /// The buffer ends before the class, or the codec does not know the class.
    ClassReadingError,
}

pub type QuestionResult<T> = Result<T, QuestionError>;

/// A question.
#[derive(Debug, PartialEq, Clone)]
pub struct Question {
    pub qname: Fqdn,
    pub qtype: RecordType,
    pub qclass: RecordClass,
}

/// A question, as mathematics.
pub struct QuestionView {
    pub qname: Seq<Seq<u8>>,
    pub qtype: RecordType,
    pub qclass: RecordClass,
}

impl View for Question {
    type V = QuestionView;

    open spec fn view(&self) -> QuestionView {
        QuestionView { qname: self.qname@, qtype: self.qtype, qclass: self.qclass }
    }
}

/// The question that stands at `position`, and the offset behind it.
pub open spec fn parse_question(buffer: Seq<u8>, position: nat) -> QuestionResult<
    (QuestionView, nat),
> {
    match parse_fqdn(buffer, position) {
        Err(_) => Err(QuestionError::NameReadingError),
        Ok((qname, after_name)) => match number_at(buffer, after_name, 2) {
            None => Err(QuestionError::TypeReadingError),
            Some(type_code) => match record_type_of(type_code as u16) {
                Err(_) => Err(QuestionError::TypeReadingError),
                Ok(qtype) => match number_at(buffer, after_name + 2, 2) {
                    None => Err(QuestionError::ClassReadingError),
                    Some(class_code) => match record_class_of(class_code as u16) {
                        Err(_) => Err(QuestionError::ClassReadingError),
                        Ok(qclass) => Ok((QuestionView { qname, qtype, qclass }, after_name + 4)),
                    },
                },
            },
        },
    }
}

/// The state after a question is written: the name, then the numbers of the
/// type and of the class.
pub open spec fn write_question(state: WireState, question: QuestionView) -> WireState {
    write_name(state, question.qname).write(
        be_bytes(record_type_code(question.qtype) as nat, 2),
    ).write(be_bytes(record_class_code(question.qclass) as nat, 2))
}

impl TryFromBytes for Question {
    type Error = QuestionError;

    open spec fn reads(
        buffer: Seq<u8>,
        position: nat,
        result: Result<Self, QuestionError>,
        next: nat,
    ) -> bool {
        match result {
            Ok(question) => parse_question(buffer, position) == Ok::<
                (QuestionView, nat),
                QuestionError,
            >((question@, next)),
            Err(e) => parse_question(buffer, position) == Err::<(QuestionView, nat), QuestionError>(
                e,
            ) && next == position,
        }
    }

    /// As [`Question::from_bytes`].
    fn try_from_bytes(decoder: &mut Deserialize) -> (result: QuestionResult<Question>)
    {
        Self::from_bytes(decoder)
    }
}

impl ToBytes for Question {
    open spec fn written(&self, state: WireState) -> WireState {
        write_question(state, self@)
    }

    /// Writes the question.
    fn to_bytes(&self, encoder: &mut Serialize)
    {
        self.qname.to_bytes(encoder);
        encoder.write_u16(self.qtype.into());
        encoder.write_u16(self.qclass.into());
    }
}

impl Question {
    /// Reads a question at the reader's position. On failure the reader
    /// stays where it was.
    pub fn from_bytes(decoder: &mut Deserialize) -> (result: QuestionResult<Question>)
        ensures
            final(decoder).buffer() == old(decoder).buffer(),
            old(decoder).wf() ==> final(decoder).wf(),
            match result {
                Ok(question) => parse_question(old(decoder).buffer(), old(decoder).position())
                    == Ok::<(QuestionView, nat), QuestionError>(
                    (question@, final(decoder).position()),
                ),
                Err(e) => parse_question(old(decoder).buffer(), old(decoder).position()) == Err::<
                    (QuestionView, nat),
                    QuestionError,
                >(e) && final(decoder).position() == old(decoder).position(),
            },
    {
        let mut reader: Deserialize = *decoder;
        let qname = match Fqdn::try_from_bytes(&mut reader) {
            Ok(qname) => qname,
            Err(_) => {
                return Err(QuestionError::NameReadingError);
            },
        };
        let qtype = match reader.read_u16() {
            Ok(code) => code,
            Err(_) => {
                return Err(QuestionError::TypeReadingError);
            },
        };
        let qtype = match RecordType::try_from(qtype) {
            Ok(qtype) => qtype,
            Err(_) => {
                return Err(QuestionError::TypeReadingError);
            },
        };
        let qclass = match reader.read_u16() {
            Ok(code) => code,
            Err(_) => {
                return Err(QuestionError::ClassReadingError);
            },
        };
        let qclass = match RecordClass::try_from(qclass) {
            Ok(qclass) => qclass,
            Err(_) => {
                return Err(QuestionError::ClassReadingError);
            },
        };
        let question = QuestionBuilder::new().question_name(qname).question_type(
            qtype,
        ).question_class(qclass).build();
        *decoder = reader;
        Ok(question)
    }


}

/// The state of a builder that has no name yet.
#[derive(Debug, Clone)]
pub struct FqdnUnset;

/// The state of a builder that has this name.
#[derive(Debug, Clone)]
pub struct FqdnSet(pub Fqdn);

/// Whether a [`QuestionBuilder`] has a name.
pub trait FqdnState {

}

impl FqdnState for FqdnUnset {

}

impl FqdnState for FqdnSet {

}

/// The state of a builder that has no type yet.
#[derive(Debug, Clone)]
pub struct QuestionTypeUnset;

/// The state of a builder that has this type.
#[derive(Debug, Clone)]
pub struct QuestionTypeSet(pub RecordType);

/// Whether a [`QuestionBuilder`] has a type.
pub trait QuestionTypeState {

}

impl QuestionTypeState for QuestionTypeUnset {

}

impl QuestionTypeState for QuestionTypeSet {

}

/// Builds a question: first the name, then the type; the class at any time.
/// A class that is not given is `IN`.
pub struct QuestionBuilder<QN: FqdnState, QT: QuestionTypeState> {
    pub qname: QN,
    pub qtype: QT,
    pub qclass: RecordClass,
}

impl Default for QuestionBuilder<FqdnUnset, QuestionTypeUnset> {
    /// A builder with the class `IN`.
    fn default() -> (builder: Self)
        ensures
            builder.qclass == RecordClass::IN,
    {
        QuestionBuilder { qname: FqdnUnset, qtype: QuestionTypeUnset, qclass: RecordClass::IN }
    }
}

impl QuestionBuilder<FqdnUnset, QuestionTypeUnset> {
    /// A builder with the class `IN`.
    pub fn new() -> (builder: Self)
        ensures
            builder.qclass == RecordClass::IN,
    {
        QuestionBuilder::default()
    }

    pub fn question_name(self, qname: Fqdn) -> (builder: QuestionBuilder<
        FqdnSet,
        QuestionTypeUnset,
    >)
        ensures
            builder.qname.0 == qname,
            builder.qclass == self.qclass,
    {
        QuestionBuilder { qname: FqdnSet(qname), qtype: self.qtype, qclass: self.qclass }
    }
}

impl QuestionBuilder<FqdnSet, QuestionTypeUnset> {
    pub fn question_type(self, qtype: RecordType) -> (builder: QuestionBuilder<
        FqdnSet,
        QuestionTypeSet,
    >)
        ensures
            builder.qname == self.qname,
            builder.qtype.0 == qtype,
            builder.qclass == self.qclass,
    {
        QuestionBuilder { qname: self.qname, qtype: QuestionTypeSet(qtype), qclass: self.qclass }
    }
}

impl QuestionBuilder<FqdnSet, QuestionTypeSet> {
    /// The question that the builder holds.
    pub fn build(self) -> (question: Question)
        ensures
            question == (Question {
                qname: self.qname.0,
                qtype: self.qtype.0,
                qclass: self.qclass,
            }),
    {
        Question { qname: self.qname.0, qtype: self.qtype.0, qclass: self.qclass }
    }
}

impl<QN: FqdnState, QT: QuestionTypeState> QuestionBuilder<QN, QT> {
    pub fn question_class(self, qclass: RecordClass) -> (builder: QuestionBuilder<QN, QT>)
        ensures
            builder.qname == self.qname,
            builder.qtype == self.qtype,
            builder.qclass == qclass,
    {
        QuestionBuilder { qname: self.qname, qtype: self.qtype, qclass }
    }
}

} // verus!
