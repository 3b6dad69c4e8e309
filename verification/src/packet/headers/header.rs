//! The header of a message: an identifier, the flags, and how many entries
//! each of the four sections holds.

use vstd::prelude::*;
use crate::packet::headers::header_flags::{decode_flags, encode_flags, HeaderFlags};
use crate::packet::seder::big_endian::be_bytes;
use crate::packet::seder::deserializer::{number_at, Deserialize};
use crate::packet::seder::serializer::{Serialize, WireState};
use crate::packet::seder::{ToBytes, TryFromBytes};

verus! {

/// Why a header could not be read.
#[derive(Debug, PartialEq, Eq, Clone, Copy, Structural)]
pub enum HeaderError {
    /// The buffer ends before the field, which takes this many bytes.
    InsufficientData(usize),
    /// The flags word is refused.
    FlagError,
    /// The buffer ends before the identifier.
    MissingId,
    /// The message holds this many questions, and only one is supported.
    IncorrectQuestionCount(u16),
}

pub type HeaderResult = Result<Header, HeaderError>;

/// The header of a message.
#[derive(Debug, PartialEq, Eq, Clone, Copy, Structural)]
pub struct Header {
    pub id: u16,
    pub flags: HeaderFlags,
    pub question_count: u16,
    pub answer_count: u16,
    pub authoritative_count: u16,
    pub additional_count: u16,
}

/// The number of bytes that a header takes.
pub const HEADER_LENGTH: usize = 12;

/// The header that stands at `position`, and the offset behind it. The
/// fields are read in their order on the wire, and the first that fails
/// decides the error.
pub open spec fn parse_header(buffer: Seq<u8>, position: nat) -> Result<(Header, nat), HeaderError> {
    match number_at(buffer, position, 2) {
        None => Err(HeaderError::MissingId),
        Some(id) => match number_at(buffer, position + 2, 2) {
            None => Err(HeaderError::InsufficientData(2)),
            Some(word) => match decode_flags(word as u16) {
                Err(_) => Err(HeaderError::FlagError),
                Ok(flags) => match number_at(buffer, position + 4, 2) {
                    None => Err(HeaderError::InsufficientData(2)),
                    Some(question_count) => if question_count != 1 {
                        Err(HeaderError::IncorrectQuestionCount(question_count as u16))
                    } else {
                        match (
                            number_at(buffer, position + 6, 2),
                            number_at(buffer, position + 8, 2),
                            number_at(buffer, position + 10, 2),
                        ) {
                            (Some(answer_count), Some(authoritative_count), Some(additional_count)) => Ok(
                                (
                                    Header {
                                        id: id as u16,
                                        flags,
                                        question_count: question_count as u16,
                                        answer_count: answer_count as u16,
                                        authoritative_count: authoritative_count as u16,
                                        additional_count: additional_count as u16,
                                    },
                                    position + HEADER_LENGTH as nat,
                                ),
                            ),
                            _ => Err(HeaderError::InsufficientData(2)),
                        }
                    },
                },
            },
        },
    }
}

/// The twelve bytes of a header.
pub open spec fn header_bytes(header: Header) -> Seq<u8> {
    be_bytes(header.id as nat, 2) + be_bytes(encode_flags(header.flags) as nat, 2) + be_bytes(
        header.question_count as nat,
        2,
    ) + be_bytes(header.answer_count as nat, 2) + be_bytes(header.authoritative_count as nat, 2)
        + be_bytes(header.additional_count as nat, 2)
}

/// A header that announces any number of questions but one is refused,
/// with that number, once its identifier and its flags are read.
pub proof fn lemma_question_count_must_be_one(buffer: Seq<u8>, position: nat)
    requires
        number_at(buffer, position, 2) is Some,
        number_at(buffer, position + 2, 2) matches Some(word) && decode_flags(word as u16) is Ok,
        number_at(buffer, position + 4, 2) matches Some(count) && count != 1,
    ensures
        parse_header(buffer, position) == Err::<(Header, nat), HeaderError>(
            HeaderError::IncorrectQuestionCount(
                number_at(buffer, position + 4, 2)->Some_0 as u16,
            ),
        ),
{
}

/// A header that is read announces one question.
pub proof fn lemma_parsed_header_has_one_question(buffer: Seq<u8>, position: nat)
    ensures
        parse_header(buffer, position) matches Ok((header, _)) ==> header.question_count == 1,
{
}

impl TryFromBytes for Header {
    type Error = HeaderError;

    open spec fn reads(
        buffer: Seq<u8>,
        position: nat,
        result: Result<Self, HeaderError>,
        next: nat,
    ) -> bool {
        match result {
            Ok(header) => parse_header(buffer, position) == Ok::<(Header, nat), HeaderError>(
                (header, next),
            ),
            Err(e) => parse_header(buffer, position) == Err::<(Header, nat), HeaderError>(e)
                && next == position,
        }
    }

    /// Reads a header at the reader's position. On failure the reader stays
    /// where it was.
    fn try_from_bytes(decoder: &mut Deserialize) -> (result: HeaderResult)
    {
        let mut reader: Deserialize = *decoder;
        let id = match reader.read_u16() {
            Ok(id) => id,
            Err(_) => {
                return Err(HeaderError::MissingId);
            },
        };
        let flags = match reader.read_u16() {
            Ok(flags) => flags,
            Err(_) => {
                return Err(HeaderError::InsufficientData(2));
            },
        };
        let flags = match HeaderFlags::try_from(flags) {
            Ok(flags) => flags,
            Err(_) => {
                return Err(HeaderError::FlagError);
            },
        };
        let question_count = match reader.read_u16() {
            Ok(count) => count,
            Err(_) => {
                return Err(HeaderError::InsufficientData(2));
            },
        };
        if question_count != 1 {
            return Err(HeaderError::IncorrectQuestionCount(question_count));
        }
        let answer_count = match reader.read_u16() {
            Ok(count) => count,
            Err(_) => {
                return Err(HeaderError::InsufficientData(2));
            },
        };
        let authoritative_count = match reader.read_u16() {
            Ok(count) => count,
            Err(_) => {
                return Err(HeaderError::InsufficientData(2));
            },
        };
        let additional_count = match reader.read_u16() {
            Ok(count) => count,
            Err(_) => {
                return Err(HeaderError::InsufficientData(2));
            },
        };
        let header = HeaderBuilder::new().id(id).flags(flags).question_count(
            question_count,
        ).answer_count(answer_count).authoritative_count(authoritative_count).additional_count(
            additional_count,
        ).build();
        *decoder = reader;
        Ok(header)
    }
}

impl ToBytes for Header {
    open spec fn written(&self, state: WireState) -> WireState {
        state.write(header_bytes(*self))
    }

    /// Writes the twelve bytes of the header.
    fn to_bytes(&self, encoder: &mut Serialize)
    {
        encoder.write_u16(self.id);
        self.flags.to_bytes(encoder);
        encoder.write_u16(self.question_count);
        encoder.write_u16(self.answer_count);
        encoder.write_u16(self.authoritative_count);
        encoder.write_u16(self.additional_count);
        assert(encoder@.output =~= old(encoder)@.output + header_bytes(*self));
    }
}

impl Header {

    /// As [`Header::try_from_bytes`].
    pub fn from_bytes(decoder: &mut Deserialize) -> (result: HeaderResult)
        ensures
            final(decoder).buffer() == old(decoder).buffer(),
            old(decoder).wf() ==> final(decoder).wf(),
            match result {
                Ok(header) => parse_header(old(decoder).buffer(), old(decoder).position()) == Ok::<
                    (Header, nat),
                    HeaderError,
                >((header, final(decoder).position())),
                Err(e) => parse_header(old(decoder).buffer(), old(decoder).position()) == Err::<
                    (Header, nat),
                    HeaderError,
                >(e) && final(decoder).position() == old(decoder).position(),
            },
    {
        Self::try_from_bytes(decoder)
    }


    pub fn id(&self) -> (id: u16)
        ensures
            id == self.id,
    {
        self.id
    }

    pub fn flags(&self) -> (flags: &HeaderFlags)
        ensures
            *flags == self.flags,
    {
        &self.flags
    }

    pub fn question_count(&self) -> (count: u16)
        ensures
            count == self.question_count,
    {
        self.question_count
    }

    pub fn answer_count(&self) -> (count: u16)
        ensures
            count == self.answer_count,
    {
        self.answer_count
    }

    pub fn authority_count(&self) -> (count: u16)
        ensures
            count == self.authoritative_count,
    {
        self.authoritative_count
    }

    pub fn additional_count(&self) -> (count: u16)
        ensures
            count == self.additional_count,
    {
        self.additional_count
    }
}

/// The state of a builder that has no identifier yet.
#[derive(Debug, Clone, Copy)]
pub struct IdUnset;

/// The state of a builder that has this identifier.
#[derive(Debug, Clone, Copy)]
pub struct IdSet(pub u16);

/// Whether a [`HeaderBuilder`] has an identifier.
pub trait IdState {

}

impl IdState for IdUnset {

}

impl IdState for IdSet {

}

/// The state of a builder that has no flags yet.
#[derive(Debug, Clone, Copy)]
pub struct FlagsUnset;

/// The state of a builder that has these flags.
#[derive(Debug, Clone, Copy)]
pub struct FlagsSet(pub HeaderFlags);

/// Whether a [`HeaderBuilder`] has flags.
pub trait FlagState {

}

impl FlagState for FlagsUnset {

}

impl FlagState for FlagsSet {

}

/// Builds a header: first the identifier, then the flags, then the counts in
/// any order. A count that is not given is zero.
#[derive(Debug, Clone, Copy)]
pub struct HeaderBuilder<I: IdState, F: FlagState> {
    pub id: I,
    pub flags: F,
    pub question_count: u16,
    pub answer_count: u16,
    pub authoritative_count: u16,
    pub additional_count: u16,
}

impl Default for HeaderBuilder<IdUnset, FlagsUnset> {
    /// A builder with every count at zero.
    fn default() -> (builder: Self)
        ensures
            builder.question_count == 0,
            builder.answer_count == 0,
            builder.authoritative_count == 0,
            builder.additional_count == 0,
    {
        HeaderBuilder {
            id: IdUnset,
            flags: FlagsUnset,
            question_count: 0,
            answer_count: 0,
            authoritative_count: 0,
            additional_count: 0,
        }
    }
}

impl HeaderBuilder<IdUnset, FlagsUnset> {
    /// A builder with every count at zero.
    pub fn new() -> (builder: Self)
        ensures
            builder.question_count == 0,
            builder.answer_count == 0,
            builder.authoritative_count == 0,
            builder.additional_count == 0,
    {
        HeaderBuilder::default()
    }

    pub fn id(self, id: u16) -> (builder: HeaderBuilder<IdSet, FlagsUnset>)
        ensures
            builder.id.0 == id,
            builder.question_count == self.question_count,
            builder.answer_count == self.answer_count,
            builder.authoritative_count == self.authoritative_count,
            builder.additional_count == self.additional_count,
    {
        HeaderBuilder {
            id: IdSet(id),
            flags: self.flags,
            question_count: self.question_count,
            answer_count: self.answer_count,
            authoritative_count: self.authoritative_count,
            additional_count: self.additional_count,
        }
    }
}

impl HeaderBuilder<IdSet, FlagsUnset> {
    pub fn flags(self, flags: HeaderFlags) -> (builder: HeaderBuilder<IdSet, FlagsSet>)
        ensures
            builder.id == self.id,
            builder.flags.0 == flags,
            builder.question_count == self.question_count,
            builder.answer_count == self.answer_count,
            builder.authoritative_count == self.authoritative_count,
            builder.additional_count == self.additional_count,
    {
        HeaderBuilder {
            id: self.id,
            flags: FlagsSet(flags),
            question_count: self.question_count,
            answer_count: self.answer_count,
            authoritative_count: self.authoritative_count,
            additional_count: self.additional_count,
        }
    }
}

impl HeaderBuilder<IdSet, FlagsSet> {
    pub fn question_count(self, question_count: u16) -> (builder: Self)
        ensures
            builder == (HeaderBuilder { question_count, ..self }),
    {
        let mut builder = self;
        builder.question_count = question_count;
        builder
    }

    pub fn answer_count(self, answer_count: u16) -> (builder: Self)
        ensures
            builder == (HeaderBuilder { answer_count, ..self }),
    {
        let mut builder = self;
        builder.answer_count = answer_count;
        builder
    }

    pub fn authoritative_count(self, authoritative_count: u16) -> (builder: Self)
        ensures
            builder == (HeaderBuilder { authoritative_count, ..self }),
    {
        let mut builder = self;
        builder.authoritative_count = authoritative_count;
        builder
    }

    pub fn additional_count(self, additional_count: u16) -> (builder: Self)
        ensures
            builder == (HeaderBuilder { additional_count, ..self }),
    {
        let mut builder = self;
        builder.additional_count = additional_count;
        builder
    }

    /// The header that the builder holds.
    pub fn build(self) -> (header: Header)
        ensures
            header == (Header {
                id: self.id.0,
                flags: self.flags.0,
                question_count: self.question_count,
                answer_count: self.answer_count,
                authoritative_count: self.authoritative_count,
                additional_count: self.additional_count,
            }),
    {
        Header {
            id: self.id.0,
            flags: self.flags.0,
            question_count: self.question_count,
            answer_count: self.answer_count,
            authoritative_count: self.authoritative_count,
            additional_count: self.additional_count,
        }
    }
}

} // verus!
