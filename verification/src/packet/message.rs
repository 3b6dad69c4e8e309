//! A whole message: the header, one question, and the answer, authority
//! and additional records.

use vstd::prelude::*;
use crate::packet::headers::header::{header_bytes, parse_header, Header};
use crate::packet::question::{parse_question, write_question, Question, QuestionView};
use crate::packet::record::{parse_record, write_record, Record, RecordView};
use crate::packet::seder::deserializer::Deserialize;
use crate::packet::seder::serializer::{Serialize, WireState};
use crate::packet::seder::{ToBytes, TryFromBytes};

verus! {

/// The section of a message that could not be read.
#[derive(Debug, PartialEq, Eq, Clone, Copy, Structural)]
pub enum MessageError {
    InvalidHeader,
    InvalidQuestion,
    InvalidAnswer,
    InvalidAuthority,
    InvalidAdditional,
}

pub type MessageResult = Result<Message, MessageError>;

/// A message.
#[derive(Debug, PartialEq)]
pub struct Message {
    pub header: Header,
    pub question: Question,
    pub answer_records: Vec<Record>,
    pub authority_records: Vec<Record>,
    pub additional_records: Vec<Record>,
}

/// A message, as mathematics.
pub struct MessageView {
    pub header: Header,
    pub question: QuestionView,
    pub answer_records: Seq<RecordView>,
    pub authority_records: Seq<RecordView>,
    pub additional_records: Seq<RecordView>,
}

/// The records that a list holds, as mathematics.
pub open spec fn record_views(records: Seq<Record>) -> Seq<RecordView> {
    Seq::new(records.len(), |i: int| records[i]@)
}

impl View for Message {
    type V = MessageView;

    open spec fn view(&self) -> MessageView {
        MessageView {
            header: self.header,
            question: self.question@,
            answer_records: record_views(self.answer_records@),
            authority_records: record_views(self.authority_records@),
            additional_records: record_views(self.additional_records@),
        }
    }
}

/// `records`, then the `count` records that stand one behind the other from
/// `position` on, and the offset behind the last; nothing where one of them
/// cannot be read.
pub open spec fn parse_records(
    buffer: Seq<u8>,
    position: nat,
    count: nat,
    records: Seq<RecordView>,
) -> Option<(Seq<RecordView>, nat)>
    decreases count,
{
    if count == 0 {
        Some((records, position))
    } else {
        match parse_record(buffer, position) {
            Err(_) => None,
            Ok((record, next)) => parse_records(
                buffer,
                next,
                (count - 1) as nat,
                records.push(record),
            ),
        }
    }
}

/// The message that stands at `position`, and the offset behind it: the
/// header, the question, and as many records in each section as the header
/// says. The first section that cannot be read decides the error.
pub open spec fn parse_message(buffer: Seq<u8>, position: nat) -> Result<
    (MessageView, nat),
    MessageError,
> {
    match parse_header(buffer, position) {
        Err(_) => Err(MessageError::InvalidHeader),
        Ok((header, after_header)) => match parse_question(buffer, after_header) {
            Err(_) => Err(MessageError::InvalidQuestion),
            Ok((question, after_question)) => match parse_records(
                buffer,
                after_question,
                header.answer_count as nat,
                Seq::empty(),
            ) {
                None => Err(MessageError::InvalidAnswer),
                Some((answer_records, after_answers)) => match parse_records(
                    buffer,
                    after_answers,
                    header.authoritative_count as nat,
                    Seq::empty(),
                ) {
                    None => Err(MessageError::InvalidAuthority),
                    Some((authority_records, after_authorities)) => match parse_records(
                        buffer,
                        after_authorities,
                        header.additional_count as nat,
                        Seq::empty(),
                    ) {
                        None => Err(MessageError::InvalidAdditional),
                        Some((additional_records, next)) => Ok(
                            (
                                MessageView {
                                    header,
                                    question,
                                    answer_records,
                                    authority_records,
                                    additional_records,
                                },
                                next,
                            ),
                        ),
                    },
                },
            },
        },
    }
}

/// The message that a buffer holds from its start on.
pub open spec fn decode(bytes: Seq<u8>) -> Result<MessageView, MessageError> {
    match parse_message(bytes, 0) {
        Ok((message, _)) => Ok(message),
        Err(e) => Err(e),
    }
}

/// The state after the records are written, one behind the other.
pub open spec fn write_records(state: WireState, records: Seq<RecordView>) -> WireState
    decreases records.len(),
{
    if records.len() == 0 {
        state
    } else {
        write_records(write_record(state, records[0]), records.drop_first())
    }
}

/// The state after a message is written: the header, the question, and the
/// records of the three sections, all with one dictionary of names.
pub open spec fn write_message(state: WireState, message: MessageView) -> WireState {
    write_records(
        write_records(
            write_records(
                write_question(state.write(header_bytes(message.header)), message.question),
                message.answer_records,
            ),
            message.authority_records,
        ),
        message.additional_records,
    )
}

/// The bytes of a message that is written into an empty buffer.
pub open spec fn encode(message: MessageView) -> Seq<u8> {
    write_message(WireState::empty(), message).output
}

/// Reads `count` records, one behind the other. On failure the reader stays
/// where it was.
fn read_records(decoder: &mut Deserialize, count: u16) -> (result: Option<Vec<Record>>)
    ensures
        final(decoder).buffer() == old(decoder).buffer(),
        old(decoder).wf() ==> final(decoder).wf(),
        match result {
            Some(records) => parse_records(
                old(decoder).buffer(),
                old(decoder).position(),
                count as nat,
                Seq::empty(),
            ) == Some((record_views(records@), final(decoder).position())),
            None => parse_records(
                old(decoder).buffer(),
                old(decoder).position(),
                count as nat,
                Seq::empty(),
            ) is None && final(decoder).position() == old(decoder).position(),
        },
{
    let mut reader: Deserialize = *decoder;
    let mut records: Vec<Record> = Vec::new();
    let mut i: u16 = 0;
    assert(record_views(records@) =~= Seq::<RecordView>::empty());
    while i < count
        invariant
            i <= count,
            *decoder == *old(decoder),
            reader.buffer() == decoder.buffer(),
            decoder.wf() ==> reader.wf(),
            parse_records(decoder.buffer(), decoder.position(), count as nat, Seq::empty())
                == parse_records(
                reader.buffer(),
                reader.position(),
                (count - i) as nat,
                record_views(records@),
            ),
        decreases count - i,
    {
        let record = match Record::from_bytes(&mut reader) {
            Ok(record) => record,
            Err(_) => {
                return None;
            },
        };
        let ghost before = record_views(records@);
        records.push(record);
        assert(record_views(records@) =~= before.push(record@));
        i += 1;
    }
    *decoder = reader;
    Some(records)
}

/// Writes the records, one behind the other.
fn write_all(records: &Vec<Record>, encoder: &mut Serialize)
    ensures
        final(encoder)@ == write_records(old(encoder)@, record_views(records@)),
{
    let ghost all = record_views(records@);
    let mut i: usize = 0;
    assert(all.subrange(0, all.len() as int) =~= all);
    while i < records.len()
        invariant
            i <= records@.len(),
            all == record_views(records@),
            write_records(old(encoder)@, all) == write_records(
                encoder@,
                all.subrange(i as int, all.len() as int),
            ),
        decreases records@.len() - i,
    {
        let ghost rest = all.subrange(i as int, all.len() as int);
        assert(rest.drop_first() =~= all.subrange(i + 1, all.len() as int));
        assert(rest[0] == records@[i as int]@);
        records[i].to_bytes(encoder);
        i += 1;
    }
}

impl TryFromBytes for Message {
    type Error = MessageError;

    open spec fn reads(
        buffer: Seq<u8>,
        position: nat,
        result: Result<Self, MessageError>,
        next: nat,
    ) -> bool {
        match result {
            Ok(message) => parse_message(buffer, position) == Ok::<(MessageView, nat), MessageError>(
                (message@, next),
            ),
            Err(e) => parse_message(buffer, position) == Err::<(MessageView, nat), MessageError>(e)
                && next == position,
        }
    }

    /// Reads a message at the reader's position. On failure the reader
    /// stays where it was.
    fn try_from_bytes(decoder: &mut Deserialize) -> (result: MessageResult)
    {
        let mut reader: Deserialize = *decoder;
        let header = match Header::try_from_bytes(&mut reader) {
            Ok(header) => header,
            Err(_) => {
                return Err(MessageError::InvalidHeader);
            },
        };
        let question = match Question::try_from_bytes(&mut reader) {
            Ok(question) => question,
            Err(_) => {
                return Err(MessageError::InvalidQuestion);
            },
        };
        let answers = match read_records(&mut reader, header.answer_count()) {
            Some(records) => records,
            None => {
                return Err(MessageError::InvalidAnswer);
            },
        };
        let authorities = match read_records(&mut reader, header.authority_count()) {
            Some(records) => records,
            None => {
                return Err(MessageError::InvalidAuthority);
            },
        };
        let additional = match read_records(&mut reader, header.additional_count()) {
            Some(records) => records,
            None => {
                return Err(MessageError::InvalidAdditional);
            },
        };
        let message = MessageBuilder::new().header(header).question(question).answer(
            answers,
        ).authority(authorities).additional(additional).build();
        *decoder = reader;
        Ok(message)
    }
}

impl ToBytes for Message {
    open spec fn written(&self, state: WireState) -> WireState {
        write_message(state, self@)
    }

    /// Writes the message. Names in all sections share the writer's
    /// dictionary, so that a name met before is written as a pointer.
    fn to_bytes(&self, encoder: &mut Serialize)
    {
        self.header.to_bytes(encoder);
        self.question.to_bytes(encoder);
        write_all(&self.answer_records, encoder);
        write_all(&self.authority_records, encoder);
        write_all(&self.additional_records, encoder);
    }
}

/// Reads the message that `bytes` holds from its start on.
pub fn decode_message(bytes: &[u8]) -> (result: MessageResult)
    ensures
        match result {
            Ok(message) => decode(bytes@) == Ok::<MessageView, MessageError>(message@),
            Err(e) => decode(bytes@) == Err::<MessageView, MessageError>(e),
        },
{
    let mut decoder = Deserialize::new(bytes);
    Message::try_from_bytes(&mut decoder)
}

/// The bytes of `message`, written into an empty buffer.
pub fn encode_message(message: &Message) -> (bytes: Vec<u8>)
    ensures
        bytes@ == encode(message@),
{
    let mut encoder = Serialize::new();
    message.to_bytes(&mut encoder);
    encoder.bin_data()
}

/// The state of a builder that has no header yet.
pub struct HeaderUnset;

/// The state of a builder that has this header.
pub struct HeaderSet(pub Header);

/// Whether a [`MessageBuilder`] has a header.
pub trait HeaderState {

}

impl HeaderState for HeaderUnset {

}

impl HeaderState for HeaderSet {

}

/// The state of a builder that has no question yet.
pub struct QuestionUnset;

/// The state of a builder that has this question.
pub struct QuestionSet(pub Question);

/// Whether a [`MessageBuilder`] has a question.
pub trait QuestionState {

}

impl QuestionState for QuestionUnset {

}

impl QuestionState for QuestionSet {

}

/// Builds a message: first the header, then the question; the records of
/// each section at any time. A section that is not given is empty.
pub struct MessageBuilder<H: HeaderState, Q: QuestionState> {
    pub header: H,
    pub question: Q,
    pub answer_records: Vec<Record>,
    pub authority_records: Vec<Record>,
    pub additional_records: Vec<Record>,
}

impl Default for MessageBuilder<HeaderUnset, QuestionUnset> {
    /// A builder with three empty sections.
    fn default() -> (builder: Self)
        ensures
            builder.answer_records@ == Seq::<Record>::empty(),
            builder.authority_records@ == Seq::<Record>::empty(),
            builder.additional_records@ == Seq::<Record>::empty(),
    {
        MessageBuilder {
            header: HeaderUnset,
            question: QuestionUnset,
            answer_records: Vec::new(),
            authority_records: Vec::new(),
            additional_records: Vec::new(),
        }
    }
}

impl MessageBuilder<HeaderUnset, QuestionUnset> {
    /// A builder with three empty sections.
    pub fn new() -> (builder: Self)
        ensures
            builder.answer_records@ == Seq::<Record>::empty(),
            builder.authority_records@ == Seq::<Record>::empty(),
            builder.additional_records@ == Seq::<Record>::empty(),
    {
        MessageBuilder::default()
    }

    pub fn header(self, header: Header) -> (builder: MessageBuilder<HeaderSet, QuestionUnset>)
        ensures
            builder.header.0 == header,
            builder.answer_records == self.answer_records,
            builder.authority_records == self.authority_records,
            builder.additional_records == self.additional_records,
    {
        MessageBuilder {
            header: HeaderSet(header),
            question: self.question,
            answer_records: self.answer_records,
            authority_records: self.authority_records,
            additional_records: self.additional_records,
        }
    }
}

impl MessageBuilder<HeaderSet, QuestionUnset> {
    pub fn question(self, question: Question) -> (builder: MessageBuilder<HeaderSet, QuestionSet>)
        ensures
            builder.header == self.header,
            builder.question.0 == question,
            builder.answer_records == self.answer_records,
            builder.authority_records == self.authority_records,
            builder.additional_records == self.additional_records,
    {
        MessageBuilder {
            header: self.header,
            question: QuestionSet(question),
            answer_records: self.answer_records,
            authority_records: self.authority_records,
            additional_records: self.additional_records,
        }
    }
}

impl MessageBuilder<HeaderSet, QuestionSet> {
    /// The message that the builder holds.
    pub fn build(self) -> (message: Message)
        ensures
            message == (Message {
                header: self.header.0,
                question: self.question.0,
                answer_records: self.answer_records,
                authority_records: self.authority_records,
                additional_records: self.additional_records,
            }),
    {
        Message {
            header: self.header.0,
            question: self.question.0,
            answer_records: self.answer_records,
            authority_records: self.authority_records,
            additional_records: self.additional_records,
        }
    }
}

impl<H: HeaderState, Q: QuestionState> MessageBuilder<H, Q> {
    pub fn answer(self, answer: Vec<Record>) -> (builder: Self)
        ensures
            builder.header == self.header,
            builder.question == self.question,
            builder.answer_records == answer,
            builder.authority_records == self.authority_records,
            builder.additional_records == self.additional_records,
    {
        MessageBuilder {
            header: self.header,
            question: self.question,
            answer_records: answer,
            authority_records: self.authority_records,
            additional_records: self.additional_records,
        }
    }

    pub fn authority(self, authority: Vec<Record>) -> (builder: Self)
        ensures
            builder.header == self.header,
            builder.question == self.question,
            builder.answer_records == self.answer_records,
            builder.authority_records == authority,
            builder.additional_records == self.additional_records,
    {
        MessageBuilder {
            header: self.header,
            question: self.question,
            answer_records: self.answer_records,
            authority_records: authority,
            additional_records: self.additional_records,
        }
    }

    pub fn additional(self, additional: Vec<Record>) -> (builder: Self)
        ensures
            builder.header == self.header,
            builder.question == self.question,
            builder.answer_records == self.answer_records,
            builder.authority_records == self.authority_records,
            builder.additional_records == additional,
    {
        MessageBuilder {
            header: self.header,
            question: self.question,
            answer_records: self.answer_records,
            authority_records: self.authority_records,
            additional_records: additional,
        }
    }
}

} // verus!
