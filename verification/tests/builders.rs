use dns_codec::packet::fqdn::FqdnBuilder;
use dns_codec::packet::headers::header::HeaderBuilder;
use dns_codec::packet::headers::header_flags::{
    HeaderFlags, HeaderFlagsBuilder, Opcode, Rcode, QR,
};
use dns_codec::packet::message::MessageBuilder;
use dns_codec::packet::question::QuestionBuilder;
use dns_codec::packet::record::RecordBuilder;
use dns_codec::records::rdata::aaaa::AAAA;
use dns_codec::records::record_class::RecordClass;
use dns_codec::records::record_data::RecordData;
use dns_codec::records::record_type::RecordType;

#[test]
fn flags_of_a_query_are_built_from_one_flag() {
    let flags = HeaderFlagsBuilder::new().query().recursion_desired(false).build();

    assert_eq!(flags, HeaderFlags::default());
    assert_eq!(flags.to_word(), 0);
    assert_eq!(HeaderFlags::builder().query().recursion_desired(true).build().to_word(), 0x0100);
    assert_eq!((QR::default(), Opcode::default(), Rcode::default()), (QR::Query, Opcode::Query, Rcode::NoError));
}

#[test]
fn flags_are_built_field_by_field() {
    let flags = HeaderFlagsBuilder::new()
        .query_or_response(QR::Response)
        .opcode(Opcode::Iquery)
        .authoritative_answer(true)
        .truncation(true)
        .recursion_desired(false)
        .recursion_available(true)
        .response_code(Rcode::NotImplemented)
        .build();

    assert_eq!(flags.to_word(), 0x8000 | 0x0800 | 0x0400 | 0x0200 | 0x0080 | 4);
    assert_eq!(HeaderFlags::try_from(0x8e84), Ok(flags));
}

#[test]
fn header_counts_are_zero_unless_given() {
    let flags = HeaderFlags::default();
    let header = HeaderBuilder::new().id(9).flags(flags).answer_count(3).build();

    assert_eq!(header.id(), 9);
    assert_eq!(*header.flags(), flags);
    assert_eq!(header.question_count(), 0);
    assert_eq!(header.answer_count(), 3);
    assert_eq!(header.authority_count(), 0);
    assert_eq!(header.additional_count(), 0);
}

#[test]
fn question_and_record_are_in_class_in_unless_told() {
    let name = FqdnBuilder::new().generate_from_string(String::from("example.org")).build();
    let question = QuestionBuilder::new()
        .question_name(name.clone())
        .question_type(RecordType::AAAA)
        .build();
    let record = RecordBuilder::new()
        .owner_name(name.clone())
        .record_type(RecordType::AAAA)
        .data(RecordData::AAAA(AAAA::new(1)))
        .build();

    assert_eq!(question.qclass, RecordClass::IN);
    assert_eq!(question.qname, name);
    assert_eq!(record.class, RecordClass::IN);
    assert_eq!(record.ttl, 0);
    assert_eq!(record.owner_name, name);
    assert_eq!(record.data, RecordData::AAAA(AAAA::new(1)));
}

#[test]
fn message_sections_are_empty_unless_given() {
    let name = FqdnBuilder::new().generate_from_string(String::from("example.org")).build();
    let question = QuestionBuilder::new()
        .question_name(name)
        .question_type(RecordType::A)
        .question_class(RecordClass::HS)
        .build();
    let header = HeaderBuilder::new().id(1).flags(HeaderFlags::default()).question_count(1).build();

    let message = MessageBuilder::new().header(header).question(question).build();

    assert_eq!(message.header, header);
    assert_eq!(message.question.qclass, RecordClass::HS);
    assert!(message.answer_records.is_empty());
    assert!(message.authority_records.is_empty());
    assert!(message.additional_records.is_empty());
}
