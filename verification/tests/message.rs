use dns_codec::packet::fqdn::FqdnBuilder;
use dns_codec::packet::headers::header::{Header, HeaderBuilder};
use dns_codec::packet::headers::header_flags::{HeaderFlagsBuilder, Opcode, Rcode, QR};
use dns_codec::packet::message::{Message, MessageBuilder};
use dns_codec::packet::question::{Question, QuestionBuilder};
use dns_codec::packet::record::{Record, RecordBuilder};
use dns_codec::packet::seder::deserializer::Deserialize;
use dns_codec::packet::seder::serializer::Serialize;
use dns_codec::records::rdata::a::A;
use dns_codec::records::record_class::RecordClass;
use dns_codec::records::record_data::RecordData;
use dns_codec::records::record_type::RecordType;
use dns_codec::packet::seder::{ToBytes, TryFromBytes};

fn get_response_header(id: u16) -> Header {
    let expected_header_flags = HeaderFlagsBuilder::new()
        .query_or_response(QR::Response)
        .opcode(Opcode::Query)
        .authoritative_answer(false)
        .truncation(false)
        .recursion_desired(true)
        .recursion_available(true)
        .response_code(Rcode::NoError)
        .build();

    HeaderBuilder::new()
        .id(id)
        .flags(expected_header_flags)
        .question_count(1)
        .answer_count(1)
        .authoritative_count(0)
        .additional_count(0)
        .build()
}

fn get_google_a_question() -> Question {
    let expected_qname = FqdnBuilder::new()
        .generate_from_string(String::from("www.google.com"))
        .build();

    QuestionBuilder::new()
        .question_name(expected_qname)
        .question_class(RecordClass::IN)
        .question_type(RecordType::A)
        .build()
}

// 172.217.14.196
fn get_sample_a_record() -> Record {
    let expected_name = FqdnBuilder::new()
        .generate_from_string(String::from("www.google.com"))
        .build();

    let data = A::new(u32::from_be_bytes([172, 217, 14, 196]));
    let record_data = RecordData::A(data);

    RecordBuilder::new()
        .owner_name(expected_name)
        .record_type(RecordType::A)
        .class(RecordClass::IN)
        .ttl(104)
        .data(record_data)
        .build()
}

#[test]
fn google_a_ques_answer() {
    let wire_data: [u8; 48] = [
        0xf2, 0xe8, 0x81, 0x80, 0x00, 0x01, 0x00, 0x01, 0x00, 0x00, 0x00, 0x00, 0x03, 0x77,
        0x77, 0x77, 0x06, 0x67, 0x6f, 0x6f, 0x67, 0x6c, 0x65, 0x03, 0x63, 0x6f, 0x6d, 0x00,
        0x00, 0x01, 0x00, 0x01, 0xc0, 0x0c, 0x00, 0x01, 0x00, 0x01, 0x00, 0x00, 0x00, 0x68,
        0x00, 0x04, 0xac, 0xd9, 0x0e, 0xc4,
    ];

    let expected_header = get_response_header(62184);

    let expected_question = get_google_a_question();

    let answer_records = vec![get_sample_a_record()];

    let expected_message = MessageBuilder::new()
        .header(expected_header)
        .question(expected_question)
        .answer(answer_records)
        .build();

    let mut decoder = Deserialize::new(&wire_data);

    let actual_message = Message::try_from_bytes(&mut decoder).unwrap();

    assert_eq!(actual_message, expected_message);
}

#[test]
fn serialize_google_response_message() {
    let expected_wire_data: [u8; 48] = [
        0xf2, 0xe8, 0x81, 0x80, 0x00, 0x01, 0x00, 0x01, 0x00, 0x00, 0x00, 0x00, 0x03, 0x77,
        0x77, 0x77, 0x06, 0x67, 0x6f, 0x6f, 0x67, 0x6c, 0x65, 0x03, 0x63, 0x6f, 0x6d, 0x00,
        0x00, 0x01, 0x00, 0x01, 0xc0, 0x0c, 0x00, 0x01, 0x00, 0x01, 0x00, 0x00, 0x00, 0x68,
        0x00, 0x04, 0xac, 0xd9, 0x0e, 0xc4,
    ];

    let expected_header = get_response_header(62184);

    let expected_question = get_google_a_question();

    let answer_records = vec![get_sample_a_record()];

    let expected_message = MessageBuilder::new()
        .header(expected_header)
        .question(expected_question)
        .answer(answer_records)
        .build();

    let mut encoder = Serialize::new();
    expected_message.to_bytes(&mut encoder);

    assert_eq!(encoder.bin_data(), expected_wire_data);
}
