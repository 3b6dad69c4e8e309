use dns_codec::packet::fqdn::FqdnBuilder;
use dns_codec::packet::question::{Question, QuestionBuilder};
use dns_codec::packet::seder::deserializer::Deserialize;
use dns_codec::packet::seder::serializer::Serialize;
use dns_codec::records::record_class::RecordClass::IN;
use dns_codec::records::record_type::RecordType::A;
use dns_codec::packet::seder::ToBytes;

#[test]
fn read_question_success() {
    let packet_bytes: [u8; 20] = [
        0x03, 0x77, 0x77, 0x77, 0x06, 0x67, 0x6f, 0x6f, 0x67, 0x6c, 0x65, 0x03, 0x63, 0x6f,
        0x6d, 0x00, 0x00, 0x01, 0x00, 0x01,
    ];

    let expected_qname = FqdnBuilder::new()
        .generate_from_string(String::from("www.google.com"))
        .build();

    let expected_question = QuestionBuilder::new()
        .question_name(expected_qname)
        .question_class(IN)
        .question_type(A)
        .build();

    let mut decoder = Deserialize::new(&packet_bytes);
    let actual_question = Question::from_bytes(&mut decoder).unwrap();

    assert_eq!(actual_question, expected_question);
}

#[test]
fn serialize_question() {
    let expected_serialization: [u8; 20] = [
        0x03, 0x77, 0x77, 0x77, 0x06, 0x67, 0x6f, 0x6f, 0x67, 0x6c, 0x65, 0x03, 0x63, 0x6f,
        0x6d, 0x00, 0x00, 0x01, 0x00, 0x01,
    ];

    let qname = FqdnBuilder::new()
        .generate_from_string(String::from("www.google.com"))
        .build();

    let question = QuestionBuilder::new()
        .question_name(qname)
        .question_class(IN)
        .question_type(A)
        .build();

    let mut encoder = Serialize::new();
    question.to_bytes(&mut encoder);

    assert_eq!(encoder.bin_data(), expected_serialization);
}
