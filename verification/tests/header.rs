use dns_codec::packet::bin_reader::BinReader;
use dns_codec::packet::headers::header::{Header, HeaderBuilder, HeaderError};
use dns_codec::packet::headers::header_flags::{HeaderFlags, HeaderFlagsBuilder, Opcode, Rcode, QR};
use dns_codec::packet::seder::deserializer::Deserialize;
use dns_codec::packet::seder::serializer::Serialize;
use dns_codec::packet::seder::{ToBytes, TryFromBytes};

fn generate_query_header_flags(rd: bool) -> HeaderFlags {
    HeaderFlagsBuilder::new().query().recursion_desired(rd).build()
}

fn generate_response_header_flag(aa: bool, tc: bool, rd: bool, ra: bool, rcode: Rcode) -> HeaderFlags {
    HeaderFlagsBuilder::new()
        .query_or_response(QR::Response)
        .opcode(Opcode::Query)
        .authoritative_answer(aa)
        .truncation(tc)
        .recursion_desired(rd)
        .recursion_available(ra)
        .response_code(rcode)
        .build()
}

#[test]
fn read_query_header() {
    let packet_bytes: [u8; 12] = [
        0xf2, 0xe8, 0x01, 0x00, 0x00, 0x01, 0x00, 0x00, 0x00, 0x00, 0x00, 0x00,
    ];

    let expected_header_flags = generate_query_header_flags(true);

    let expected_header = HeaderBuilder::new()
        .id(62184)
        .flags(expected_header_flags)
        .question_count(1)
        .answer_count(0)
        .authoritative_count(0)
        .additional_count(0)
        .build();

    let mut decoder = Deserialize::new(&packet_bytes);
    let header = Header::try_from_bytes(&mut decoder).unwrap();

    assert_eq!(header, expected_header);
}

#[test]
fn header_with_max_id() {
    let packet_bytes: [u8; 12] = [
        0xff, 0xff, 0x01, 0x00, 0x00, 0x01, 0x00, 0x00, 0x00, 0x00, 0x00, 0x00,
    ];

    let expected_header_flags = generate_query_header_flags(true);

    let expected_header = HeaderBuilder::new()
        .id(65535)
        .flags(expected_header_flags)
        .question_count(1)
        .answer_count(0)
        .authoritative_count(0)
        .additional_count(0)
        .build();

    let mut decoder = Deserialize::new(&packet_bytes);
    let header = Header::try_from_bytes(&mut decoder).unwrap();

    assert_eq!(header, expected_header);
}

#[test]
fn read_response_header() {
    let packet_bytes: [u8; 12] = [
        0xf2, 0xe8, 0x81, 0x80, 0x00, 0x01, 0x00, 0x01, 0x00, 0x00, 0x00, 0x00,
    ];

    let expected_header_flags =
        generate_response_header_flag(false, false, true, true, Rcode::NoError);

    let expected_header = HeaderBuilder::new()
        .id(62184)
        .flags(expected_header_flags)
        .question_count(1)
        .answer_count(1)
        .authoritative_count(0)
        .additional_count(0)
        .build();

    let mut decoder = Deserialize::new(&packet_bytes);
    let header = Header::try_from_bytes(&mut decoder).unwrap();

    assert_eq!(header, expected_header);
}

#[test]
fn error_header_insufficient_data() {
    let packet_bytes: [u8; 2] = [0xf2, 0xe8];

    let mut decoder = Deserialize::new(&packet_bytes);

    assert_eq!(Header::try_from_bytes(&mut decoder), Err(HeaderError::InsufficientData(2)));
}

#[test]
fn error_multi_question() {
    let wire_data: [u8; 12] = [
        0xf2, 0xe8, 0x01, 0x00, 0x00, 0x04, 0x00, 0x00, 0x00, 0x00, 0x00, 0x00,
    ];

    let mut decoder = Deserialize::new(&wire_data);

    assert_eq!(Header::try_from_bytes(&mut decoder), Err(HeaderError::IncorrectQuestionCount(4)));
}

#[test]
fn serialize_query_header() {
    let expected_packet_bytes: [u8; 12] = [
        0xf2, 0xe8, 0x01, 0x00, 0x00, 0x01, 0x00, 0x00, 0x00, 0x00, 0x00, 0x00,
    ];

    let header_flags = generate_query_header_flags(true);

    let header = HeaderBuilder::new()
        .id(62184)
        .flags(header_flags)
        .question_count(1)
        .answer_count(0)
        .authoritative_count(0)
        .additional_count(0)
        .build();

    let mut encoder = Serialize::new();
    header.to_bytes(&mut encoder);

    assert_eq!(encoder.bin_data(), expected_packet_bytes)
}

#[test]
fn read_query_header_success() {
    let packet_bytes: [u8; 12] = [
        0xf2, 0xe8, 0x01, 0x00, 0x00, 0x01, 0x00, 0x00, 0x00, 0x00, 0x00, 0x00,
    ];

    let expected_header_flags = HeaderFlagsBuilder::new()
        .query_or_response(QR::Query)
        .opcode(Opcode::Query)
        .authoritative_answer(false)
        .truncation(false)
        .recursion_desired(true)
        .recursion_available(false)
        .response_code(Rcode::NoError)
        .build();

    let expected_header = HeaderBuilder::new()
        .id(62184)
        .flags(expected_header_flags)
        .question_count(1)
        .answer_count(0)
        .authoritative_count(0)
        .additional_count(0)
        .build();

    let mut decoder = BinReader::new(&packet_bytes);
    let header = Header::from_bytes(&mut decoder).unwrap();

    assert_eq!(header, expected_header);
}

#[test]
fn read_response_header_success() {
    let packet_bytes: [u8; 12] = [
        0xf2, 0xe8, 0x81, 0x80, 0x00, 0x01, 0x00, 0x01, 0x00, 0x00, 0x00, 0x00,
    ];

    let expected_header_flags = HeaderFlagsBuilder::new()
        .query_or_response(QR::Response)
        .opcode(Opcode::Query)
        .authoritative_answer(false)
        .truncation(false)
        .recursion_desired(true)
        .recursion_available(true)
        .response_code(Rcode::NoError)
        .build();

    let expected_header = HeaderBuilder::new()
        .id(62184)
        .flags(expected_header_flags)
        .question_count(1)
        .answer_count(1)
        .authoritative_count(0)
        .additional_count(0)
        .build();

    let mut decoder = BinReader::new(&packet_bytes);
    let header = Header::from_bytes(&mut decoder).unwrap();

    assert_eq!(header, expected_header);
}

#[test]
fn read_header_insufficient_data() {
    let packet_bytes: [u8; 2] = [0xf2, 0xe8];

    let mut decoder = BinReader::new(&packet_bytes);

    assert!(Header::from_bytes(&mut decoder).is_err_and(|e| {
        match e {
            HeaderError::InsufficientData(_) => true,
            _ => false,
        }
    }));
}
