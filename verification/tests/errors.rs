use dns_codec::packet::fqdn::{Fqdn, FqdnError};
use dns_codec::packet::headers::header::{Header, HeaderError};
use dns_codec::packet::headers::header_flags::{HeaderFlagError, HeaderFlags, Opcode, Rcode, QR};
use dns_codec::packet::message::{decode_message, MessageError};
use dns_codec::packet::question::{Question, QuestionError};
use dns_codec::packet::record::{Record, RecordError};
use dns_codec::packet::seder::deserializer::{Deserialize, DeserializeError};
use dns_codec::packet::seder::TryFromBytes;
use dns_codec::parser::decoder::{Decoder, ParserError};
use dns_codec::records::rdata::a::A;
use dns_codec::records::rdata::aaaa::AAAA;
use dns_codec::records::record_class::{RecordClass, RecordClassError};
use dns_codec::records::record_data::{RecordData, RecordDataError};
use dns_codec::records::record_type::{RecordType, RecordTypeError};

#[test]
fn reader_fails_past_the_end_and_stays() {
    let bytes: [u8; 3] = [1, 2, 3];
    let mut decoder = Deserialize::new(&bytes);

    assert_eq!(decoder.read_u32(), Err(DeserializeError::TooMuchDataRequested(4)));
    assert_eq!(decoder.cursor(), 0);
    assert_eq!(decoder.read_u16(), Ok(0x0102));
    assert_eq!(decoder.read_u16(), Err(DeserializeError::TooMuchDataRequested(2)));
    assert_eq!(decoder.cursor(), 2);
    assert_eq!(decoder.read_u128(), Err(DeserializeError::TooMuchDataRequested(16)));
    assert_eq!(decoder.peek(), Ok(3));
    assert_eq!(decoder.read_u8(), Ok(3));
    assert_eq!(decoder.cursor(), 3);
    assert_eq!(decoder.peek(), Err(DeserializeError::ReaderIsPastTheDataBuffer));
    assert_eq!(decoder.read_u8(), Err(DeserializeError::TooMuchDataRequested(1)));
    assert_eq!(decoder.read_n_bytes(0), Err(DeserializeError::TooMuchDataRequested(0)));
    assert_eq!(decoder.cursor(), 3);
}

#[test]
fn reader_cloned_behind_the_end_only_fails() {
    let bytes: [u8; 2] = [1, 2];
    let mut decoder = Deserialize::new(&bytes).cheap_clone(9);

    assert_eq!(decoder.cursor(), 9);
    assert_eq!(decoder.peek(), Err(DeserializeError::ReaderIsPastTheDataBuffer));
    assert_eq!(decoder.read_u8(), Err(DeserializeError::TooMuchDataRequested(1)));
    assert_eq!(decoder.cursor(), 9);
}

#[test]
fn reader_reads_big_endian_numbers() {
    let bytes: [u8; 23] = [
        0xfe, 0x12, 0x34, 0x89, 0xab, 0xcd, 0xef, 0x00, 0x11, 0x22, 0x33, 0x44, 0x55, 0x66, 0x77,
        0x88, 0x99, 0xaa, 0xbb, 0xcc, 0xdd, 0xee, 0xff,
    ];
    let mut decoder = Deserialize::new(&bytes);

    assert_eq!(decoder.read_u8(), Ok(0xfe));
    assert_eq!(decoder.read_u16(), Ok(0x1234));
    assert_eq!(decoder.read_u32(), Ok(0x89abcdef));
    assert_eq!(decoder.read_u128(), Ok(0x00112233445566778899aabbccddeeff));
    assert_eq!(decoder.cursor(), 23);
}

#[test]
fn reader_hands_out_the_bytes_asked_for() {
    let bytes: [u8; 5] = [9, 8, 7, 6, 5];
    let mut decoder = Deserialize::new(&bytes).cheap_clone(1);

    assert_eq!(decoder.read_n_bytes(3), Ok(&bytes[1..4]));
    assert_eq!(decoder.cursor(), 4);
    assert_eq!(decoder.read_n_bytes(2), Err(DeserializeError::TooMuchDataRequested(2)));
    assert_eq!(decoder.read_n_bytes(1), Ok(&bytes[4..5]));
}

#[test]
fn owning_reader_says_what_is_left() {
    let mut decoder = Decoder::new(vec![1, 2, 3, 4, 5]);

    assert_eq!(decoder.read_u16(), Ok(0x0102));
    assert_eq!(
        decoder.read_u32(),
        Err(ParserError::TooMuchDataRequested { data_requested: 4, remaining_data: 3 })
    );
    assert_eq!(decoder.read_n_bytes(3).unwrap(), &[3, 4, 5]);
    assert_eq!(
        decoder.read_u8(),
        Err(ParserError::TooMuchDataRequested { data_requested: 1, remaining_data: 0 })
    );
    assert_eq!(
        decoder.read_n_bytes(0).unwrap_err(),
        ParserError::TooMuchDataRequested { data_requested: 0, remaining_data: 0 }
    );
}

#[test]
fn name_in_an_empty_buffer_lacks_its_length() {
    let mut decoder = Deserialize::new(&[]);

    assert_eq!(Fqdn::try_from_bytes(&mut decoder), Err(FqdnError::MissingLabelLength));
}

#[test]
fn name_without_end_lacks_its_length() {
    let bytes: [u8; 2] = [0x01, 0x61];
    let mut decoder = Deserialize::new(&bytes);

    assert_eq!(Fqdn::try_from_bytes(&mut decoder), Err(FqdnError::MissingLabelLength));
    assert_eq!(decoder.cursor(), 0);
}

#[test]
fn pointer_cut_short_lacks_its_offset() {
    let bytes: [u8; 3] = [0x01, 0x61, 0xc0];
    let mut decoder = Deserialize::new(&bytes);

    assert_eq!(Fqdn::try_from_bytes(&mut decoder), Err(FqdnError::MissingLabelPointerOffset));
}

#[test]
fn length_byte_without_any_label_data() {
    let bytes: [u8; 1] = [0x05];
    let mut decoder = Deserialize::new(&bytes);

    assert_eq!(Fqdn::try_from_bytes(&mut decoder), Err(FqdnError::NotEnoughLabelData(5)));
}

#[test]
fn flags_with_an_unknown_opcode() {
    assert_eq!(HeaderFlags::try_from(0x1800), Err(HeaderFlagError::MalformedOpcode));
    assert_eq!(HeaderFlags::try_from(0x7800), Err(HeaderFlagError::MalformedOpcode));
    assert_eq!(HeaderFlags::try_from(0x4000), Err(HeaderFlagError::MalformedOpcode));
    assert_eq!(Opcode::try_from(3), Err(HeaderFlagError::MalformedOpcode));
    assert_eq!(Opcode::try_from(2), Ok(Opcode::Status));
    assert_eq!(Opcode::try_from(1), Ok(Opcode::Iquery));
}

#[test]
fn flags_with_an_unknown_response_code() {
    assert_eq!(HeaderFlags::try_from(0x8006), Err(HeaderFlagError::MalformedRcode));
    assert_eq!(HeaderFlags::try_from(0x800f), Err(HeaderFlagError::MalformedRcode));
    assert_eq!(Rcode::try_from(6), Err(HeaderFlagError::MalformedRcode));
    assert_eq!(Rcode::try_from(5), Ok(Rcode::Refused));
    assert_eq!(Rcode::try_from(3), Ok(Rcode::NameError));
}

#[test]
fn flags_are_refused_in_order() {
    // opcode before response code, response code before the reserved bits,
    // the reserved bits before what a query may not claim
    assert_eq!(HeaderFlags::try_from(0x7fff), Err(HeaderFlagError::MalformedOpcode));
    assert_eq!(HeaderFlags::try_from(0x07ff), Err(HeaderFlagError::MalformedRcode));
    assert_eq!(HeaderFlags::try_from(0x07f5), Err(HeaderFlagError::ZeroFlagUnset));
    assert_eq!(HeaderFlags::try_from(0x0785), Err(HeaderFlagError::QueryWithRABitSet));
    assert_eq!(HeaderFlags::try_from(0x0705), Err(HeaderFlagError::QueryWithAABitSet));
    assert_eq!(HeaderFlags::try_from(0x0305), Err(HeaderFlagError::QueryWithTCBitSet));
    assert!(HeaderFlags::try_from(0x0105).is_ok());
    assert!(HeaderFlags::try_from(0x8785).is_ok());
}

#[test]
fn flags_of_a_response_hold_every_bit() {
    let flags = HeaderFlags::try_from(0x9785).unwrap();

    assert_eq!(flags.query_or_response, QR::Response);
    assert_eq!(flags.opcode, Opcode::Status);
    assert!(flags.authoritative_answer && flags.truncation);
    assert!(flags.recursion_desired && flags.recursion_available);
    assert_eq!(flags.response_code, Rcode::Refused);
    assert_eq!(QR::from(true), QR::Response);
    assert_eq!(QR::from(false), QR::Query);
}

#[test]
fn header_in_an_empty_buffer_lacks_its_id() {
    let mut decoder = Deserialize::new(&[]);

    assert_eq!(Header::try_from_bytes(&mut decoder), Err(HeaderError::MissingId));
}

#[test]
fn header_with_refused_flags() {
    let wire_data: [u8; 12] = [
        0xf2, 0xe8, 0x01, 0x80, 0x00, 0x01, 0x00, 0x00, 0x00, 0x00, 0x00, 0x00,
    ];
    let mut decoder = Deserialize::new(&wire_data);

    assert_eq!(Header::try_from_bytes(&mut decoder), Err(HeaderError::FlagError));
    assert_eq!(decoder.cursor(), 0);
}

#[test]
fn header_cut_short_in_each_count() {
    let wire_data: [u8; 12] = [
        0xf2, 0xe8, 0x01, 0x00, 0x00, 0x01, 0x00, 0x00, 0x00, 0x00, 0x00, 0x00,
    ];
    for length in [4, 5, 6, 7, 8, 9, 10, 11] {
        let mut decoder = Deserialize::new(&wire_data[..length]);
        assert_eq!(Header::try_from_bytes(&mut decoder), Err(HeaderError::InsufficientData(2)));
        assert_eq!(decoder.cursor(), 0);
    }
    let mut decoder = Deserialize::new(&wire_data[..1]);
    assert_eq!(Header::try_from_bytes(&mut decoder), Err(HeaderError::MissingId));
}

#[test]
fn question_errors_by_field() {
    let good: [u8; 9] = [0x03, 0x63, 0x6f, 0x6d, 0x00, 0x00, 0x1c, 0x00, 0xff];
    let read = Question::from_bytes(&mut Deserialize::new(&good)).unwrap();
    assert_eq!((read.qtype, read.qclass), (RecordType::AAAA, RecordClass::ANY));

    let bad_name: [u8; 9] = [0x03, 0x63, 0xff, 0x6d, 0x00, 0x00, 0x1c, 0x00, 0xff];
    let unknown_type: [u8; 9] = [0x03, 0x63, 0x6f, 0x6d, 0x00, 0x00, 0x02, 0x00, 0xff];
    let unknown_class: [u8; 9] = [0x03, 0x63, 0x6f, 0x6d, 0x00, 0x00, 0x1c, 0x00, 0x02];
    let cases: [(&[u8], QuestionError); 6] = [
        (&bad_name, QuestionError::NameReadingError),
        (&good[..5], QuestionError::TypeReadingError),
        (&good[..6], QuestionError::TypeReadingError),
        (&unknown_type, QuestionError::TypeReadingError),
        (&good[..8], QuestionError::ClassReadingError),
        (&unknown_class, QuestionError::ClassReadingError),
    ];
    for (bytes, error) in cases {
        let mut decoder = Deserialize::new(bytes);
        assert_eq!(Question::try_from_bytes(&mut decoder), Err(error));
        assert_eq!(decoder.cursor(), 0);
    }
}

#[test]
fn record_errors_by_field() {
    let good: [u8; 15] = [
        0x00, 0x00, 0x01, 0x00, 0x01, 0x00, 0x00, 0x00, 0x68, 0x00, 0x04, 0xac, 0xd9, 0x0e, 0xc4,
    ];
    assert!(Record::from_bytes(&mut Deserialize::new(&good)).is_ok());

    let bad_name: [u8; 2] = [0x41, 0x00];
    let mut unknown_type = good;
    unknown_type[2] = 0x05;
    let mut unknown_class = good;
    unknown_class[4] = 0x02;
    let mut wrong_length = good;
    wrong_length[10] = 0x10;
    let mut short_length = good;
    short_length[10] = 0x03;
    let cases: [(&[u8], RecordError); 10] = [
        (&bad_name, RecordError::InvalidName),
        (&good[..2], RecordError::InvalidType),
        (&unknown_type, RecordError::InvalidType),
        (&good[..4], RecordError::InvalidClass),
        (&unknown_class, RecordError::InvalidClass),
        (&good[..8], RecordError::InvalidTtl),
        (&good[..10], RecordError::InvalidDataLength),
        (&wrong_length, RecordError::InvalidDataLength),
        (&short_length, RecordError::InvalidDataLength),
        (&good[..14], RecordError::InvalidData),
    ];
    for (bytes, error) in cases {
        let mut decoder = Deserialize::new(bytes);
        assert_eq!(Record::try_from_bytes(&mut decoder), Err(error));
        assert_eq!(decoder.cursor(), 0);
    }
}

#[test]
fn record_data_errors_by_type() {
    let bytes: [u8; 15] = [0; 15];
    let mut decoder = Deserialize::new(&bytes);

    assert_eq!(
        RecordData::from_bytes(&mut decoder, &RecordType::AAAA),
        Err(RecordDataError::UnableToReadIpv6Address)
    );
    assert_eq!(AAAA::try_from_bytes(&mut decoder), Err(RecordDataError::UnableToReadIpv6Address));
    assert_eq!(decoder.cursor(), 0);
    let mut decoder = decoder.cheap_clone(12);
    assert_eq!(
        RecordData::from_bytes(&mut decoder, &RecordType::A),
        Err(RecordDataError::UnableToReadIpv4Address)
    );
    assert_eq!(A::try_from_bytes(&mut decoder), Err(RecordDataError::UnableToReadIpv4Address));
    assert_eq!(decoder.cursor(), 12);
    let mut decoder = decoder.cheap_clone(11);
    assert_eq!(RecordData::from_bytes(&mut decoder, &RecordType::A), Ok(RecordData::A(A::new(0))));
    assert_eq!(decoder.cursor(), 15);
}

#[test]
fn record_types_and_classes_by_number() {
    assert_eq!(RecordType::try_from(1), Ok(RecordType::A));
    assert_eq!(RecordType::try_from(28), Ok(RecordType::AAAA));
    assert_eq!(RecordType::try_from(0), Err(RecordTypeError::UnknownRecordType(0)));
    assert_eq!(RecordType::try_from(2), Err(RecordTypeError::UnknownRecordType(2)));
    assert_eq!(u16::from(RecordType::A), 1);
    assert_eq!(u16::from(RecordType::AAAA), 28);
    assert_eq!(RecordClass::try_from(1), Ok(RecordClass::IN));
    assert_eq!(RecordClass::try_from(3), Ok(RecordClass::CH));
    assert_eq!(RecordClass::try_from(4), Ok(RecordClass::HS));
    assert_eq!(RecordClass::try_from(255), Ok(RecordClass::ANY));
    assert_eq!(RecordClass::try_from(2), Err(RecordClassError::UnknownRecordClass(2)));
    assert_eq!(RecordClass::try_from(256), Err(RecordClassError::UnknownRecordClass(256)));
    for class in [RecordClass::IN, RecordClass::CH, RecordClass::HS, RecordClass::ANY] {
        assert_eq!(RecordClass::try_from(u16::from(class)), Ok(class));
    }
}

#[test]
fn message_errors_by_section() {
    let record: [u8; 16] = [
        0xc0, 0x0c, 0x00, 0x01, 0x00, 0x01, 0x00, 0x00, 0x00, 0x68, 0x00, 0x04, 0xac, 0xd9, 0x0e,
        0xc4,
    ];
    let mut wire_data: Vec<u8> = vec![
        0xf2, 0xe8, 0x81, 0x80, 0x00, 0x01, 0x00, 0x01, 0x00, 0x01, 0x00, 0x01, 0x03, 0x63, 0x6f,
        0x6d, 0x00, 0x00, 0x01, 0x00, 0x01,
    ];
    for _ in 0..3 {
        wire_data.extend(record);
    }
    let message = decode_message(&wire_data).unwrap();
    assert_eq!(message.answer_records, message.authority_records);
    assert_eq!(message.answer_records, message.additional_records);

    assert_eq!(decode_message(&wire_data[..11]), Err(MessageError::InvalidHeader));
    assert_eq!(decode_message(&wire_data[..20]), Err(MessageError::InvalidQuestion));
    assert_eq!(decode_message(&wire_data[..36]), Err(MessageError::InvalidAnswer));
    assert_eq!(decode_message(&wire_data[..52]), Err(MessageError::InvalidAuthority));
    assert_eq!(decode_message(&wire_data[..68]), Err(MessageError::InvalidAdditional));
}

#[test]
fn message_may_be_followed_by_more_bytes() {
    let mut wire_data: Vec<u8> = vec![
        0xf2, 0xe8, 0x01, 0x00, 0x00, 0x01, 0x00, 0x00, 0x00, 0x00, 0x00, 0x00, 0x03, 0x63, 0x6f,
        0x6d, 0x00, 0x00, 0x01, 0x00, 0x01,
    ];
    let message = decode_message(&wire_data).unwrap();
    wire_data.extend([0xde, 0xad]);

    assert_eq!(decode_message(&wire_data), Ok(message));
}
