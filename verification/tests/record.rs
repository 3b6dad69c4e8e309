use dns_codec::packet::fqdn::FqdnBuilder;
use dns_codec::packet::record::{Record, RecordBuilder};
use dns_codec::packet::seder::deserializer::Deserialize;
use dns_codec::packet::seder::serializer::Serialize;
use dns_codec::records::rdata::a::A;
use dns_codec::records::rdata::aaaa::AAAA;
use dns_codec::records::record_class::RecordClass;
use dns_codec::records::record_data::RecordData;
use dns_codec::records::record_type::RecordType;

// 172.217.14.196
fn sample_a_record() -> Record {
    let expected_name = FqdnBuilder::new()
        .generate_from_string(String::from("www.google.com"))
        .build();

    let data = A::new(u32::from_be_bytes([172, 217, 14, 196]));
    let record_data = RecordData::A(data);

    RecordBuilder::new()
        .owner_name(expected_name)
        .record_type(RecordType::A)
        .class(RecordClass::IN)
        .ttl(104)
        .data(record_data)
        .build()
}

// 2607:f8b0:400a:80a::2004
fn sample_aaaa_record() -> Record {
    let expected_name = FqdnBuilder::new()
        .generate_from_string(String::from("www.google.com"))
        .build();

    let data = AAAA::new(0x2607_f8b0_400a_080a_0000_0000_0000_2004);
    let record_data = RecordData::AAAA(data);

    RecordBuilder::new()
        .owner_name(expected_name)
        .record_type(RecordType::AAAA)
        .class(RecordClass::IN)
        .ttl(201)
        .data(record_data)
        .build()
}

#[test]
fn read_a_record_successfully() {
    let packet_bytes: [u8; 36] = [
        0x03, 0x77, 0x77, 0x77, 0x06, 0x67, 0x6f, 0x6f, 0x67, 0x6c, 0x65, 0x03, 0x63, 0x6f,
        0x6d, 0x00, 0x00, 0x01, 0x00, 0x01, 0xc0, 0x00, 0x00, 0x01, 0x00, 0x01, 0x00, 0x00,
        0x00, 0x68, 0x00, 0x04, 0xac, 0xd9, 0x0e, 0xc4,
    ];

    let expected_record = sample_a_record();

    let decoder = Deserialize::new(&packet_bytes);
    let mut decoder = decoder.cheap_clone(20);

    let actual_record = Record::from_bytes(&mut decoder).unwrap();

    assert_eq!(actual_record, expected_record);
}

#[test]
fn read_aaaa_record_successfully() {
    let packet_bytes: [u8; 48] = [
        0x03, 0x77, 0x77, 0x77, 0x06, 0x67, 0x6f, 0x6f, 0x67, 0x6c, 0x65, 0x03, 0x63, 0x6f,
        0x6d, 0x00, 0x00, 0x01, 0x00, 0x01, 0xc0, 0x00, 0x00, 0x1c, 0x00, 0x01, 0x00, 0x00,
        0x00, 0xc9, 0x00, 0x10, 0x26, 0x07, 0xf8, 0xb0, 0x40, 0x0a, 0x08, 0x0a, 0x00, 0x00,
        0x00, 0x00, 0x00, 0x00, 0x20, 0x04,
    ];

    let expected_record = sample_aaaa_record();

    let decoder = Deserialize::new(&packet_bytes);
    let mut decoder = decoder.cheap_clone(20);

    let actual_record = Record::from_bytes(&mut decoder).unwrap();

    assert_eq!(actual_record, expected_record);
}

#[test]
fn read_multi_records_successfully() {
    let packet_bytes: [u8; 64] = [
        0x03, 0x77, 0x77, 0x77, 0x06, 0x67, 0x6f, 0x6f, 0x67, 0x6c, 0x65, 0x03, 0x63, 0x6f,
        0x6d, 0x00, 0x00, 0x01, 0x00, 0x01, 0xc0, 0x00, 0x00, 0x01, 0x00, 0x01, 0x00, 0x00,
        0x00, 0x68, 0x00, 0x04, 0xac, 0xd9, 0x0e, 0xc4, 0xc0, 0x00, 0x00, 0x1c, 0x00, 0x01,
        0x00, 0x00, 0x00, 0xc9, 0x00, 0x10, 0x26, 0x07, 0xf8, 0xb0, 0x40, 0x0a, 0x08, 0x0a,
        0x00, 0x00, 0x00, 0x00, 0x00, 0x00, 0x20, 0x04,
    ];

    let expected_records: Vec<Record> = vec![sample_a_record(), sample_aaaa_record()];
    let mut actual_records: Vec<Record> = Vec::with_capacity(2);

    let decoder = Deserialize::new(&packet_bytes);
    let mut decoder = decoder.cheap_clone(20);

    for _ in 0..2 {
        let actual_record = Record::from_bytes(&mut decoder).unwrap();
        actual_records.push(actual_record);
    }

    assert_eq!(actual_records, expected_records);
}

#[test]
fn serialize_a_record() {
    let expected_serialization: [u8; 30] = [
        0x03, 0x77, 0x77, 0x77, 0x06, 0x67, 0x6f, 0x6f, 0x67, 0x6c, 0x65, 0x03, 0x63, 0x6f,
        0x6d, 0x00, 0x00, 0x01, 0x00, 0x01, 0x00, 0x00, 0x00, 0x68, 0x00, 0x04, 0xac, 0xd9,
        0x0e, 0xc4,
    ];

    let record = sample_a_record();
    let mut encoder = Serialize::new();
    record.into_bytes(&mut encoder);

    assert_eq!(encoder.bin_data(), expected_serialization);
}

#[test]
fn serialize_aaaa_record() {
    let expected_serialization: [u8; 42] = [
        0x03, 0x77, 0x77, 0x77, 0x06, 0x67, 0x6f, 0x6f, 0x67, 0x6c, 0x65, 0x03, 0x63, 0x6f,
        0x6d, 0x00, 0x00, 0x1c, 0x00, 0x01, 0x00, 0x00, 0x00, 0xc9, 0x00, 0x10, 0x26, 0x07,
        0xf8, 0xb0, 0x40, 0x0a, 0x08, 0x0a, 0x00, 0x00, 0x00, 0x00, 0x00, 0x00, 0x20, 0x04,
    ];

    let record = sample_aaaa_record();
    let mut encoder = Serialize::new();
    record.into_bytes(&mut encoder);

    assert_eq!(encoder.bin_data(), expected_serialization);
}
