use dns_codec::packet::fqdn::{Fqdn, FqdnBuilder};
use dns_codec::packet::seder::deserializer::Deserialize;
use dns_codec::packet::seder::serializer::Serialize;
use dns_codec::packet::seder::{ToBytes, TryFromBytes};
use dns_codec::records::rdata::a::A;
use dns_codec::records::rdata::aaaa::AAAA;
use dns_codec::records::record_data::RecordData;

#[test]
fn writer_appends_big_endian_numbers() {
    let mut encoder = Serialize::new();

    encoder.write_u8(0xfe);
    encoder.write_u16(0x1234);
    encoder.write_u32(0x89abcdef);
    encoder.write_u16(0x00ff);
    encoder.write_u32(0x00000100);

    assert_eq!(
        encoder.bin_data(),
        [0xfe, 0x12, 0x34, 0x89, 0xab, 0xcd, 0xef, 0x00, 0xff, 0x00, 0x00, 0x01, 0x00]
    );
}

#[test]
fn writer_prefixes_a_label_with_its_length() {
    let mut encoder = Serialize::new();

    encoder.write_string("www");
    encoder.write_string("");
    encoder.write_label(&[0x61, 0x62]);
    encoder.write_n_bytes(vec![7, 8, 9]);
    encoder.write_n_bytes(vec![]);

    assert_eq!(encoder.bin_data(), [3, 0x77, 0x77, 0x77, 0, 2, 0x61, 0x62, 7, 8, 9]);
}

#[test]
fn writer_counts_the_length_of_a_long_label_modulo_256() {
    let mut encoder = Serialize::new();

    encoder.write_label(&[0x61; 258]);

    let bytes = encoder.bin_data();
    assert_eq!(bytes.len(), 259);
    assert_eq!(bytes[0], 2);
}

#[test]
fn dictionary_gives_the_offset_of_the_first_occurrence() {
    let mut encoder = Serialize::new();

    assert_eq!(encoder.set_name_compression(String::from("example.org")), None);
    encoder.write_u32(0);
    assert_eq!(encoder.set_name_compression(String::from("org")), None);
    encoder.write_u8(0);
    assert_eq!(encoder.set_name_compression(String::from("example.org")), Some(0));
    assert_eq!(encoder.set_name_compression(String::from("org")), Some(4));
    assert_eq!(encoder.compression_target(vec![0x6f, 0x72, 0x67]), Some(4));
    assert_eq!(encoder.set_name_compression(String::from("Org")), None);
    assert_eq!(encoder.set_name_compression(String::from("Org")), Some(5));
    assert_eq!(encoder.bin_data(), [0, 0, 0, 0, 0]);
}

#[test]
fn dictionary_enters_no_offset_that_a_pointer_cannot_hold() {
    let mut encoder = Serialize::new();
    encoder.write_n_bytes(vec![0; 0x3fff]);

    assert_eq!(encoder.set_name_compression(String::from("last")), None);
    encoder.write_u8(0);
    assert_eq!(encoder.set_name_compression(String::from("late")), None);
    assert_eq!(encoder.set_name_compression(String::from("last")), Some(0x3fff));
    assert_eq!(encoder.set_name_compression(String::from("late")), None);
}

#[test]
fn name_behind_the_reach_of_pointers_is_written_in_full_each_time() {
    let name = FqdnBuilder::new().generate_from_string(String::from("a.b")).build();
    let mut encoder = Serialize::new();
    encoder.write_n_bytes(vec![0; 0x4000]);

    name.to_bytes(&mut encoder);
    name.to_bytes(&mut encoder);

    let bytes = encoder.bin_data();
    assert_eq!(&bytes[0x4000..], &[1, 0x61, 1, 0x62, 0, 1, 0x61, 1, 0x62, 0]);
}

#[test]
fn name_is_written_with_a_pointer_to_its_longest_known_suffix() {
    let first = FqdnBuilder::new().generate_from_string(String::from("b.c")).build();
    let second = FqdnBuilder::new().generate_from_string(String::from("a.b.c")).build();
    let third = FqdnBuilder::new().generate_from_string(String::from("a.c")).build();
    let mut encoder = Serialize::new();

    first.to_bytes(&mut encoder);
    second.to_bytes(&mut encoder);
    second.to_bytes(&mut encoder);
    third.to_bytes(&mut encoder);

    assert_eq!(
        encoder.bin_data(),
        [1, 0x62, 1, 0x63, 0, 1, 0x61, 0xc0, 0x00, 0xc0, 0x05, 1, 0x61, 0xc0, 0x02]
    );
}

#[test]
fn name_without_labels_is_one_zero_byte() {
    let mut decoder = Deserialize::new(&[0]);
    let root = Fqdn::try_from_bytes(&mut decoder).unwrap();
    let mut encoder = Serialize::new();

    root.to_bytes(&mut encoder);
    root.to_bytes(&mut encoder);

    assert_eq!(root.to_owned_str(), "");
    assert_eq!(encoder.bin_data(), [0, 0]);
}

#[test]
fn record_data_are_written_behind_their_length() {
    let mut encoder = Serialize::new();

    RecordData::A(A::new(0x01020304)).to_bytes(&mut encoder);
    RecordData::UNKNOWN.to_bytes(&mut encoder);
    AAAA::new(0x000102030405060708090a0b0c0d0e0f).to_bytes(&mut encoder);

    assert_eq!(
        encoder.bin_data(),
        [0, 4, 1, 2, 3, 4, 0, 16, 0, 1, 2, 3, 4, 5, 6, 7, 8, 9, 10, 11, 12, 13, 14, 15]
    );
}
