use dns_codec::packet::fqdn::{Fqdn, FqdnError};
use dns_codec::packet::seder::deserializer::Deserialize;
use dns_codec::packet::seder::TryFromBytes;

#[test]
fn name_all_lowercase() {
    let packet_bytes: [u8; 20] = [
        0x03, 0x77, 0x77, 0x77, 0x06, 0x67, 0x6f, 0x6f, 0x67, 0x6c, 0x65, 0x03, 0x63, 0x6f,
        0x6d, 0x00, 0x00, 0x01, 0x00, 0x01,
    ];
    let expected = String::from("www.google.com");

    let mut decoder = Deserialize::new(&packet_bytes);
    let fqdn = Fqdn::try_from_bytes(&mut decoder).unwrap();

    assert_eq!(fqdn.to_owned_str(), expected);
}

#[test]
fn name_mixed_case() {
    let packet_bytes: [u8; 20] = [
        0x03, 0x77, 0x57, 0x77, 0x06, 0x67, 0x4f, 0x4f, 0x67, 0x6c, 0x65, 0x03, 0x63, 0x6f,
        0x6d, 0x00, 0x00, 0x01, 0x00, 0x01,
    ];
    let expected = String::from("www.google.com");

    let mut decoder = Deserialize::new(&packet_bytes);
    let fqdn = Fqdn::try_from_bytes(&mut decoder).unwrap();

    assert_eq!(fqdn.to_owned_str(), expected);
}

#[test]
fn fqdn_with_ptr_jump() {
    let packet_bytes: [u8; 35] = [
        0xf2, 0xe8, 0x81, 0x80, 0x00, 0x01, 0x00, 0x01, 0x00, 0x00, 0x00, 0x00, 0x03, 0x77,
        0x77, 0x77, 0x06, 0x67, 0x6f, 0x6f, 0x67, 0x6c, 0x65, 0x03, 0x63, 0x6f, 0x6d, 0x00,
        0x00, 0x01, 0x00, 0x01, 0xc0, 0x0c, 0x00,
    ];

    let expected = String::from("www.google.com");

    let decoder = Deserialize::new(&packet_bytes);
    let mut decoder = decoder.cheap_clone(32);

    let fqdn = Fqdn::try_from_bytes(&mut decoder).unwrap();

    assert_eq!(fqdn.to_owned_str(), expected);
}

#[test]
fn read_ptr_from_between() {
    let packet_bytes: [u8; 24] = [
        0x01, 0x61, 0x0c, 0x72, 0x6F, 0x6F, 0x74, 0x2d, 0x73, 0x65, 0x72, 0x76, 0x65, 0x72,
        0x73, 0x03, 0x6e, 0x65, 0x74, 0x00, // a.root-servers.net.
        0x01, 0x62, 0xc0, 0x02, // b.root-servers.net.
    ];

    let expected = String::from("b.root-servers.net");

    let decoder = Deserialize::new(&packet_bytes);
    let mut decoder = decoder.cheap_clone(20);

    let fqdn = Fqdn::try_from_bytes(&mut decoder).unwrap();

    assert_eq!(fqdn.to_owned_str(), expected);
}

#[test]
fn read_ptr_multi_jump() {
    let packet_bytes: [u8; 19] = [
        0x01, 0x61, 0x03, 0x66, 0x6F, 0x6F, 0x03, 0x63, 0x6F, 0x6D, 0x00, // a.foo.com.
        0x01, 0x62, 0xc0, 0x02, // b.foo.com.
        0x01, 0x64, 0xc0, 0x0b, // d.b.foo.com.
    ];

    let expected = String::from("d.b.foo.com");

    let decoder = Deserialize::new(&packet_bytes);
    let mut decoder = decoder.cheap_clone(15);

    let fqdn = Fqdn::try_from_bytes(&mut decoder).unwrap();

    assert_eq!(fqdn.to_owned_str(), expected);
}

#[test]
fn error_too_many_jumps() {
    let packet_bytes: [u8; 31] = [
        0x01, 0x61, 0x03, 0x66, 0x6F, 0x6F, 0x03, 0x63, 0x6F, 0x6D, 0x00, // a.foo.com.
        0x01, 0x62, 0xc0, 0x02, // b.foo.com.
        0x01, 0x64, 0xc0, 0x0b, // d.b.foo.com.
        0x01, 0x65, 0xc0, 0x0f, // e.d.b.foo.com.
        0x01, 0x66, 0xc0, 0x13, // f.e.d.b.foo.com.
        0x01, 0x67, 0xc0, 0x17, // g.f.e.d.b.foo.com
    ];

    let decoder = Deserialize::new(&packet_bytes);
    let mut decoder = decoder.cheap_clone(23);

    assert_eq!(Fqdn::try_from_bytes(&mut decoder), Err(FqdnError::TooManyRedirections(4)));
}

#[test]
fn error_invalid_ascii_char() {
    let packet_bytes: [u8; 20] = [
        0x03, 0x77, 0x77, 0x77, 0x06, 0xff, 0x6f, 0x6f, 0x67, 0x6c, 0x65, 0x03, 0x63, 0x6f,
        0x6d, 0x00, 0x00, 0x01, 0x00, 0x01,
    ];

    let mut decoder = Deserialize::new(&packet_bytes);

    assert_eq!(Fqdn::try_from_bytes(&mut decoder), Err(FqdnError::NotAsciiCharacter));
}

#[test]
fn error_malformed_length() {
    let packet_bytes: [u8; 20] = [
        0x03, 0x77, 0x77, 0x77, 0x46, 0x67, 0x6f, 0x6f, 0x67, 0x6c, 0x65, 0x03, 0x63, 0x6f,
        0x6d, 0x00, 0x00, 0x01, 0x00, 0x01,
    ];

    let mut decoder = Deserialize::new(&packet_bytes);

    assert_eq!(Fqdn::try_from_bytes(&mut decoder), Err(FqdnError::MalformedLenOrPtrInfo(0x46)));
}

#[test]
fn error_malformed_ptr() {
    let packet_bytes: [u8; 15] = [
        0x01, 0x61, 0x03, 0x66, 0x6F, 0x6F, 0x03, 0x63, 0x6F, 0x6D, 0x00, // a.foo.com.
        0x01, 0x62, 0x80, 0x02, // b.foo.com.
    ];

    let decoder = Deserialize::new(&packet_bytes);
    let mut decoder = decoder.cheap_clone(11);

    assert_eq!(Fqdn::try_from_bytes(&mut decoder), Err(FqdnError::MalformedLenOrPtrInfo(0x80)));
}

#[test]
fn error_exceeding_label_length() {
    let label: [u8; 2] = [0x01, 0x61];
    let label_counts = 130;

    let wire_data: Vec<u8> = label.iter().cloned().cycle().take(label_counts * label.len()).collect();

    let mut decoder = Deserialize::new(&wire_data);

    assert_eq!(Fqdn::try_from_bytes(&mut decoder), Err(FqdnError::ExceedingMaxNumberOfLabels));
}

#[test]
fn error_label_length_without_label() {
    let wire_data: [u8; 8] = [
        0x03, 0x77, 0x77, 0x77, 0x06, 0x067, 0x6f, 0x6f
    ];

    let mut decoder = Deserialize::new(&wire_data);

    assert_eq!(Fqdn::try_from_bytes(&mut decoder), Err(FqdnError::NotEnoughLabelData(6)));
}

#[test]
fn error_pointer_is_in_future() {
    let wire_data: [u8; 15] = [
        0x01, 0x61, 0x03, 0x66, 0x6F, 0x6F, 0x03, 0x63, 0x6F, 0x6D, 0x00, // a.foo.com.
        0x01, 0x62, 0xc0, 0x0f, // b.foo.com.
    ];

    let mut decoder = Deserialize::new(&wire_data);
    decoder = decoder.cheap_clone(11);

    assert_eq!(Fqdn::try_from_bytes(&mut decoder), Err(FqdnError::IncorrectPointerOffset))
}
