use dns_codec::parser::decoder::{Decoder, ParserError};

#[test]
fn read_bytes() {
    let packet_bytes = vec![0xf2, 0xe8, 0x01, 0x00, 0x00, 0x01, 0x00];
    let mut decoder = Decoder::new(packet_bytes);

    let u8_bytes = decoder.read_u8().expect("Failed to read 1 byte");
    assert_eq!(u8_bytes, 0xf2);

    let u16_bytes = decoder.read_u16().expect("Failed to read 2 bytes");
    assert_eq!(u16_bytes, 0xe801);

    let u32_bytes = decoder.read_u32().expect("Failed to read 4 bytes");
    assert_eq!(u32_bytes, 0x00000100);
}

#[test]
fn read_bytes_fail() {
    let packet_bytes = vec![0x00];
    let mut decoder = Decoder::new(packet_bytes);

    let bytes = decoder.read_n_bytes(10).expect_err("Failed to read 10 bytes");
    assert_eq!(bytes, ParserError::TooMuchDataRequested {
        data_requested: 10,
        remaining_data: 1
    });
}
