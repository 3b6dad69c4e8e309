use dns_codec::packet::headers::header_flags::{
    HeaderFlagError, HeaderFlags, HeaderFlagsBuilder, Opcode, Rcode, QR,
};
use dns_codec::packet::seder::serializer::Serialize;
use dns_codec::packet::seder::ToBytes;

fn response_header_flag(aa: bool, tc: bool, rd: bool, ra: bool, rcode: Rcode) -> HeaderFlags {
    HeaderFlagsBuilder::new()
        .query_or_response(QR::Response)
        .opcode(Opcode::Query)
        .authoritative_answer(aa)
        .truncation(tc)
        .recursion_desired(rd)
        .recursion_available(ra)
        .response_code(rcode)
        .build()
}

#[test]
fn serialize_response_header_flag() {
    let expected_bin_data: Vec<u8> = vec![0x81, 0x80];

    let header_flags = response_header_flag(false, false, true, true, Rcode::NoError);

    let mut encoder = Serialize::new();
    header_flags.to_bytes(&mut encoder);

    assert_eq!(encoder.bin_data(), expected_bin_data);
}

#[test]
fn error_zero_flag_unset() {
    let header_flags: u16 = 0b0000_0000_0001_0000;

    assert_eq!(
        HeaderFlags::try_from(header_flags),
        Err(HeaderFlagError::ZeroFlagUnset)
    );
}

#[test]
fn error_query_with_ra() {
    let header_flags: u16 = 0b0000_0000_1000_0000;

    assert_eq!(
        HeaderFlags::try_from(header_flags),
        Err(HeaderFlagError::QueryWithRABitSet)
    );
}

#[test]
fn error_query_with_aa() {
    let header_flags: u16 = 0b0000_0100_0000_0000;

    assert_eq!(
        HeaderFlags::try_from(header_flags),
        Err(HeaderFlagError::QueryWithAABitSet)
    );
}

#[test]
fn error_query_with_tc() {
    let header_flags: u16 = 0b0000_0010_0000_0000;

    assert_eq!(
        HeaderFlags::try_from(header_flags),
        Err(HeaderFlagError::QueryWithTCBitSet)
    );
}

#[test]
fn mutate_tc_bit() {
    let mut header_flag = response_header_flag(false, false, true, true, Rcode::NoError);

    header_flag.truncation(true);

    assert!(header_flag.truncation);
}
