use varuint::varuint::SUSPICIOUS_VALUE;
use varuint::{ByteReader, DecodeError, VarUint, Width};

fn decode(bytes: Vec<u8>) -> Result<VarUint, DecodeError> {
    let mut reader = ByteReader::new(bytes);
    VarUint::read_from(&mut reader)
}

#[test]
fn test_varuint_u8() {
    let v: u8 = 250;

    let test = VarUint::from(v);
    assert_eq!(250, test.value);
    assert_eq!(1, test.to_bytes().len());
    assert_eq!(vec![0xfa], test.to_bytes());
}

#[test]
fn test_varuint_u16() {
    let v: u16 = 4444;

    let test = VarUint::from(v);
    assert_eq!(4444, test.value as u16);
    assert_eq!(3, test.to_bytes().len());
    assert_eq!(vec![0xfd, 0x5c, 0x11], test.to_bytes());

    let v: u16 = 515;
    let test = VarUint::from(v);
    assert_eq!(515, test.value as u16);
    assert_eq!(3, test.to_bytes().len());
    assert_eq!(vec![0xfd, 0x03, 0x02], test.to_bytes());
}

#[test]
fn test_varuint_u32() {
    let v: u32 = 3333333333;

    let test = VarUint::from(v);
    assert_eq!(3333333333, test.value);
    assert_eq!(v, test.value as u32);
    assert_eq!(5, test.to_bytes().len());
    assert_eq!(vec![0xfe, 0x55, 0xa1, 0xae, 0xc6], test.to_bytes());
}

#[test]
fn test_varuint_u64() {
    let v: u64 = 9000000000000000000;

    let test = VarUint::from(v);
    assert_eq!(9000000000000000000, test.value);
    assert_eq!(v, test.value as u64);
    assert_eq!(9, test.to_bytes().len());
    assert_eq!(
        vec![0xff, 0x00, 0x00, 0x84, 0xe2, 0x50, 0x6c, 0xe6, 0x7c],
        test.to_bytes()
    );
}

#[test]
fn test_varuint_read() {
    let mut cursor = ByteReader::new(vec![0xfe, 0x55, 0xa1, 0xae, 0xc6]);
    let test = VarUint::read_from(&mut cursor);
    assert_eq!(vec![0xfe, 0x55, 0xa1, 0xae, 0xc6], test.unwrap().to_bytes());
}

#[test]
fn small_values_are_one_byte_and_decode_back() {
    for v in [0u8, 1, 127, 252] {
        let bytes = VarUint::from(v).to_bytes();
        assert_eq!(vec![v], bytes);
        assert_eq!(Ok(VarUint::from(v)), decode(bytes));
    }
}

#[test]
fn sixteen_bit_values_are_marker_low_high() {
    for v in [253u16, 255, 256, 0x1234, 65535] {
        let bytes = VarUint::from(v).to_bytes();
        assert_eq!(vec![0xfd, (v & 0xff) as u8, (v >> 8) as u8], bytes);
        let back = decode(bytes).unwrap();
        assert_eq!(v as u64, back.value);
        assert_eq!(Width::U16, back.width);
    }
}

#[test]
fn thirty_two_bit_values_are_marker_and_four_bytes() {
    for v in [0u32, 65536, 0xdead_beef, u32::MAX] {
        let bytes = VarUint::from(v).to_bytes();
        let mut expected = vec![0xfe];
        expected.extend_from_slice(&v.to_le_bytes());
        assert_eq!(expected, bytes);
        assert_eq!(Ok(VarUint::from(v)), decode(bytes));
    }
}

#[test]
fn sixty_four_bit_values_are_marker_and_eight_bytes() {
    for v in [0u64, 1 << 32, 0x0102_0304_0506_0708, u64::MAX] {
        let bytes = VarUint::from(v).to_bytes();
        let mut expected = vec![0xff];
        expected.extend_from_slice(&v.to_le_bytes());
        assert_eq!(expected, bytes);
        assert_eq!(Ok(VarUint::from(v)), decode(bytes));
    }
}

#[test]
fn largest_value_encodes_as_all_ones() {
    assert_eq!(vec![0xff; 9], VarUint::from(u64::MAX).to_bytes());
}

#[test]
fn reencoding_decoded_bytes_gives_them_back() {
    let streams: Vec<Vec<u8>> = vec![
        vec![0x07],
        vec![0xfd, 0x05, 0x00],
        vec![0xfe, 0x01, 0x00, 0x00, 0x00],
        vec![0xff, 1, 2, 3, 4, 5, 6, 7, 8],
    ];
    for bytes in streams {
        assert_eq!(bytes, decode(bytes.clone()).unwrap().to_bytes());
    }
}

#[test]
fn non_minimal_encoding_is_accepted_as_is() {
    let v = decode(vec![0xfd, 0x05, 0x00]).unwrap();
    assert_eq!(5, v.value);
    assert_eq!(Width::U16, v.width);
}

#[test]
fn reading_consumes_exactly_one_encoding() {
    let mut reader = ByteReader::new(vec![0xfd, 0x03, 0x02, 0x2a, 0x99]);
    assert_eq!(Ok(VarUint::from(515u16)), VarUint::read_from(&mut reader));
    assert_eq!(3, reader.position());
    assert_eq!(2, reader.remaining());
    assert_eq!(Ok(VarUint::from(42u8)), VarUint::read_from(&mut reader));
    assert_eq!(1, reader.remaining());
}

#[test]
fn empty_input_fails() {
    let mut reader = ByteReader::new(vec![]);
    assert_eq!(Err(DecodeError::UnexpectedEof), VarUint::read_from(&mut reader));
    assert_eq!(0, reader.position());
}

#[test]
fn truncated_input_fails_for_every_width() {
    let streams: Vec<Vec<u8>> = vec![
        vec![0xfd],
        vec![0xfd, 0x01],
        vec![0xfe, 0x01, 0x02, 0x03],
        vec![0xff, 1, 2, 3, 4, 5, 6, 7],
    ];
    for bytes in streams {
        let mut reader = ByteReader::new(bytes);
        assert_eq!(Err(DecodeError::UnexpectedEof), VarUint::read_from(&mut reader));
        assert_eq!(1, reader.position());
    }
}

#[test]
fn u8_above_252_keeps_its_single_byte() {
    assert_eq!(vec![0xfe], VarUint::from(254u8).to_bytes());
}

#[test]
fn prefix_tells_how_many_bytes_follow() {
    assert_eq!(0, VarUint::bytes_after_prefix(0xfc));
    assert_eq!(2, VarUint::bytes_after_prefix(0xfd));
    assert_eq!(4, VarUint::bytes_after_prefix(0xfe));
    assert_eq!(8, VarUint::bytes_after_prefix(0xff));
}

#[test]
fn suspicious_values_are_flagged() {
    assert!(!VarUint::from(999_999u32).exceeds(SUSPICIOUS_VALUE));
    assert!(VarUint::from(1_000_000u32).exceeds(SUSPICIOUS_VALUE));
    assert!(VarUint::from(10u8).exceeds(9));
}
