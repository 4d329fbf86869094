use gate_server::packet::parser::de::Deserializer;
use gate_server::packet::parser::error::Error;
use gate_server::packet::parser::ser::Serializer;

#[test]
fn test_deser_test_packet() {
    let bytes: Vec<u8> = vec![
        8, 80, 101, 114, 115, 101, 117, 115, 0, 9, 112, 97, 115, 115, 119, 111, 114, 100, 0, 0,
        0, 0, 10, 0, 0, 0, 0, 0, 0, 0, 0, 0, 0, 0, 0, 0, 0, 19, 136, 66, 73, 51, 51,
    ];

    // the record has two string fields, read in order
    let mut deserializer = Deserializer::from_bytes(&bytes);
    let name = deserializer.deserialize_string().unwrap();
    let password = deserializer.deserialize_string().unwrap();

    assert_eq!(name, String::from("Perseus"));
    assert_eq!(password, String::from("password"));
}

#[test]
fn test_ser_se() {
    // a record with the fields name, password, attack (u32), defense (u128)
    // and mspd (f32, written as its bits)
    let mut serializer = Serializer::new();
    serializer.serialize_str("Perseus").unwrap();
    serializer.serialize_str("password").unwrap();
    serializer.serialize_u32(10).unwrap();
    serializer.serialize_u128(5000).unwrap();
    serializer.serialize_u32(50.3f32.to_bits()).unwrap();

    assert_eq!(
        serializer.into_output(),
        vec![
            8, 80, 101, 114, 115, 101, 117, 115, 0, 9, 112, 97, 115, 115, 119, 111, 114, 100, 0,
            0, 0, 0, 10, 0, 0, 0, 0, 0, 0, 0, 0, 0, 0, 0, 0, 0, 0, 19, 136, 66, 73, 51, 51
        ]
    );
}

#[test]
fn numbers_round_trip() {
    let mut s = Serializer::new();
    s.serialize_u8(7).unwrap();
    s.serialize_u16(0xBEEF).unwrap();
    s.serialize_u32(0x01020304).unwrap();
    s.serialize_u64(u64::MAX - 1).unwrap();
    s.serialize_u128(u128::MAX).unwrap();
    s.serialize_bool(true).unwrap();
    s.serialize_bool(false).unwrap();
    let out = s.into_output();
    let mut d = Deserializer::from_bytes(&out);
    assert_eq!(d.deserialize_u8(), Ok(7));
    assert_eq!(d.deserialize_u16(), Ok(0xBEEF));
    assert_eq!(d.deserialize_u32(), Ok(0x01020304));
    assert_eq!(d.deserialize_u64(), Ok(u64::MAX - 1));
    assert_eq!(d.deserialize_u128(), Ok(u128::MAX));
    assert_eq!(d.parse_bool(), Ok(true));
    assert_eq!(d.parse_bool(), Ok(false));
    assert_eq!(d.next_byte(), Err(Error::Eof));
}

#[test]
fn strings_round_trip() {
    let mut s = Serializer::new();
    s.serialize_str("héllo").unwrap();
    s.serialize_str("").unwrap();
    s.serialize_str("ab").unwrap();
    let out = s.into_output();
    assert_eq!(&out[..8], &[7, 104, 195, 169, 108, 108, 111, 0]);
    let mut d = Deserializer::from_bytes(&out);
    assert_eq!(d.deserialize_string(), Ok("héllo".to_string()));
    assert_eq!(d.deserialize_string(), Ok(String::new()));
    assert_eq!(d.deserialize_str(), Ok("ab".to_string()));
    assert_eq!(d.next_byte(), Ok(0));
}

#[test]
fn reader_errors() {
    let input = [0u8, 1];
    let mut d = Deserializer::from_bytes(&input);
    assert_eq!(d.deserialize_string(), Err(Error::ZeroStringLength));
    assert_eq!(d.peek_byte(), Ok(1));
    assert_eq!(d.deserialize_u32(), Err(Error::Eof));
    assert_eq!(d.peek_byte(), Err(Error::Eof));

    let input = [5u8, 97, 98];
    let mut d = Deserializer::from_bytes(&input);
    assert_eq!(d.deserialize_string(), Err(Error::Eof));

    let input = [2u8, 0xFF, 0];
    let mut d = Deserializer::from_bytes(&input);
    assert_eq!(d.deserialize_string(), Ok(String::new()));
    assert_eq!(d.deserialize_char(), Err(Error::Eof));

    let input = [65u8];
    let mut d = Deserializer::from_bytes(&input);
    assert_eq!(d.deserialize_char(), Ok('A'));
}

#[test]
fn writer_takes_one_byte_characters_and_keeps_bytes() {
    let mut s = Serializer::new();
    assert_eq!(s.serialize_char('a'), Ok(()));
    assert_eq!(s.serialize_char('\u{7f}'), Ok(()));
    assert_eq!(s.serialize_char('\u{e9}'), Err(Error::ExpectedU8Character));
    assert_eq!(s.serialize_char('\u{20ac}'), Err(Error::ExpectedU8Character));
    s.serialize_bytes(&[1, 2, 3]).unwrap();
    assert_eq!(s.into_output(), vec![97, 127, 1, 2, 3]);
}
