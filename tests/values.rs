use tux_io_encoding::{
    EncodingError, RawDate, RawDateTime, RawTime, RawTimeZone, RawUuid, ReadableObjectType,
    TuxIOType, TypedObjectType, ValueSet, ValueType, WritableObjectType,
};

fn round_trip<T>(v: T) -> Vec<u8>
where
    T: ReadableObjectType + WritableObjectType + PartialEq + std::fmt::Debug,
{
    let bytes = v.write_to_bytes().unwrap();
    assert_eq!(bytes.len(), v.size());
    assert_eq!(T::read_size(&bytes, 0).unwrap(), bytes.len());
    let (back, end) = T::read_from_reader(&bytes, 0).unwrap();
    assert_eq!(end, bytes.len());
    assert_eq!(back, v);
    bytes
}

#[test]
fn integers_are_little_endian() {
    assert_eq!(round_trip(0xabu8), vec![0xab]);
    assert_eq!(round_trip(0x1234u16), vec![0x34, 0x12]);
    assert_eq!(round_trip(0x1234_5678u32), vec![0x78, 0x56, 0x34, 0x12]);
    assert_eq!(round_trip(1u64), vec![1, 0, 0, 0, 0, 0, 0, 0]);
    assert_eq!(round_trip(-1i8), vec![0xff]);
    assert_eq!(round_trip(-2i16), vec![0xfe, 0xff]);
    assert_eq!(round_trip(-2i32), vec![0xfe, 0xff, 0xff, 0xff]);
    assert_eq!(round_trip(i64::MIN), vec![0, 0, 0, 0, 0, 0, 0, 0x80]);
    assert_eq!(7u32.const_size(), Some(4));
    assert_eq!(u16::type_key(), 1);
    assert_eq!(i64::type_key(), 7);
}

#[test]
fn short_integer_input_is_rejected() {
    assert_eq!(u32::read_from_bytes(&[1, 2, 3]), Err(EncodingError::UnexpectedEof));
}

#[test]
fn booleans_accept_only_zero_and_one() {
    assert_eq!(round_trip(true), vec![1]);
    assert_eq!(round_trip(false), vec![0]);
    assert_eq!(bool::read_from_bytes(&[2]), Err(EncodingError::UnexpectedEof));
}

#[test]
fn strings_are_length_prefixed_utf8() {
    assert_eq!(round_trip("hé".to_string()), vec![3, 0, b'h', 0xc3, 0xa9]);
    assert_eq!(round_trip(String::new()), vec![0, 0]);
    assert_eq!(
        String::read_from_bytes(&[2, 0, 0xff, 0xfe]),
        Err(EncodingError::UnexpectedEof)
    );
    assert_eq!(String::read_from_bytes(&[5, 0, b'a']), Err(EncodingError::UnexpectedEof));
    assert_eq!(String::read_size(&[5, 0], 0), Ok(7));
}

#[test]
fn oversized_lengths_cannot_be_written() {
    let blob = vec![0u8; 65536];
    assert_eq!(blob.write_to_bytes(), Err(EncodingError::TypeTooLarge(65536)));
    let text = "a".repeat(65536);
    assert_eq!(text.write_to_bytes(), Err(EncodingError::TypeTooLarge(65536)));
    let largest = vec![1u8; 65535];
    let bytes = round_trip(largest);
    assert_eq!(&bytes[0..2], &[0xff, 0xff]);
}

#[test]
fn sequences_count_their_items() {
    let v = vec!["ab".to_string(), "c".to_string()];
    assert_eq!(round_trip(v), vec![2, 0, 2, 0, b'a', b'b', 1, 0, b'c']);
    assert_eq!(round_trip(Vec::<u16>::new()), vec![0, 0]);
    assert_eq!(Vec::<u8>::type_key(), 11);
}

#[test]
fn optional_values_carry_a_presence_byte() {
    assert_eq!(round_trip(Some(5u16)), vec![1, 5, 0]);
    assert_eq!(round_trip(None::<u16>), vec![0]);
    // any nonzero presence byte reads as present
    assert_eq!(Option::<u8>::read_from_bytes(&[7, 9]), Ok(Some(9)));
    assert_eq!(Option::<u8>::read_size(&[0], 0), Ok(1));
}

#[test]
fn calendar_values_have_constant_sizes() {
    let date = RawDate { year: 2024, month: 2, day: 29 };
    assert_eq!(round_trip(date), vec![0xe8, 0x07, 2, 29]);
    let time = RawTime { seconds_from_midnight: 3600, nanoseconds: 5 };
    assert_eq!(round_trip(time), vec![0x10, 0x0e, 0, 0, 5, 0, 0, 0]);
    let zone = RawTimeZone { offset: -3600 };
    assert_eq!(round_trip(zone), vec![0xf0, 0xf1, 0xff, 0xff]);
    let dt = RawDateTime { date, time, timezone: zone };
    let bytes = round_trip(dt);
    assert_eq!(bytes.len(), 16);
    assert_eq!(RawDateTime::type_key(), 16);
    assert_eq!(RawTimeZone::type_key(), 15);
}

#[test]
fn value_union_leads_with_discriminator() {
    let cases = vec![
        (ValueType::String("x".into()), 12u8),
        (ValueType::Bytes(vec![1, 2]), 11),
        (ValueType::Bool(true), 10),
        (ValueType::U8(1), 0),
        (ValueType::U16(1), 1),
        (ValueType::U32(1), 2),
        (ValueType::U64(1), 3),
        (ValueType::I8(-1), 4),
        (ValueType::I16(-1), 5),
        (ValueType::I32(-1), 6),
        (ValueType::I64(-1), 7),
        (ValueType::F32(1.5f32.to_bits()), 8),
        (ValueType::F64(2.5f64.to_bits()), 9),
        (ValueType::Date(RawDate { year: 1, month: 1, day: 1 }), 13),
        (ValueType::Time(RawTime { seconds_from_midnight: 1, nanoseconds: 0 }), 14),
        (
            ValueType::RawDateTime(RawDateTime {
                date: RawDate { year: 1, month: 1, day: 1 },
                time: RawTime { seconds_from_midnight: 1, nanoseconds: 0 },
                timezone: RawTimeZone { offset: 0 },
            }),
            16,
        ),
        (ValueType::Uuid(RawUuid([9u8; 16])), 17),
    ];
    for (value, key) in cases {
        let bytes = round_trip(value);
        assert_eq!(bytes[0], key);
    }
}

#[test]
fn value_union_sizes() {
    assert_eq!(ValueType::U8(3).size(), 2);
    assert_eq!(ValueType::U8(3).const_size(), Some(2));
    assert_eq!(ValueType::String("abc".into()).size(), 6);
    assert_eq!(ValueType::String("abc".into()).const_size(), None);
    let f = ValueType::F32(1.5f32.to_bits()).write_to_bytes().unwrap();
    assert_eq!(&f[1..], &1.5f32.to_le_bytes());
}

#[test]
fn unknown_value_discriminator_is_rejected() {
    assert_eq!(
        ValueType::read_from_bytes(&[15, 0, 0, 0, 0]),
        Err(EncodingError::UnknownTypeKey(15))
    );
    assert_eq!(
        ValueType::read_from_bytes(&[200]),
        Err(EncodingError::UnknownTypeKey(200))
    );
    assert_eq!(ValueType::read_size(&[99, 0], 0), Err(EncodingError::UnknownTypeKey(99)));
}

#[test]
fn uuid_is_sixteen_raw_bytes() {
    let id = RawUuid([1, 2, 3, 4, 5, 6, 7, 8, 9, 10, 11, 12, 13, 14, 15, 16]);
    let bytes = round_trip(id);
    assert_eq!(bytes, (1u8..=16).collect::<Vec<u8>>());
    assert_eq!(RawUuid::type_key(), 17);
}

#[test]
fn skip_moves_past_one_value() {
    let mut buffer = Vec::new();
    "abc".to_string().write_to_writer(&mut buffer).unwrap();
    7u16.write_to_writer(&mut buffer).unwrap();
    let after = String::skip(&buffer, 0).unwrap();
    assert_eq!(after, 5);
    assert_eq!(u16::read_from_reader(&buffer, after).unwrap(), (7, 7));
}

#[test]
fn sets_keep_one_of_each_element() {
    let mut set = ValueSet::<u16>::new();
    assert!(set.insert(5));
    assert!(set.insert(6));
    assert!(!set.insert(5));
    assert_eq!(set.len(), 2);
    let bytes = round_trip(set);
    assert_eq!(bytes, vec![2, 0, 5, 0, 6, 0]);
    let repeated = vec![3, 0, 1, 0, 1, 0, 2, 0];
    assert_eq!(ValueSet::<u16>::read_from_bytes(&repeated).unwrap().len(), 2);
}
