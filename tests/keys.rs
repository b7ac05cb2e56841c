use tux_io_encoding::{
    ConstTypedObjectType, EncodingError, MetaKey, MetadataMap, OtherError, RawDate, RawDateTime,
    RawTime, RawTimeZone, RawUuid, ReadWithSize, ReadableObjectType, Tags, TuxIOType,
    TypedObjectType, ValueType, WritableObjectType,
};

#[test]
fn header_names_are_canonicalized() {
    let key = MetaKey::from_bytes(b"Content-Type").unwrap();
    assert_eq!(key.as_str(), "content-type");
    let bytes = key.write_to_bytes().unwrap();
    assert_eq!(bytes.len(), key.size());
    assert_eq!(&bytes[0..2], &[12, 0]);
    assert_eq!(MetaKey::read_from_bytes(&bytes).unwrap(), key);
    assert_eq!(MetaKey::TYPE_KEY, 12);
}

#[test]
fn invalid_header_name_is_rejected() {
    assert_eq!(
        MetaKey::from_bytes(b"bad name"),
        Err(EncodingError::OtherDecodingError(OtherError::InvalidHeaderName))
    );
    assert_eq!(
        MetaKey::read_from_bytes(&[2, 0, b'a', b' ']),
        Err(EncodingError::OtherDecodingError(OtherError::InvalidHeaderName))
    );
}

#[test]
fn metadata_map_round_trip() {
    let mut map = MetadataMap::new();
    map.insert(MetaKey::from_bytes(b"x-owner").unwrap(), ValueType::U16(7));
    let bytes = map.write_to_bytes().unwrap();
    let back = MetadataMap::read_from_bytes(&bytes).unwrap();
    assert_eq!(back, map);
    assert_eq!(
        back.get(&MetaKey::from_bytes(b"X-Owner").unwrap()),
        Some(&ValueType::U16(7))
    );
}

#[test]
fn find_reads_only_up_to_the_key() {
    let mut tags = Tags::<String>::new();
    tags.insert("a".into(), ValueType::U8(1));
    tags.insert("b".into(), ValueType::String("two".into()));
    let bytes = tags.write_to_bytes().unwrap();
    assert_eq!(
        Tags::<String>::find_from_reader(&bytes, 0, &"b".to_string()),
        Ok(Some(ValueType::String("two".into())))
    );
    assert_eq!(
        Tags::<String>::find_from_reader(&bytes, 0, &"c".to_string()),
        Ok(None)
    );
    // a damaged second entry is not reached when the first matches
    let mut damaged = bytes.clone();
    let last = damaged.len() - 6;
    damaged[last] = 99;
    assert_eq!(
        Tags::<String>::find_from_reader(&damaged, 0, &"a".to_string()),
        Ok(Some(ValueType::U8(1)))
    );
}

#[test]
fn fixed_arrays_carry_their_length() {
    let a: [u8; 3] = [7, 8, 9];
    let bytes = a.write_to_bytes().unwrap();
    assert_eq!(bytes, vec![3, 0, 7, 8, 9]);
    assert_eq!(a.size(), 5);
    assert_eq!(<[u8; 3]>::read_from_bytes(&bytes), Ok([7, 8, 9]));
    assert_eq!(
        <[u8; 4]>::read_from_bytes(&bytes),
        Err(EncodingError::UnexpectedEof)
    );
    assert_eq!(<[u8; 3]>::type_key(), 11);
}

#[test]
fn bodies_read_with_a_known_size() {
    let bytes = [b'h', b'i', b'!'];
    assert_eq!(
        Vec::<u8>::read_with_size(&bytes, 1, 2),
        Ok((vec![b'i', b'!'], 3))
    );
    assert_eq!(String::read_with_size(&bytes, 0, 2), Ok(("hi".to_string(), 2)));
    assert_eq!(
        String::read_with_size(&bytes, 0, 4),
        Err(EncodingError::UnexpectedEof)
    );
}

#[test]
fn type_keys_match_their_constants() {
    assert_eq!(RawDate::TYPE_KEY, RawDate::type_key());
    assert_eq!(RawTime::TYPE_KEY, RawTime::type_key());
    assert_eq!(RawTimeZone::TYPE_KEY, RawTimeZone::type_key());
    assert_eq!(RawDateTime::TYPE_KEY, RawDateTime::type_key());
    assert_eq!(RawUuid::TYPE_KEY, 17);
    assert_eq!(String::TYPE_KEY, 12);
    assert_eq!(bool::TYPE_KEY, 10);
}
