use tux_io_encoding::{
    EncodingError, ReadableObjectType, Tags, TuxIOType, TypedMap, ValueType, WritableObjectType,
};

#[test]
pub fn test_tags_serialization() {
    let mut tags = Tags::<String>::new();
    tags.insert("tag1".into(), ValueType::String("value1".into()));
    tags.insert("tag2".into(), ValueType::String("value2".into()));
    let computed_size = tags.size();
    let mut buffer = Vec::with_capacity(computed_size);
    tags.write_to_writer(&mut buffer).unwrap();
    println!("Serialized Tags: {:?}", buffer);
    let read_size = Tags::<String>::read_size(buffer.as_slice(), 0).unwrap();

    assert_eq!(computed_size, read_size);
    let deserialized_tags: Tags = Tags::read_from_bytes(buffer.as_slice()).unwrap();
    assert_eq!(tags, deserialized_tags);
}

#[test]
fn tag_map_size_is_count_plus_entries() {
    let mut tags = Tags::<String>::new();
    tags.insert("tag1".into(), ValueType::String("value1".into()));
    tags.insert("tag2".into(), ValueType::String("value2".into()));
    let bytes = tags.write_to_bytes().unwrap();
    // 2 (count) + 2 * ((4 + 2) + 1 + (6 + 2))
    assert_eq!(bytes.len(), 32);
    assert_eq!(tags.size(), 32);
    assert_eq!(&bytes[0..2], &[2, 0]);
    let back: Tags = Tags::read_from_bytes(&bytes).unwrap();
    assert_eq!(back.number_of_tags(), 2);
    assert_eq!(
        back.get(&"tag1".to_string()),
        Some(&ValueType::String("value1".into()))
    );
    assert_eq!(
        back.get(&"tag2".to_string()),
        Some(&ValueType::String("value2".into()))
    );
}

#[test]
fn tag_insert_replaces_and_remove_deletes() {
    let mut tags = Tags::<String>::new();
    assert!(tags.is_empty());
    assert_eq!(tags.insert("a".into(), ValueType::U8(1)), None);
    assert_eq!(tags.insert("a".into(), ValueType::U8(2)), Some(ValueType::U8(1)));
    assert_eq!(tags.number_of_tags(), 1);
    assert_eq!(tags.remove(&"a".to_string()), Some(ValueType::U8(2)));
    assert_eq!(tags.remove(&"a".to_string()), None);
    assert!(tags.is_empty());
}

#[test]
fn repeated_key_on_disk_keeps_last_value() {
    // count 2, "k" -> U8(1), "k" -> U8(2)
    let bytes = vec![2, 0, 1, 0, b'k', 0, 1, 1, 0, b'k', 0, 2];
    let tags: Tags = Tags::read_from_bytes(&bytes).unwrap();
    assert_eq!(tags.number_of_tags(), 1);
    assert_eq!(tags.get(&"k".to_string()), Some(&ValueType::U8(2)));
    assert_eq!(Tags::<String>::read_tag_count(&bytes, 0), Ok(2));
}

#[test]
fn truncated_tag_map_is_rejected() {
    let mut tags = Tags::<String>::new();
    tags.insert("tag".into(), ValueType::U32(7));
    let bytes = tags.write_to_bytes().unwrap();
    assert_eq!(
        Tags::<String>::read_from_bytes(&bytes[..bytes.len() - 1]),
        Err(EncodingError::UnexpectedEof)
    );
}

#[test]
fn test_custom_hasher() {
    let mut map = TypedMap::<i32, String>::new();
    map.insert(1, "one".to_string());
    map.insert(2, "two".to_string());

    let mut buffer = Vec::new();
    map.write_to_writer(&mut buffer).unwrap();

    let (read_map, _) = TypedMap::<i32, String>::read_from_reader(&buffer[..], 0).unwrap();

    assert_eq!(map, read_map);
}

#[test]
fn typed_map_layout_and_size() {
    let mut map = TypedMap::<u8, bool>::new();
    map.insert(7, true);
    let bytes = map.write_to_bytes().unwrap();
    assert_eq!(bytes, vec![1, 0, 0, 10, 7, 1]);
    assert_eq!(map.size(), 6);
    assert_eq!(TypedMap::<u8, bool>::read_size(&bytes, 0), Ok(6));
    assert_eq!(map.get(&7), Some(&true));
    assert_eq!(map.len(), 1);
}

#[test]
fn typed_map_with_other_types_is_rejected() {
    let mut map = TypedMap::<u8, bool>::new();
    map.insert(7, true);
    let bytes = map.write_to_bytes().unwrap();
    assert_eq!(
        TypedMap::<u16, bool>::read_from_bytes(&bytes),
        Err(EncodingError::MismatchedObjectType(1, 0))
    );
    assert_eq!(
        TypedMap::<u8, u8>::read_from_bytes(&bytes),
        Err(EncodingError::MismatchedObjectType(0, 10))
    );
}

#[test]
fn same_entries_ignores_order() {
    let mut a = Tags::<String>::new();
    a.insert("x".into(), ValueType::U8(1));
    a.insert("y".into(), ValueType::Bool(true));
    let mut b = Tags::<String>::new();
    b.insert("y".into(), ValueType::Bool(true));
    b.insert("x".into(), ValueType::U8(1));
    assert!(a.same_entries(&b));
    assert!(b.same_entries(&a));
    b.insert("x".into(), ValueType::U8(2));
    assert!(!a.same_entries(&b));
    let mut c = a.clone();
    c.insert("z".into(), ValueType::U8(0));
    assert!(!a.same_entries(&c));
    assert!(!c.same_entries(&a));
}

#[test]
fn get_mut_changes_the_stored_value() {
    let mut tags = Tags::<String>::new();
    tags.insert("n".into(), ValueType::U32(1));
    if let Some(v) = tags.get_mut(&"n".to_string()) {
        *v = ValueType::U32(5);
    }
    assert_eq!(tags.get(&"n".to_string()), Some(&ValueType::U32(5)));
    assert!(tags.get_mut(&"m".to_string()).is_none());
}
