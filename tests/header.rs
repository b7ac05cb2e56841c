use tux_io_encoding::{
    CompressionTypes, EncodingError, FileSections, GzipCompressionType, NoCompression,
    ObjectHeader, ReadableObjectType, TuxIOType, WritableObjectType, ZStdCompressionType,
    CURRENT_VERSION,
};

#[test]
fn test_object_header_read_write() {
    let header = ObjectHeader {
        version: CURRENT_VERSION,
        compression_type: CompressionTypes::Uncompressed(NoCompression),
        tags_start: 10,
        content_start: 20,
        content_length: 100,
        bit_flags: 0,
    };
    let mut buffer = Vec::new();
    header.write_to_writer(&mut buffer).unwrap();
    assert_eq!(buffer.len(), 32);
    println!("Buffer: {:?}", buffer);
    let (read_header, end) = ObjectHeader::read_from_reader(buffer.as_slice(), 0).unwrap();
    assert_eq!(end, 32);
    assert_eq!(header, read_header);
}

#[test]
fn test_size_math() {
    let header = ObjectHeader {
        version: CURRENT_VERSION,
        compression_type: CompressionTypes::default(),
        tags_start: 64,
        content_start: 256,
        content_length: 256,
        bit_flags: 0,
    };
    assert_eq!(header.tags_space(), 192); // 256 - 64
    assert_eq!(header.meta_and_tag_space(), 224); // 256 - 32
}

fn sample_header() -> ObjectHeader {
    ObjectHeader {
        version: 0,
        compression_type: CompressionTypes::ZSTD(ZStdCompressionType(-3)),
        tags_start: 64,
        content_start: 0x0102_0304,
        content_length: 0x1122_3344_5566_7788,
        bit_flags: 5,
    }
}

#[test]
fn header_layout_is_little_endian_with_padding() {
    let bytes = sample_header().write_to_bytes().unwrap();
    assert_eq!(bytes.len(), 32);
    assert_eq!(&bytes[0..3], &[0x54, 0x55, 0x58]);
    assert_eq!(bytes[3], 0);
    assert_eq!(&bytes[4..9], &[1, 0xfd, 0xff, 0xff, 0xff]);
    assert_eq!(&bytes[9..11], &[64, 0]);
    assert_eq!(&bytes[11..15], &[4, 3, 2, 1]);
    assert_eq!(&bytes[15..23], &[0x88, 0x77, 0x66, 0x55, 0x44, 0x33, 0x22, 0x11]);
    assert_eq!(bytes[23], 5);
    assert_eq!(&bytes[24..32], &[0u8; 8]);
}

#[test]
fn header_round_trip_with_sections_in_order() {
    let header = sample_header();
    let bytes = header.write_to_bytes().unwrap();
    assert_eq!(ObjectHeader::read_from_bytes(&bytes).unwrap(), header);
    assert_eq!(ObjectHeader::read_size(&bytes, 0).unwrap(), 32);
    assert_eq!(header.size(), 32);
    assert_eq!(header.const_size(), Some(32));
}

#[test]
fn header_with_bad_magic_is_rejected() {
    let mut bytes = sample_header().write_to_bytes().unwrap();
    bytes[1] = b'X';
    bytes[3] = 9;
    assert_eq!(
        ObjectHeader::read_from_bytes(&bytes),
        Err(EncodingError::InvalidMagic)
    );
}

#[test]
fn header_with_unknown_version_is_rejected() {
    let mut bytes = sample_header().write_to_bytes().unwrap();
    bytes[3] = 1;
    assert_eq!(
        ObjectHeader::read_from_bytes(&bytes),
        Err(EncodingError::UnsupportedVersion(1))
    );
}

#[test]
fn header_shorter_than_thirty_two_bytes_is_rejected() {
    let bytes = sample_header().write_to_bytes().unwrap();
    assert_eq!(
        ObjectHeader::read_from_bytes(&bytes[..31]),
        Err(EncodingError::UnexpectedEof)
    );
}

#[test]
fn header_entry_checks_magic() {
    assert_eq!(ObjectHeader::header_entry(&[0x54, 0x55, 0x58, 7]), Ok(7));
    assert_eq!(
        ObjectHeader::header_entry(&[0x54, 0x55, 0x59, 7]),
        Err(EncodingError::InvalidMagic)
    );
}

#[test]
fn header_section_offsets() {
    let header = sample_header();
    assert_eq!(header.seek(FileSections::Header), 0);
    assert_eq!(header.seek(FileSections::Metadata), 32);
    assert_eq!(header.seek(FileSections::Tags), 64);
    assert_eq!(header.seek(FileSections::Content), 0x0102_0304);
}

#[test]
fn default_header_is_version_zero_uncompressed() {
    let header = ObjectHeader::default();
    assert_eq!(header.version, 0);
    assert_eq!(
        header.compression_type,
        CompressionTypes::Uncompressed(NoCompression)
    );
    assert_eq!(header.tags_start, 0);
    assert_eq!(header.content_start, 0);
}

#[test]
fn compression_descriptors_round_trip() {
    for c in [
        CompressionTypes::Uncompressed(NoCompression),
        CompressionTypes::ZSTD(ZStdCompressionType(19)),
        CompressionTypes::Gzip(GzipCompressionType(9)),
    ] {
        let bytes = c.write_to_bytes().unwrap();
        assert_eq!(bytes.len(), 5);
        assert_eq!(CompressionTypes::read_from_bytes(&bytes).unwrap(), c);
        assert_eq!(CompressionTypes::read_size(&bytes, 0).unwrap(), 5);
    }
    let gzip = CompressionTypes::Gzip(GzipCompressionType(9)).write_to_bytes().unwrap();
    assert_eq!(gzip, vec![2, 9, 0, 0, 0]);
    let none = CompressionTypes::Uncompressed(NoCompression).write_to_bytes().unwrap();
    assert_eq!(none, vec![0, 0, 0, 0, 0]);
}

#[test]
fn unknown_compression_id_is_rejected() {
    assert_eq!(
        CompressionTypes::read_from_bytes(&[3, 0, 0, 0, 0]),
        Err(EncodingError::InvalidCompressionType(3))
    );
    assert_eq!(
        GzipCompressionType::read_from_bytes(&[1, 0, 0, 0, 0]),
        Err(EncodingError::InvalidCompressionType(1))
    );
    assert_eq!(
        CompressionTypes::read_from_bytes(&[1, 0, 0, 0]),
        Err(EncodingError::UnexpectedEof)
    );
}
