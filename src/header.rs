use crate::compression::CompressionTypes;
use crate::error::EncodingError;
use crate::object::{
    lemma_prefix_of_append, lemma_rest_skip, rest_at, ReadableObjectType,
    TuxIOType, WritableObjectType,
};
use vstd::bytes::{
    lemma_auto_spec_u16_to_from_le_bytes, lemma_auto_spec_u32_to_from_le_bytes,
    lemma_auto_spec_u64_to_from_le_bytes, spec_u16_from_le_bytes, spec_u32_from_le_bytes,
    spec_u64_from_le_bytes,
};
use vstd::prelude::*;
use vstd::slice::slice_subrange;

verus! {

/// The three bytes ("TUX") that open every encoded object.
pub const MAGIC_VALUE: [u8; 3] = [0x54, 0x55, 0x58];

/// The only format version this library reads and writes.
pub const CURRENT_VERSION: u8 = 0;

/// Size of the header, which is also where the metadata section starts.
pub const HEADER_SIZE: u64 = 32;

/// The magic bytes as a sequence.
pub open spec fn spec_magic() -> Seq<u8> {
    seq![0x54u8, 0x55u8, 0x58u8]
}

/// The four sections of an encoded object, in increasing offset order.
#[derive(Debug, Clone, Copy, PartialEq, Eq, Structural)]
pub enum FileSections {
    /// Object header start, always at offset 0.
    Header,
    /// Object metadata start, always at offset 32.
    Metadata,
    /// Object tags start.
    Tags,
    /// Object content start.
    Content,
}

/// The fixed 32-byte preamble of an encoded object.
///
/// Layout (little-endian): magic (3), version (1), compression descriptor
/// (5), tags start (2), content start (4), content length (8), bit flags (1),
/// zero padding (8).
#[derive(Debug, Clone, PartialEq, Eq, Structural)]
pub struct ObjectHeader {
    /// Version of the format; currently 0.
    pub version: u8,
    /// Compression applied to the content section (never to header, metadata or tags).
    pub compression_type: CompressionTypes,
    /// Byte offset at which the tags section starts.
    pub tags_start: u16,
    /// Byte offset at which the content section starts.
    pub content_start: u32,
    /// Length of the content in bytes.
    pub content_length: u64,
    /// Bit flags; currently unused.
    pub bit_flags: u8,
}

impl DeepView for ObjectHeader {
    type V = ObjectHeader;

    open spec fn deep_view(&self) -> ObjectHeader {
        *self
    }
}

impl Default for ObjectHeader {
    /// Version 0, no compression, every offset and length zero.
    fn default() -> (r: ObjectHeader)
        ensures
            r == (ObjectHeader {
                version: 0,
                compression_type: CompressionTypes::Uncompressed(crate::compression::NoCompression),
                tags_start: 0,
                content_start: 0,
                content_length: 0,
                bit_flags: 0,
            }),
    {
        ObjectHeader {
            version: CURRENT_VERSION,
            compression_type: CompressionTypes::default(),
            tags_start: 0,
            content_start: 0,
            content_length: 0,
            bit_flags: 0,
        }
    }
}

impl ObjectHeader {
    /// The section offsets are ordered: `content_start >= tags_start >= 32`.
    pub open spec fn sections_ordered(&self) -> bool {
        self.content_start >= self.tags_start && self.tags_start >= 32
    }

    /// The absolute offset at which `section` starts.
    pub open spec fn spec_section_offset(&self, section: FileSections) -> u64 {
        match section {
            FileSections::Header => 0,
            FileSections::Metadata => 32,
            FileSections::Tags => self.tags_start as u64,
            FileSections::Content => self.content_start as u64,
        }
    }

    /// The space reserved for tags, which may include padding left to avoid
    /// resizing the file.
    pub fn tags_space(&self) -> (r: usize)
        requires
            self.content_start >= self.tags_start,
        ensures
            r == self.content_start - self.tags_start,
    {
        let tags_start = self.tags_start as usize;
        let content_start = self.content_start as usize;
        content_start - tags_start
    }

    /// The space used by metadata and tags together.
    pub fn meta_and_tag_space(&self) -> (r: usize)
        requires
            self.content_start >= 32,
        ensures
            r == self.content_start - 32,
    {
        let meta_start: usize = 32;
        let content_start = self.content_start as usize;
        content_start - meta_start
    }

    /// The absolute offset to seek to for `section`.
    pub fn seek(&self, section: FileSections) -> (r: u64)
        ensures
            r == self.spec_section_offset(section),
    {
        match section {
            FileSections::Header => 0,
            FileSections::Metadata => HEADER_SIZE,
            FileSections::Tags => self.tags_start as u64,
            FileSections::Content => self.content_start as u64,
        }
    }

    /// Checks that `entry` starts with the magic bytes and returns the version
    /// byte that follows them.
    pub fn header_entry(entry: &[u8]) -> (r: Result<u8, EncodingError>)
        requires
            entry@.len() >= 4,
        ensures
            entry@.subrange(0, 3) == spec_magic() ==> r == Ok::<u8, EncodingError>(entry@[3]),
            entry@.subrange(0, 3) != spec_magic() ==> r == Err::<u8, EncodingError>(
                EncodingError::InvalidMagic,
            ),
    {
        if entry[0] != 0x54 || entry[1] != 0x55 || entry[2] != 0x58 {
            assert(entry@.subrange(0, 3) != spec_magic()) by {
                if entry@.subrange(0, 3) == spec_magic() {
                    assert(entry@.subrange(0, 3)[0] == entry@[0]);
                    assert(entry@.subrange(0, 3)[1] == entry@[1]);
                    assert(entry@.subrange(0, 3)[2] == entry@[2]);
                }
            }
            return Err(EncodingError::InvalidMagic);
        }
        assert(entry@.subrange(0, 3) =~= spec_magic());
        Ok(entry[3])
    }
}

/// `n` zero bytes.
pub open spec fn zeros(n: nat) -> Seq<u8> {
    Seq::new(n, |i: int| 0u8)
}

/// Appends `n` zero bytes to `writer`.
pub fn put_zeros(writer: &mut Vec<u8>, n: usize)
    ensures
        final(writer)@ == old(writer)@ + zeros(n as nat),
        old(writer)@.is_prefix_of(final(writer)@),
{
    let mut i: usize = 0;
    while i < n
        invariant
            i <= n,
            writer@ == old(writer)@ + zeros(i as nat),
        decreases n - i,
    {
        writer.push(0u8);
        assert(writer@ =~= old(writer)@ + zeros((i + 1) as nat));
        i = i + 1;
    }
    proof {
        lemma_prefix_of_append(old(writer)@, zeros(n as nat));
    }
}

impl TuxIOType for ObjectHeader {
    open spec fn spec_size(v: ObjectHeader) -> nat {
        32
    }

    open spec fn spec_const_size(v: ObjectHeader) -> Option<nat> {
        Some(32)
    }

    open spec fn spec_writable(v: ObjectHeader) -> bool {
        true
    }

    /// Only the current version decodes.
    open spec fn spec_well_formed(v: ObjectHeader) -> bool {
        v.version == 0
    }

    open spec fn spec_encode(v: ObjectHeader) -> Seq<u8> {
        spec_magic() + seq![v.version] + CompressionTypes::spec_encode(v.compression_type)
            + <u16 as TuxIOType>::spec_encode(v.tags_start) + <u32 as TuxIOType>::spec_encode(
            v.content_start,
        ) + <u64 as TuxIOType>::spec_encode(v.content_length) + seq![v.bit_flags] + zeros(8)
    }

    /// The magic is checked before the version, and both before any offset
    /// is trusted; the padding is not looked at.
    open spec fn spec_parse(s: Seq<u8>) -> Result<(ObjectHeader, nat), EncodingError> {
        if s.len() < 32 {
            Err(EncodingError::UnexpectedEof)
        } else if s.subrange(0, 3) != spec_magic() {
            Err(EncodingError::InvalidMagic)
        } else if s[3] != 0 {
            Err(EncodingError::UnsupportedVersion(s[3]))
        } else {
            match CompressionTypes::spec_parse(s.skip(4)) {
                Err(e) => Err(e),
                Ok((c, _)) => Ok(
                    (
                        ObjectHeader {
                            version: s[3],
                            compression_type: c,
                            tags_start: spec_u16_from_le_bytes(s.subrange(9, 11)),
                            content_start: spec_u32_from_le_bytes(s.subrange(11, 15)),
                            content_length: spec_u64_from_le_bytes(s.subrange(15, 23)),
                            bit_flags: s[23],
                        },
                        32,
                    ),
                ),
            }
        }
    }

    open spec fn spec_read_size(s: Seq<u8>) -> Result<nat, EncodingError> {
        Ok(32)
    }

    proof fn lemma_size(v: ObjectHeader) {
        CompressionTypes::lemma_size(v.compression_type);
        <u16 as TuxIOType>::lemma_size(v.tags_start);
        <u32 as TuxIOType>::lemma_size(v.content_start);
        <u64 as TuxIOType>::lemma_size(v.content_length);
    }

    proof fn lemma_parse_encode(v: ObjectHeader, rest: Seq<u8>) {
        Self::lemma_size(v);
        lemma_auto_spec_u16_to_from_le_bytes();
        lemma_auto_spec_u32_to_from_le_bytes();
        lemma_auto_spec_u64_to_from_le_bytes();
        let e = Self::spec_encode(v);
        let s = e + rest;
        let c = CompressionTypes::spec_encode(v.compression_type);
        let tail = <u16 as TuxIOType>::spec_encode(v.tags_start) + <u32 as TuxIOType>::spec_encode(
            v.content_start,
        ) + <u64 as TuxIOType>::spec_encode(v.content_length) + seq![v.bit_flags] + zeros(8) + rest;
        assert(s.subrange(0, 3) =~= spec_magic());
        assert(s.skip(4) =~= c + tail);
        CompressionTypes::lemma_parse_encode(v.compression_type, tail);
        assert(s.subrange(9, 11) =~= <u16 as TuxIOType>::spec_encode(v.tags_start));
        assert(s.subrange(11, 15) =~= <u32 as TuxIOType>::spec_encode(v.content_start));
        assert(s.subrange(15, 23) =~= <u64 as TuxIOType>::spec_encode(v.content_length));
    }

    proof fn lemma_parse_facts(s: Seq<u8>) {
    }

    fn const_size(&self) -> (r: Option<usize>) {
        Some(32)
    }

    fn size(&self) -> (r: usize) {
        32
    }
}

impl ReadableObjectType for ObjectHeader {
    fn read_size(bytes: &[u8], pos: usize) -> (r: Result<usize, EncodingError>) {
        Ok(32)
    }

    fn read_from_reader(bytes: &[u8], pos: usize) -> (r: Result<(ObjectHeader, usize), EncodingError>) {
        let ghost s = rest_at(bytes@, pos as int);
        if bytes.len() - pos < 32 {
            return Err(EncodingError::UnexpectedEof);
        }
        let entry = slice_subrange(bytes, pos, pos + 4);
        assert(entry@.subrange(0, 3) =~= s.subrange(0, 3));
        let version = ObjectHeader::header_entry(entry)?;
        if version != CURRENT_VERSION {
            return Err(EncodingError::UnsupportedVersion(version));
        }
        proof {
            lemma_rest_skip(bytes@, pos as int, 4);
            assert(rest_at(bytes@, pos + 9).subrange(0, 2) =~= s.subrange(9, 11));
            assert(rest_at(bytes@, pos + 11).subrange(0, 4) =~= s.subrange(11, 15));
            assert(rest_at(bytes@, pos + 15).subrange(0, 8) =~= s.subrange(15, 23));
        }
        let (compression_type, _) = CompressionTypes::read_from_reader(bytes, pos + 4)?;
        let (tags_start, _) = u16::read_from_reader(bytes, pos + 9)?;
        let (content_start, _) = u32::read_from_reader(bytes, pos + 11)?;
        let (content_length, _) = u64::read_from_reader(bytes, pos + 15)?;
        let bit_flags = bytes[pos + 23];
        Ok(
            (
                ObjectHeader {
                    version,
                    compression_type,
                    tags_start,
                    content_start,
                    content_length,
                    bit_flags,
                },
                pos + 32,
            ),
        )
    }
}

impl WritableObjectType for ObjectHeader {
    fn write_to_writer(&self, writer: &mut Vec<u8>) -> (r: Result<(), EncodingError>) {
        let ghost before = writer@;
        writer.push(0x54u8);
        writer.push(0x55u8);
        writer.push(0x58u8);
        writer.push(self.version);
        assert(writer@ =~= before + spec_magic() + seq![self.version]);
        self.compression_type.write_to_writer(writer)?;
        self.tags_start.write_to_writer(writer)?;
        self.content_start.write_to_writer(writer)?;
        self.content_length.write_to_writer(writer)?;
        writer.push(self.bit_flags);
        put_zeros(writer, 8);
        proof {
            assert(writer@ =~= before + Self::spec_encode(*self));
            lemma_prefix_of_append(before, Self::spec_encode(*self));
        }
        Ok(())
    }
}

} // verus!
