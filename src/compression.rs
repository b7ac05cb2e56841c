use crate::error::EncodingError;
use crate::object::{
    lemma_prefix_of_append, lemma_prefix_trans, lemma_rest_skip, rest_at, ReadableObjectType,
    TuxIOType, WritableObjectType,
};
use vstd::prelude::*;

verus! {

/// Content stored as is.
#[derive(Debug, Clone, Copy, PartialEq, Eq, Structural, Default)]
pub struct NoCompression;

/// Content compressed with the level-parameterized algorithm of id 1; the
/// field is its (signed) level.
#[derive(Debug, Clone, Copy, PartialEq, Eq, Structural)]
pub struct ZStdCompressionType(pub i32);

/// Content compressed with the level-parameterized algorithm of id 2; the
/// field is its (unsigned) level.
#[derive(Debug, Clone, Copy, PartialEq, Eq, Structural)]
pub struct GzipCompressionType(pub u32);

/// The compression descriptor: which algorithm the content section uses, with
/// its parameter. It always occupies five bytes: the algorithm id, then a
/// four-byte little-endian parameter (zero when there is none).
#[derive(Debug, Clone, Copy, PartialEq, Eq, Structural)]
pub enum CompressionTypes {
    Uncompressed(NoCompression),
    ZSTD(ZStdCompressionType),
    Gzip(GzipCompressionType),
}

impl DeepView for NoCompression {
    type V = NoCompression;

    open spec fn deep_view(&self) -> NoCompression {
        *self
    }
}

impl DeepView for ZStdCompressionType {
    type V = ZStdCompressionType;

    open spec fn deep_view(&self) -> ZStdCompressionType {
        *self
    }
}

impl DeepView for GzipCompressionType {
    type V = GzipCompressionType;

    open spec fn deep_view(&self) -> GzipCompressionType {
        *self
    }
}

impl DeepView for CompressionTypes {
    type V = CompressionTypes;

    open spec fn deep_view(&self) -> CompressionTypes {
        *self
    }
}

impl Default for CompressionTypes {
    /// The descriptor for uncompressed content.
    fn default() -> (r: CompressionTypes)
        ensures
            r == CompressionTypes::Uncompressed(NoCompression),
    {
        CompressionTypes::Uncompressed(NoCompression)
    }
}

impl CompressionTypes {
    /// The algorithm id that leads the descriptor.
    pub open spec fn spec_id(self) -> u8 {
        match self {
            CompressionTypes::Uncompressed(_) => 0,
            CompressionTypes::ZSTD(_) => 1,
            CompressionTypes::Gzip(_) => 2,
        }
    }
}

/// Decoding a five-byte descriptor whose id must be `id`: the parameter is
/// what follows it.
pub open spec fn parse_descriptor(s: Seq<u8>, id: u8) -> Result<Seq<u8>, EncodingError> {
    if s.len() < 5 {
        Err(EncodingError::UnexpectedEof)
    } else if s[0] != id {
        Err(EncodingError::InvalidCompressionType(s[0]))
    } else {
        Ok(s.skip(1))
    }
}

/// Checks the five-byte frame at `pos` and its id, as `parse_descriptor` does.
/// Returns the position after the frame.
fn read_descriptor(bytes: &[u8], pos: usize, id: u8) -> (r: Result<usize, EncodingError>)
    requires
        pos <= bytes@.len(),
    ensures
        match parse_descriptor(rest_at(bytes@, pos as int), id) {
            Ok(_) => r matches Ok(end) && end == pos + 5 && end <= bytes@.len(),
            Err(e) => r == Err::<usize, EncodingError>(e),
        },
{
    if bytes.len() - pos < 5 {
        return Err(EncodingError::UnexpectedEof);
    }
    if bytes[pos] != id {
        return Err(EncodingError::InvalidCompressionType(bytes[pos]));
    }
    Ok(pos + 5)
}

impl TuxIOType for NoCompression {
    open spec fn spec_size(v: NoCompression) -> nat {
        5
    }

    open spec fn spec_const_size(v: NoCompression) -> Option<nat> {
        Some(5)
    }

    open spec fn spec_writable(v: NoCompression) -> bool {
        true
    }

    open spec fn spec_encode(v: NoCompression) -> Seq<u8> {
        seq![0u8, 0u8, 0u8, 0u8, 0u8]
    }

    /// The four parameter bytes are not looked at.
    open spec fn spec_parse(s: Seq<u8>) -> Result<(NoCompression, nat), EncodingError> {
        match parse_descriptor(s, 0) {
            Ok(_) => Ok((NoCompression, 5)),
            Err(e) => Err(e),
        }
    }

    open spec fn spec_read_size(s: Seq<u8>) -> Result<nat, EncodingError> {
        Ok(5)
    }

    proof fn lemma_size(v: NoCompression) {
    }

    proof fn lemma_parse_encode(v: NoCompression, rest: Seq<u8>) {
    }

    proof fn lemma_parse_facts(s: Seq<u8>) {
    }

    fn const_size(&self) -> (r: Option<usize>) {
        Some(5)
    }

    fn size(&self) -> (r: usize) {
        5
    }
}

impl ReadableObjectType for NoCompression {
    fn read_size(bytes: &[u8], pos: usize) -> (r: Result<usize, EncodingError>) {
        Ok(5)
    }

    fn read_from_reader(bytes: &[u8], pos: usize) -> (r: Result<(NoCompression, usize), EncodingError>) {
        let end = read_descriptor(bytes, pos, 0)?;
        Ok((NoCompression, end))
    }
}

impl WritableObjectType for NoCompression {
    fn write_to_writer(&self, writer: &mut Vec<u8>) -> (r: Result<(), EncodingError>) {
        let ghost before = writer@;
        let mut i: usize = 0;
        while i < 5
            invariant
                i <= 5,
                writer@ == before + Seq::new(i as nat, |j: int| 0u8),
            decreases 5 - i,
        {
            writer.push(0u8);
            assert(writer@ =~= before + Seq::new((i + 1) as nat, |j: int| 0u8));
            i = i + 1;
        }
        proof {
            assert(writer@ =~= before + Self::spec_encode(*self));
            lemma_prefix_of_append(before, Self::spec_encode(*self));
        }
        Ok(())
    }
}

impl TuxIOType for ZStdCompressionType {
    open spec fn spec_size(v: ZStdCompressionType) -> nat {
        5
    }

    open spec fn spec_const_size(v: ZStdCompressionType) -> Option<nat> {
        Some(5)
    }

    open spec fn spec_writable(v: ZStdCompressionType) -> bool {
        true
    }

    open spec fn spec_encode(v: ZStdCompressionType) -> Seq<u8> {
        seq![1u8] + <i32 as TuxIOType>::spec_encode(v.0)
    }

    open spec fn spec_parse(s: Seq<u8>) -> Result<(ZStdCompressionType, nat), EncodingError> {
        match parse_descriptor(s, 1) {
            Ok(p) => match <i32 as TuxIOType>::spec_parse(p) {
                Ok((level, _)) => Ok((ZStdCompressionType(level), 5)),
                Err(e) => Err(e),
            },
            Err(e) => Err(e),
        }
    }

    open spec fn spec_read_size(s: Seq<u8>) -> Result<nat, EncodingError> {
        Ok(5)
    }

    proof fn lemma_size(v: ZStdCompressionType) {
        <i32 as TuxIOType>::lemma_size(v.0);
    }

    proof fn lemma_parse_encode(v: ZStdCompressionType, rest: Seq<u8>) {
        <i32 as TuxIOType>::lemma_size(v.0);
        <i32 as TuxIOType>::lemma_parse_encode(v.0, rest);
        assert((Self::spec_encode(v) + rest).skip(1) =~= <i32 as TuxIOType>::spec_encode(v.0) + rest);
    }

    proof fn lemma_parse_facts(s: Seq<u8>) {
    }

    fn const_size(&self) -> (r: Option<usize>) {
        Some(5)
    }

    fn size(&self) -> (r: usize) {
        5
    }
}

impl ReadableObjectType for ZStdCompressionType {
    fn read_size(bytes: &[u8], pos: usize) -> (r: Result<usize, EncodingError>) {
        Ok(5)
    }

    fn read_from_reader(bytes: &[u8], pos: usize) -> (r: Result<(ZStdCompressionType, usize), EncodingError>) {
        let end = read_descriptor(bytes, pos, 1)?;
        proof {
            lemma_rest_skip(bytes@, pos as int, 1);
        }
        let (level, _) = i32::read_from_reader(bytes, pos + 1)?;
        Ok((ZStdCompressionType(level), end))
    }
}

impl WritableObjectType for ZStdCompressionType {
    fn write_to_writer(&self, writer: &mut Vec<u8>) -> (r: Result<(), EncodingError>) {
        let ghost before = writer@;
        writer.push(1u8);
        let ghost mid = writer@;
        proof {
            lemma_prefix_of_append(before, seq![1u8]);
            assert(mid =~= before + seq![1u8]);
        }
        let r = self.0.write_to_writer(writer);
        proof {
            lemma_prefix_trans(before, mid, writer@);
            assert(writer@ =~= before + Self::spec_encode(*self));
        }
        r
    }
}

impl TuxIOType for GzipCompressionType {
    open spec fn spec_size(v: GzipCompressionType) -> nat {
        5
    }

    open spec fn spec_const_size(v: GzipCompressionType) -> Option<nat> {
        Some(5)
    }

    open spec fn spec_writable(v: GzipCompressionType) -> bool {
        true
    }

    open spec fn spec_encode(v: GzipCompressionType) -> Seq<u8> {
        seq![2u8] + <u32 as TuxIOType>::spec_encode(v.0)
    }

    open spec fn spec_parse(s: Seq<u8>) -> Result<(GzipCompressionType, nat), EncodingError> {
        match parse_descriptor(s, 2) {
            Ok(p) => match <u32 as TuxIOType>::spec_parse(p) {
                Ok((level, _)) => Ok((GzipCompressionType(level), 5)),
                Err(e) => Err(e),
            },
            Err(e) => Err(e),
        }
    }

    open spec fn spec_read_size(s: Seq<u8>) -> Result<nat, EncodingError> {
        Ok(5)
    }

    proof fn lemma_size(v: GzipCompressionType) {
        <u32 as TuxIOType>::lemma_size(v.0);
    }

    proof fn lemma_parse_encode(v: GzipCompressionType, rest: Seq<u8>) {
        <u32 as TuxIOType>::lemma_size(v.0);
        <u32 as TuxIOType>::lemma_parse_encode(v.0, rest);
        assert((Self::spec_encode(v) + rest).skip(1) =~= <u32 as TuxIOType>::spec_encode(v.0) + rest);
    }

    proof fn lemma_parse_facts(s: Seq<u8>) {
    }

    fn const_size(&self) -> (r: Option<usize>) {
        Some(5)
    }

    fn size(&self) -> (r: usize) {
        5
    }
}

impl ReadableObjectType for GzipCompressionType {
    fn read_size(bytes: &[u8], pos: usize) -> (r: Result<usize, EncodingError>) {
        Ok(5)
    }

    fn read_from_reader(bytes: &[u8], pos: usize) -> (r: Result<(GzipCompressionType, usize), EncodingError>) {
        let end = read_descriptor(bytes, pos, 2)?;
        proof {
            lemma_rest_skip(bytes@, pos as int, 1);
        }
        let (level, _) = u32::read_from_reader(bytes, pos + 1)?;
        Ok((GzipCompressionType(level), end))
    }
}

impl WritableObjectType for GzipCompressionType {
    fn write_to_writer(&self, writer: &mut Vec<u8>) -> (r: Result<(), EncodingError>) {
        let ghost before = writer@;
        writer.push(2u8);
        let ghost mid = writer@;
        proof {
            lemma_prefix_of_append(before, seq![2u8]);
            assert(mid =~= before + seq![2u8]);
        }
        let r = self.0.write_to_writer(writer);
        proof {
            lemma_prefix_trans(before, mid, writer@);
            assert(writer@ =~= before + Self::spec_encode(*self));
        }
        r
    }
}

impl TuxIOType for CompressionTypes {
    open spec fn spec_size(v: CompressionTypes) -> nat {
        5
    }

    open spec fn spec_const_size(v: CompressionTypes) -> Option<nat> {
        Some(5)
    }

    open spec fn spec_writable(v: CompressionTypes) -> bool {
        true
    }

    open spec fn spec_encode(v: CompressionTypes) -> Seq<u8> {
        match v {
            CompressionTypes::Uncompressed(c) => NoCompression::spec_encode(c),
            CompressionTypes::ZSTD(c) => ZStdCompressionType::spec_encode(c),
            CompressionTypes::Gzip(c) => GzipCompressionType::spec_encode(c),
        }
    }

    /// Dispatches on the id byte; an id other than 0, 1 and 2 is rejected.
    open spec fn spec_parse(s: Seq<u8>) -> Result<(CompressionTypes, nat), EncodingError> {
        if s.len() < 5 {
            Err(EncodingError::UnexpectedEof)
        } else if s[0] == 0 {
            Ok((CompressionTypes::Uncompressed(NoCompression), 5))
        } else if s[0] == 1 {
            match ZStdCompressionType::spec_parse(s) {
                Ok((c, n)) => Ok((CompressionTypes::ZSTD(c), n)),
                Err(e) => Err(e),
            }
        } else if s[0] == 2 {
            match GzipCompressionType::spec_parse(s) {
                Ok((c, n)) => Ok((CompressionTypes::Gzip(c), n)),
                Err(e) => Err(e),
            }
        } else {
            Err(EncodingError::InvalidCompressionType(s[0]))
        }
    }

    open spec fn spec_read_size(s: Seq<u8>) -> Result<nat, EncodingError> {
        Ok(5)
    }

    proof fn lemma_size(v: CompressionTypes) {
        match v {
            CompressionTypes::Uncompressed(c) => NoCompression::lemma_size(c),
            CompressionTypes::ZSTD(c) => ZStdCompressionType::lemma_size(c),
            CompressionTypes::Gzip(c) => GzipCompressionType::lemma_size(c),
        }
    }

    proof fn lemma_parse_encode(v: CompressionTypes, rest: Seq<u8>) {
        Self::lemma_size(v);
        match v {
            CompressionTypes::Uncompressed(c) => NoCompression::lemma_parse_encode(c, rest),
            CompressionTypes::ZSTD(c) => ZStdCompressionType::lemma_parse_encode(c, rest),
            CompressionTypes::Gzip(c) => GzipCompressionType::lemma_parse_encode(c, rest),
        }
    }

    proof fn lemma_parse_facts(s: Seq<u8>) {
    }

    fn const_size(&self) -> (r: Option<usize>) {
        Some(5)
    }

    fn size(&self) -> (r: usize) {
        5
    }
}

impl ReadableObjectType for CompressionTypes {
    fn read_size(bytes: &[u8], pos: usize) -> (r: Result<usize, EncodingError>) {
        Ok(5)
    }

    fn read_from_reader(bytes: &[u8], pos: usize) -> (r: Result<(CompressionTypes, usize), EncodingError>) {
        if bytes.len() - pos < 5 {
            return Err(EncodingError::UnexpectedEof);
        }
        match bytes[pos] {
            0 => Ok((CompressionTypes::Uncompressed(NoCompression), pos + 5)),
            1 => {
                let (c, end) = ZStdCompressionType::read_from_reader(bytes, pos)?;
                Ok((CompressionTypes::ZSTD(c), end))
            },
            2 => {
                let (c, end) = GzipCompressionType::read_from_reader(bytes, pos)?;
                Ok((CompressionTypes::Gzip(c), end))
            },
            other => Err(EncodingError::InvalidCompressionType(other)),
        }
    }
}

impl WritableObjectType for CompressionTypes {
    fn write_to_writer(&self, writer: &mut Vec<u8>) -> (r: Result<(), EncodingError>) {
        match self {
            CompressionTypes::Uncompressed(c) => c.write_to_writer(writer),
            CompressionTypes::ZSTD(c) => c.write_to_writer(writer),
            CompressionTypes::Gzip(c) => c.write_to_writer(writer),
        }
    }
}

} // verus!
