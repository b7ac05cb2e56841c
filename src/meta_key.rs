use crate::error::{EncodingError, OtherError};
use crate::object::{
    rest_at, spec_len_prefix, spec_prefix_len, ConstTypedObjectType, ReadableObjectType,
    TuxIOType, TypedObjectType, WritableObjectType,
};
use crate::tags::{TagKeyType, Tags};
use vstd::prelude::*;
use vstd::slice::slice_subrange;
use vstd::utf8::encode_utf8;

verus! {

/// The canonical text of the HTTP header name that `b` spells, or `None`
/// when `b` is not a valid header name.
pub uninterp spec fn header_name_of(b: Seq<u8>) -> Option<Seq<char>>;

/// Relies on `http::HeaderName::from_bytes`, which validates a header name
/// and normalizes it (lower case); the name's text is taken with `as_str`.
#[verifier::external_body]
fn parse_header_name(bytes: &[u8]) -> (r: Option<String>)
    ensures
        r is Some <==> header_name_of(bytes@) is Some,
        r matches Some(t) ==> header_name_of(bytes@) == Some(t@),
{
    match http::HeaderName::from_bytes(bytes) {
        Ok(name) => Some(name.as_str().to_string()),
        Err(_) => None,
    }
}

/// A tag key that is an HTTP header name, held as its canonical text.
#[derive(Debug, Clone, PartialEq, Eq, Hash)]
pub struct MetaKey {
    name: String,
}

/// A tag map keyed by HTTP header names.
pub type MetadataMap = Tags<MetaKey>;

impl DeepView for MetaKey {
    type V = Seq<char>;

    closed spec fn deep_view(&self) -> Seq<char> {
        self.name@
    }
}

impl MetaKey {
    /// The header name that `bytes` spell, in canonical form.
    pub fn from_bytes(bytes: &[u8]) -> (r: Result<MetaKey, EncodingError>)
        ensures
            match header_name_of(bytes@) {
                Some(t) => r matches Ok(k) && k.deep_view() == t,
                None => r == Err::<MetaKey, EncodingError>(
                    EncodingError::OtherDecodingError(OtherError::InvalidHeaderName),
                ),
            },
    {
        match parse_header_name(bytes) {
            Some(name) => Ok(MetaKey { name }),
            None => Err(EncodingError::other(OtherError::InvalidHeaderName)),
        }
    }

    /// The header name's text.
    pub fn as_str(&self) -> (r: &str)
        ensures
            r@ == self.deep_view(),
    {
        self.name.as_str()
    }
}

impl TuxIOType for MetaKey {
    open spec fn spec_size(v: Seq<char>) -> nat {
        encode_utf8(v).len() + 2
    }

    open spec fn spec_const_size(v: Seq<char>) -> Option<nat> {
        None
    }

    open spec fn spec_writable(v: Seq<char>) -> bool {
        encode_utf8(v).len() <= 65535
    }

    /// The name is in the canonical form that decoding produces.
    open spec fn spec_well_formed(v: Seq<char>) -> bool {
        header_name_of(encode_utf8(v)) == Some(v)
    }

    /// The byte count, then the name's bytes.
    open spec fn spec_encode(v: Seq<char>) -> Seq<u8> {
        spec_len_prefix(encode_utf8(v).len()) + encode_utf8(v)
    }

    /// Bytes that are not a header name are rejected with
    /// `OtherDecodingError(InvalidHeaderName)`.
    open spec fn spec_parse(s: Seq<u8>) -> Result<(Seq<char>, nat), EncodingError> {
        if s.len() < 2 || s.len() < 2 + spec_prefix_len(s) {
            Err(EncodingError::UnexpectedEof)
        } else {
            match header_name_of(s.subrange(2, 2 + spec_prefix_len(s) as int)) {
                Some(t) => Ok((t, 2 + spec_prefix_len(s))),
                None => Err(EncodingError::OtherDecodingError(OtherError::InvalidHeaderName)),
            }
        }
    }

    open spec fn spec_read_size(s: Seq<u8>) -> Result<nat, EncodingError> {
        String::spec_read_size(s)
    }

    proof fn lemma_size(v: Seq<char>) {
        String::lemma_size(v);
    }

    proof fn lemma_parse_encode(v: Seq<char>, rest: Seq<u8>) {
        let b = encode_utf8(v);
        crate::object::lemma_len_prefix(b.len(), b + rest);
        let s = Self::spec_encode(v) + rest;
        assert(s =~= spec_len_prefix(b.len()) + (b + rest));
        assert(s.subrange(2, 2 + b.len() as int) =~= b);
    }

    proof fn lemma_parse_facts(s: Seq<u8>) {
    }

    fn const_size(&self) -> (r: Option<usize>) {
        None
    }

    fn size(&self) -> (r: usize) {
        self.name.size()
    }
}

impl ReadableObjectType for MetaKey {
    fn read_size(bytes: &[u8], pos: usize) -> (r: Result<usize, EncodingError>) {
        String::read_size(bytes, pos)
    }

    fn read_from_reader(bytes: &[u8], pos: usize) -> (r: Result<(MetaKey, usize), EncodingError>) {
        let ghost s = rest_at(bytes@, pos as int);
        let (n, start) = u16::read_from_reader(bytes, pos)?;
        let n = n as usize;
        if bytes.len() - start < n {
            return Err(EncodingError::UnexpectedEof);
        }
        let content = slice_subrange(bytes, start, start + n);
        assert(content@ =~= s.subrange(2, 2 + spec_prefix_len(s) as int));
        let key = MetaKey::from_bytes(content)?;
        Ok((key, start + n))
    }
}

impl WritableObjectType for MetaKey {
    fn write_to_writer(&self, writer: &mut Vec<u8>) -> (r: Result<(), EncodingError>) {
        self.name.write_to_writer(writer)
    }
}

impl TypedObjectType for MetaKey {
    open spec fn spec_type_key() -> u8 {
        12
    }

    fn type_key() -> (r: u8) {
        12
    }
}

impl ConstTypedObjectType for MetaKey {
    const TYPE_KEY: u8 = 12;
}

impl TagKeyType for MetaKey {
    fn same_key(&self, other: &MetaKey) -> (r: bool) {
        self.name.eq(&other.name)
    }
}

} // verus!
