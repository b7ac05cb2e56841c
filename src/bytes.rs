use crate::error::{is_size_allowed, EncodingError};
use crate::object::{
    lemma_len_prefix, lemma_prefix_of_append, lemma_prefix_trans, put_bytes, read_matches, rest_at,
    spec_len_prefix, spec_prefix_len, ReadableObjectType, TuxIOType, TypedObjectType,
    WritableObjectType,
};
use vstd::prelude::*;
use vstd::slice::{slice_subrange, slice_to_vec};
use vstd::utf8::{decode_utf8, valid_utf8};

verus! {

/// Relies on `String::from_utf8`: it accepts exactly the byte sequences that
/// are valid UTF-8, and the string it returns holds the characters they encode.
#[verifier::external_body]
pub(crate) fn string_from_utf8(bytes: Vec<u8>) -> (r: Option<String>)
    ensures
        r is Some <==> valid_utf8(bytes@),
        r matches Some(s) ==> s@ == decode_utf8(bytes@),
{
    String::from_utf8(bytes).ok()
}

/// A type whose encoding is a 16-bit length prefix and a body, and whose body
/// can be read on its own once the length is known.
pub trait ReadWithSize: ReadableObjectType {
    /// Decoding a body of `size` bytes from the start of `s`.
    spec fn spec_parse_sized(s: Seq<u8>, size: nat) -> Result<(Self::V, nat), EncodingError>;

    /// Decodes the body of `size` bytes that starts at `pos`.
    fn read_with_size(bytes: &[u8], pos: usize, size: u16) -> (r: Result<(Self, usize), EncodingError>)
        requires
            pos <= bytes@.len(),
        ensures
            read_matches(r, Self::spec_parse_sized(rest_at(bytes@, pos as int), size as nat), pos),
    ;
}

impl ReadWithSize for Vec<u8> {
    open spec fn spec_parse_sized(s: Seq<u8>, size: nat) -> Result<(Seq<u8>, nat), EncodingError> {
        if s.len() < size {
            Err(EncodingError::UnexpectedEof)
        } else {
            Ok((s.subrange(0, size as int), size))
        }
    }

    fn read_with_size(bytes: &[u8], pos: usize, size: u16) -> (r: Result<(Vec<u8>, usize), EncodingError>) {
        let n = size as usize;
        if bytes.len() - pos < n {
            return Err(EncodingError::UnexpectedEof);
        }
        let content = slice_to_vec(slice_subrange(bytes, pos, pos + n));
        assert(content.deep_view() =~= rest_at(bytes@, pos as int).subrange(0, n as int));
        Ok((content, pos + n))
    }
}

impl ReadWithSize for String {
    /// Bytes that are not valid UTF-8 are rejected as `UnexpectedEof`.
    open spec fn spec_parse_sized(s: Seq<u8>, size: nat) -> Result<(Seq<char>, nat), EncodingError> {
        if s.len() < size || !valid_utf8(s.subrange(0, size as int)) {
            Err(EncodingError::UnexpectedEof)
        } else {
            Ok((decode_utf8(s.subrange(0, size as int)), size))
        }
    }

    fn read_with_size(bytes: &[u8], pos: usize, size: u16) -> (r: Result<(String, usize), EncodingError>) {
        let n = size as usize;
        if bytes.len() - pos < n {
            return Err(EncodingError::UnexpectedEof);
        }
        let content = slice_to_vec(slice_subrange(bytes, pos, pos + n));
        assert(content@ =~= rest_at(bytes@, pos as int).subrange(0, n as int));
        match string_from_utf8(content) {
            Some(text) => Ok((text, pos + n)),
            None => Err(EncodingError::UnexpectedEof),
        }
    }
}

impl<const N: usize> TuxIOType for [u8; N] {
    open spec fn spec_size(v: Seq<u8>) -> nat {
        N as nat + 2
    }

    open spec fn spec_const_size(v: Seq<u8>) -> Option<nat> {
        if N <= usize::MAX - 2 {
            Some(N as nat + 2)
        } else {
            None
        }
    }

    /// The array holds its `N` bytes, and `N` fits in the length prefix.
    open spec fn spec_writable(v: Seq<u8>) -> bool {
        N <= 65535 && v.len() == N
    }

    /// The length `N`, then the bytes.
    open spec fn spec_encode(v: Seq<u8>) -> Seq<u8> {
        spec_len_prefix(N as nat) + v
    }

    /// A declared length other than `N` is rejected as `UnexpectedEof`.
    open spec fn spec_parse(s: Seq<u8>) -> Result<(Seq<u8>, nat), EncodingError> {
        if s.len() < 2 || spec_prefix_len(s) != N || s.len() < N + 2 {
            Err(EncodingError::UnexpectedEof)
        } else {
            Ok((s.subrange(2, N + 2), N as nat + 2))
        }
    }

    /// An array too long for the length prefix is reported as `TypeTooLarge`.
    open spec fn spec_read_size(s: Seq<u8>) -> Result<nat, EncodingError> {
        if N > 65535 {
            Err(EncodingError::TypeTooLarge(N))
        } else {
            Ok(N as nat + 2)
        }
    }

    proof fn lemma_size(v: Seq<u8>) {
        if Self::spec_writable(v) {
            lemma_len_prefix(N as nat, seq![]);
        }
    }

    proof fn lemma_parse_encode(v: Seq<u8>, rest: Seq<u8>) {
        lemma_len_prefix(N as nat, v + rest);
        let s = Self::spec_encode(v) + rest;
        assert(s =~= spec_len_prefix(N as nat) + (v + rest));
        assert(s.subrange(2, N + 2) =~= v);
    }

    proof fn lemma_parse_facts(s: Seq<u8>) {
        if s.len() >= 2 && spec_prefix_len(s) == N {
            vstd::bytes::lemma_auto_spec_u16_to_from_le_bytes();
            assert(spec_prefix_len(s) <= 65535);
        }
    }

    fn const_size(&self) -> (r: Option<usize>) {
        if N > usize::MAX - 2 {
            return None;
        }
        Some(N + 2)
    }

    fn size(&self) -> (r: usize) {
        N + 2
    }
}

impl<const N: usize> ReadableObjectType for [u8; N] {
    fn read_size(bytes: &[u8], pos: usize) -> (r: Result<usize, EncodingError>) {
        if N > 65535 {
            return Err(EncodingError::TypeTooLarge(N));
        }
        Ok(N + 2)
    }

    fn read_from_reader(bytes: &[u8], pos: usize) -> (r: Result<([u8; N], usize), EncodingError>) {
        let ghost s = rest_at(bytes@, pos as int);
        let (length, start) = u16::read_from_reader(bytes, pos)?;
        if length as usize != N || bytes.len() - start < N {
            return Err(EncodingError::UnexpectedEof);
        }
        let mut buffer = [0u8; N];
        let mut i: usize = 0;
        while i < N
            invariant
                i <= N,
                start + N <= bytes.len(),
                start + N <= bytes@.len(),
                s == rest_at(bytes@, pos as int),
                start == pos + 2,
                buffer@.len() == N,
                forall|j: int| 0 <= j < i ==> buffer@[j] == bytes@[start + j],
            decreases N - i,
        {
            buffer[i] = bytes[start + i];
            i = i + 1;
        }
        assert(buffer@ =~= s.subrange(2, N + 2));
        assert(buffer.deep_view() =~= s.subrange(2, N + 2));
        Ok((buffer, start + N))
    }
}

impl<const N: usize> WritableObjectType for [u8; N] {
    fn write_to_writer(&self, writer: &mut Vec<u8>) -> (r: Result<(), EncodingError>) {
        let ghost before = writer@;
        if let Err(e) = is_size_allowed(N) {
            proof {
                lemma_prefix_of_append(before, seq![]);
                assert(before + seq![] =~= before);
            }
            return Err(e);
        }
        (N as u16).write_to_writer(writer)?;
        let ghost mid = writer@;
        put_bytes(writer, slice_to_vec(self.as_slice()));
        proof {
            lemma_prefix_trans(before, mid, writer@);
            assert(writer@ =~= before + Self::spec_encode(self.deep_view()));
        }
        Ok(())
    }
}

impl<const N: usize> TypedObjectType for [u8; N] {
    open spec fn spec_type_key() -> u8 {
        11
    }

    fn type_key() -> (r: u8) {
        11
    }
}

} // verus!
