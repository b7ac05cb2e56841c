use crate::error::EncodingError;
use vstd::bytes::{lemma_auto_spec_u16_to_from_le_bytes, spec_u16_from_le_bytes, spec_u16_to_le_bytes};
use vstd::prelude::*;

verus! {

/// The bytes of `bytes` from `pos` on.
pub open spec fn rest_at(bytes: Seq<u8>, pos: int) -> Seq<u8> {
    bytes.subrange(pos, bytes.len() as int)
}

/// `r` is the executable counterpart of the decoding outcome `p` for a read
/// that started at `pos`: the same value and the position after it, or the
/// same error.
pub open spec fn read_matches<T: DeepView>(
    r: Result<(T, usize), EncodingError>,
    p: Result<(T::V, nat), EncodingError>,
    pos: usize,
) -> bool {
    match p {
        Ok((v, n)) => r matches Ok((x, end)) && x.deep_view() == v && end == pos + n,
        Err(e) => r matches Err(e2) && e2 == e,
    }
}

/// `r` reports the size, or the error, that `p` gives.
pub open spec fn size_matches(r: Result<usize, EncodingError>, p: Result<nat, EncodingError>) -> bool {
    match p {
        Ok(n) => r matches Ok(m) && m == n,
        Err(e) => r matches Err(e2) && e2 == e,
    }
}

/// `r` is the size option `p`.
pub open spec fn const_size_matches(r: Option<usize>, p: Option<nat>) -> bool {
    match p {
        Some(n) => r matches Some(m) && m == n,
        None => r is None,
    }
}

/// The outcome of writing `v` of type `T` onto a sink that held `before` and
/// now holds `after`: success exactly when `v` is writable, with the encoding
/// appended; on failure a length that exceeds the 16-bit limit is reported and
/// what the sink held stays in front.
pub open spec fn write_matches<T: TuxIOType>(
    r: Result<(), EncodingError>,
    v: T::V,
    before: Seq<u8>,
    after: Seq<u8>,
) -> bool {
    &&& r is Ok <==> T::spec_writable(v)
    &&& r is Ok ==> after == before + T::spec_encode(v)
    &&& r matches Err(e) ==> (e matches EncodingError::TypeTooLarge(n) && n > 65535)
    &&& before.is_prefix_of(after)
}

/// A sequence is a prefix of itself extended by anything.
pub proof fn lemma_prefix_of_append(a: Seq<u8>, b: Seq<u8>)
    ensures
        a.is_prefix_of(a + b),
{
    assert((a + b).subrange(0, a.len() as int) =~= a);
}

/// Being a prefix is transitive.
pub proof fn lemma_prefix_trans(a: Seq<u8>, b: Seq<u8>, c: Seq<u8>)
    requires
        a.is_prefix_of(b),
        b.is_prefix_of(c),
    ensures
        a.is_prefix_of(c),
{
    assert(c.subrange(0, a.len() as int) =~= b.subrange(0, a.len() as int));
}

/// Skipping `k` bytes of what follows `pos` is what follows `pos + k`.
pub proof fn lemma_rest_skip(bytes: Seq<u8>, pos: int, k: int)
    requires
        0 <= pos,
        0 <= k,
        pos + k <= bytes.len(),
    ensures
        rest_at(bytes, pos).skip(k) == rest_at(bytes, pos + k),
{
    assert(rest_at(bytes, pos).skip(k) =~= rest_at(bytes, pos + k));
}

/// Appends `tail` to `writer`.
pub fn put_bytes(writer: &mut Vec<u8>, tail: Vec<u8>)
    ensures
        final(writer)@ == old(writer)@ + tail@,
        old(writer)@.is_prefix_of(final(writer)@),
{
    let mut tail = tail;
    writer.append(&mut tail);
    proof {
        lemma_prefix_of_append(old(writer)@, tail@);
    }
}

/// The 16-bit little-endian prefix that carries a length or count `n`.
pub open spec fn spec_len_prefix(n: nat) -> Seq<u8> {
    spec_u16_to_le_bytes(n as u16)
}

/// The length or count carried by the prefix at the start of `s` (which
/// holds at least two bytes).
pub open spec fn spec_prefix_len(s: Seq<u8>) -> nat {
    spec_u16_from_le_bytes(s.subrange(0, 2)) as nat
}

/// A prefix is two bytes, and reading it back gives the count it carries.
pub proof fn lemma_len_prefix(n: nat, rest: Seq<u8>)
    requires
        n <= 65535,
    ensures
        spec_len_prefix(n).len() == 2,
        (spec_len_prefix(n) + rest).subrange(0, 2) == spec_len_prefix(n),
        spec_prefix_len(spec_len_prefix(n) + rest) == n,
{
    lemma_auto_spec_u16_to_from_le_bytes();
    assert((spec_len_prefix(n) + rest).subrange(0, 2) =~= spec_len_prefix(n));
}

/// A type whose values have a byte encoding of a size that can be reported.
///
/// The spec functions describe the format over the value's model
/// (`deep_view`); the proof functions are the obligations that keep size,
/// encoding, decoding and the size probe consistent with each other.
pub trait TuxIOType: DeepView + Sized {
    /// Number of bytes the encoding of `v` occupies.
    spec fn spec_size(v: Self::V) -> nat;

    /// The size shared by every value of `v`'s kind, where the kind fixes one.
    spec fn spec_const_size(v: Self::V) -> Option<nat>;

    /// Whether `v` can be written: every length prefix in it fits in 16 bits.
    spec fn spec_writable(v: Self::V) -> bool;

    /// Whether `v` respects the constraints that decoding checks beyond
    /// writability (a supported version, unique keys); most types have none.
    open spec fn spec_well_formed(v: Self::V) -> bool {
        true
    }

    /// The bytes written for `v`.
    spec fn spec_encode(v: Self::V) -> Seq<u8>;

    /// Decoding from the start of `s`: the value and the number of bytes used.
    spec fn spec_parse(s: Seq<u8>) -> Result<(Self::V, nat), EncodingError>;

    /// What the size probe reports for an encoding at the start of `s`.
    spec fn spec_read_size(s: Seq<u8>) -> Result<nat, EncodingError>;

    /// A written value occupies its reported size; a constant size is the size.
    proof fn lemma_size(v: Self::V)
        ensures
            Self::spec_writable(v) ==> Self::spec_encode(v).len() == Self::spec_size(v),
            Self::spec_const_size(v) matches Some(n) ==> n == Self::spec_size(v),
    ;

    /// Decoding what was written gives the value back, whatever follows it.
    proof fn lemma_parse_encode(v: Self::V, rest: Seq<u8>)
        requires
            Self::spec_writable(v),
            Self::spec_well_formed(v),
        ensures
            Self::spec_parse(Self::spec_encode(v) + rest) == Ok::<(Self::V, nat), EncodingError>(
                (v, Self::spec_encode(v).len()),
            ),
    ;

    /// A successful decoding stays within its input, and the size probe
    /// reports the number of bytes it used.
    proof fn lemma_parse_facts(s: Seq<u8>)
        ensures
            Self::spec_parse(s) matches Ok((_, n)) ==> n <= s.len()
                && Self::spec_read_size(s) == Ok::<nat, EncodingError>(n),
    ;

    /// The size shared by every value of this value's kind, if there is one.
    fn const_size(&self) -> (r: Option<usize>)
        ensures
            const_size_matches(r, Self::spec_const_size(self.deep_view())),
    ;

    /// Number of bytes this value's encoding occupies.
    fn size(&self) -> (r: usize)
        requires
            Self::spec_size(self.deep_view()) <= usize::MAX,
        ensures
            r == Self::spec_size(self.deep_view()),
    ;
}

/// A type that can be decoded from bytes.
///
/// A reader is a byte slice and a position in it; a read returns the value
/// and the position just after it.
pub trait ReadableObjectType: TuxIOType {
    /// The size of the encoding that starts at `pos`, found by reading as
    /// little of it as the format allows.
    fn read_size(bytes: &[u8], pos: usize) -> (r: Result<usize, EncodingError>)
        requires
            pos <= bytes@.len(),
        ensures
            size_matches(r, Self::spec_read_size(rest_at(bytes@, pos as int))),
    ;

    /// Decodes the value that starts at `pos`.
    fn read_from_reader(bytes: &[u8], pos: usize) -> (r: Result<(Self, usize), EncodingError>)
        requires
            pos <= bytes@.len(),
        ensures
            read_matches(r, Self::spec_parse(rest_at(bytes@, pos as int)), pos),
    ;

    /// Decodes the value at the start of `bytes`.
    fn read_from_bytes(bytes: &[u8]) -> (r: Result<Self, EncodingError>)
        ensures
            match Self::spec_parse(bytes@) {
                Ok((v, _)) => r matches Ok(x) && x.deep_view() == v,
                Err(e) => r matches Err(e2) && e2 == e,
            },
    {
        assert(rest_at(bytes@, 0) =~= bytes@);
        match Self::read_from_reader(bytes, 0) {
            Ok((v, _)) => Ok(v),
            Err(e) => Err(e),
        }
    }

    /// Moves past the value that starts at `pos`, returning the position
    /// after it; by default the value is decoded and dropped.
    fn skip(bytes: &[u8], pos: usize) -> (r: Result<usize, EncodingError>)
        requires
            pos <= bytes@.len(),
        ensures
            match Self::spec_parse(rest_at(bytes@, pos as int)) {
                Ok((_, n)) => r matches Ok(end) && end == pos + n,
                Err(e) => r matches Err(e2) && e2 == e,
            },
    {
        match Self::read_from_reader(bytes, pos) {
            Ok((_, end)) => Ok(end),
            Err(e) => Err(e),
        }
    }
}

/// A type that can be encoded onto a byte sink.
pub trait WritableObjectType: TuxIOType {
    /// Appends this value's encoding to `writer`.
    fn write_to_writer(&self, writer: &mut Vec<u8>) -> (r: Result<(), EncodingError>)
        ensures
            write_matches::<Self>(r, self.deep_view(), old(writer)@, final(writer)@),
    ;

    /// This value's encoding in a buffer of its own.
    fn write_to_bytes(&self) -> (r: Result<Vec<u8>, EncodingError>)
        ensures
            r is Ok <==> Self::spec_writable(self.deep_view()),
            r matches Ok(b) ==> b@ == Self::spec_encode(self.deep_view()),
            r matches Err(e) ==> (e matches EncodingError::TypeTooLarge(n) && n > 65535),
    {
        let mut buffer: Vec<u8> = Vec::new();
        match self.write_to_writer(&mut buffer) {
            Ok(()) => {
                assert(buffer@ =~= Self::spec_encode(self.deep_view()));
                Ok(buffer)
            },
            Err(e) => Err(e),
        }
    }
}

/// A type with a one-byte discriminator, unique across the format, that tags
/// it in value unions and typed maps.
pub trait TypedObjectType: ReadableObjectType + WritableObjectType {
    /// The discriminator.
    spec fn spec_type_key() -> u8;

    /// Returns the discriminator.
    fn type_key() -> (r: u8)
        ensures
            r == Self::spec_type_key(),
    ;

    /// Writes the discriminator, then the value.
    fn write_with_type(&self, writer: &mut Vec<u8>) -> (r: Result<(), EncodingError>)
        ensures
            r is Ok <==> Self::spec_writable(self.deep_view()),
            r is Ok ==> final(writer)@ == old(writer)@ + seq![Self::spec_type_key()]
                + Self::spec_encode(self.deep_view()),
            r matches Err(e) ==> (e matches EncodingError::TypeTooLarge(n) && n > 65535),
            old(writer)@.is_prefix_of(final(writer)@),
    {
        let ghost before = writer@;
        writer.push(Self::type_key());
        let r = self.write_to_writer(writer);
        proof {
            if r is Ok {
                assert(writer@ =~= before + seq![Self::spec_type_key()] + Self::spec_encode(self.deep_view()));
            }
            assert(before.is_prefix_of(writer@)) by {
                assert(writer@.subrange(0, before.len() as int) =~= before);
            }
        }
        r
    }
}

/// A type whose discriminator is also available as a constant.
pub trait ConstTypedObjectType: TypedObjectType {
    /// The discriminator.
    const TYPE_KEY: u8;
}

} // verus!
