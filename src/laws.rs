//! The format's laws, stated over the spec functions that the readers and
//! writers are proved against.
use crate::error::EncodingError;
use crate::header::{spec_magic, ObjectHeader};
use crate::map::TypedMap;
use crate::object::{TuxIOType, TypedObjectType};
use crate::containers::items_encode;
use crate::object::{lemma_len_prefix, spec_len_prefix};
use crate::tags::{lemma_find_encoded, lookup, spec_find_in, TagKeyType, Tags};
use crate::value::{spec_variant_key, ValueType, ValueView};
use vstd::prelude::*;

verus! {

/// Round trip: decoding the bytes written for any writable, well-formed
/// value gives that value back and uses exactly those bytes, whatever
/// follows them.
pub proof fn lemma_round_trip<T: TuxIOType>(v: T::V, rest: Seq<u8>)
    requires
        T::spec_writable(v),
        T::spec_well_formed(v),
    ensures
        T::spec_parse(T::spec_encode(v) + rest) == Ok::<(T::V, nat), EncodingError>(
            (v, T::spec_encode(v).len()),
        ),
{
    T::lemma_parse_encode(v, rest);
}

/// Size fidelity: the reported size of a writable value is the length of
/// what is written for it, and the size probe on those bytes reports the same
/// length.
pub proof fn lemma_size_fidelity<T: TuxIOType>(v: T::V, rest: Seq<u8>)
    requires
        T::spec_writable(v),
        T::spec_well_formed(v),
    ensures
        T::spec_size(v) == T::spec_encode(v).len(),
        T::spec_read_size(T::spec_encode(v) + rest) == Ok::<nat, EncodingError>(T::spec_size(v)),
        T::spec_const_size(v) matches Some(n) ==> n == T::spec_size(v),
{
    T::lemma_size(v);
    T::lemma_parse_encode(v, rest);
    T::lemma_parse_facts(T::spec_encode(v) + rest);
}

/// A header whose sections are ordered (`content_start >= tags_start >= 32`)
/// and whose version is the current one decodes back from its 32 bytes.
pub proof fn lemma_header_round_trip(h: ObjectHeader, rest: Seq<u8>)
    requires
        h.sections_ordered(),
        h.version == 0,
    ensures
        ObjectHeader::spec_encode(h).len() == 32,
        ObjectHeader::spec_parse(ObjectHeader::spec_encode(h) + rest) == Ok::<
            (ObjectHeader, nat),
            EncodingError,
        >((h, 32)),
{
    ObjectHeader::lemma_size(h);
    ObjectHeader::lemma_parse_encode(h, rest);
}

/// A buffer of at least 32 bytes that does not start with the magic bytes is
/// rejected as `InvalidMagic`, whatever its version byte holds.
pub proof fn lemma_header_invalid_magic(s: Seq<u8>)
    requires
        s.len() >= 32,
        s.subrange(0, 3) != spec_magic(),
    ensures
        ObjectHeader::spec_parse(s) == Err::<(ObjectHeader, nat), EncodingError>(
            EncodingError::InvalidMagic,
        ),
{
}

/// A buffer with the magic bytes and a version other than the current one is
/// rejected as `UnsupportedVersion`, carrying that version.
pub proof fn lemma_header_unsupported_version(s: Seq<u8>)
    requires
        s.len() >= 32,
        s.subrange(0, 3) == spec_magic(),
        s[3] != 0,
    ensures
        ObjectHeader::spec_parse(s) == Err::<(ObjectHeader, nat), EncodingError>(
            EncodingError::UnsupportedVersion(s[3]),
        ),
{
}

/// A tag map with at most 65,535 entries decodes back to the same entries:
/// the same value under every key.
pub proof fn lemma_tags_round_trip<Key: TagKeyType>(m: Seq<(Key::V, ValueView)>, rest: Seq<u8>)
    requires
        Tags::<Key>::spec_writable(m),
        Tags::<Key>::spec_well_formed(m),
    ensures
        Tags::<Key>::spec_parse(Tags::<Key>::spec_encode(m) + rest) matches Ok((d, n))
            && d == m && n == Tags::<Key>::spec_encode(m).len()
            && forall|k: Key::V| lookup(d, k) == lookup(m, k),
{
    Tags::<Key>::lemma_parse_encode(m, rest);
}

/// Searching the bytes written for a tag map finds, for every key, exactly
/// the value stored under it, or nothing when it has none.
pub proof fn lemma_tags_find<Key: TagKeyType>(m: Seq<(Key::V, ValueView)>, rest: Seq<u8>, key: Key::V)
    requires
        Tags::<Key>::spec_writable(m),
        Tags::<Key>::spec_well_formed(m),
    ensures
        spec_find_in::<Key>(Tags::<Key>::spec_encode(m) + rest, key) == Ok::<
            Option<ValueView>,
            EncodingError,
        >(lookup(m, key)),
{
    let body = items_encode::<(Key, ValueType)>(m);
    lemma_len_prefix(m.len(), body + rest);
    let s = Tags::<Key>::spec_encode(m) + rest;
    assert(s =~= spec_len_prefix(m.len()) + (body + rest));
    assert(s.skip(2) =~= body + rest);
    lemma_find_encoded::<Key>(m, rest, key);
}

/// A tag map of more than 65,535 entries cannot be written.
pub proof fn lemma_tags_too_many<Key: TagKeyType>(m: Seq<(Key::V, ValueView)>)
    requires
        m.len() > 65535,
    ensures
        !Tags::<Key>::spec_writable(m),
{
}

/// A typed map whose stored key discriminator is not the key type's is
/// rejected as `MismatchedObjectType`, whatever the remaining bytes hold.
pub proof fn lemma_typed_map_key_mismatch<K: TagKeyType, V: TypedObjectType>(s: Seq<u8>)
    requires
        s.len() >= 4,
        s[2] != K::spec_type_key(),
    ensures
        TypedMap::<K, V>::spec_parse(s) == Err::<(Seq<(K::V, V::V)>, nat), EncodingError>(
            EncodingError::MismatchedObjectType(K::spec_type_key(), s[2]),
        ),
{
}

/// A typed map with the right key discriminator but another value type's is
/// rejected as `MismatchedObjectType`, whatever the remaining bytes hold.
pub proof fn lemma_typed_map_value_mismatch<K: TagKeyType, V: TypedObjectType>(s: Seq<u8>)
    requires
        s.len() >= 4,
        s[2] == K::spec_type_key(),
        s[3] != V::spec_type_key(),
    ensures
        TypedMap::<K, V>::spec_parse(s) == Err::<(Seq<(K::V, V::V)>, nat), EncodingError>(
            EncodingError::MismatchedObjectType(V::spec_type_key(), s[3]),
        ),
{
}

/// The discriminators that values carry: 0 to 17 except 15, which belongs to
/// the time zone type that no value holds.
pub open spec fn is_value_key(k: u8) -> bool {
    k <= 17 && k != 15
}

/// Writing any value puts its kind's discriminator first, and every kind's
/// discriminator is one of the known ones.
pub proof fn lemma_value_leading_key(v: ValueView)
    ensures
        ValueType::spec_encode(v)[0] == spec_variant_key(v),
        is_value_key(spec_variant_key(v)),
{
}

/// A value whose discriminator is not a known one is rejected as
/// `UnknownTypeKey`, carrying that byte.
pub proof fn lemma_value_unknown_key(s: Seq<u8>)
    requires
        s.len() >= 1,
        !is_value_key(s[0]),
    ensures
        ValueType::spec_parse(s) == Err::<(ValueView, nat), EncodingError>(
            EncodingError::UnknownTypeKey(s[0]),
        ),
{
}

/// The discriminators of the value kinds are pairwise distinct.
pub proof fn lemma_value_keys_distinct(a: ValueView, b: ValueView)
    requires
        spec_variant_key(a) == spec_variant_key(b),
    ensures
        a.spec_kind() == b.spec_kind(),
{
}

} // verus!
