use crate::containers::{items_encode, items_parse, items_read_size, read_items_size, write_items};
use crate::error::{is_size_allowed, EncodingError};
use crate::object::{
    lemma_len_prefix, lemma_prefix_of_append, lemma_prefix_trans, lemma_rest_skip, rest_at,
    spec_len_prefix, spec_prefix_len, ReadableObjectType, TuxIOType, TypedObjectType,
    WritableObjectType,
};
use crate::tags::{
    entry_insert, entry_position, from_pairs, insert_entry, keys_unique,
    lemma_from_pairs_unique_id, lookup, read_entries, TagKeyType,
};
use vstd::prelude::*;

verus! {

/// A map whose key and value types both carry discriminators, kept as a
/// sequence of entries with unique keys.
///
/// On disk: a 16-bit entry count, the key type's discriminator, the value
/// type's discriminator, then each key followed by its value. Decoding checks
/// both discriminators against the expected types before reading any entry.
#[derive(Debug, Clone, PartialEq)]
pub struct TypedMap<K: TagKeyType, V: TypedObjectType> {
    entries: Vec<(K, V)>,
}

impl<K: TagKeyType, V: TypedObjectType> DeepView for TypedMap<K, V> {
    type V = Seq<(K::V, V::V)>;

    closed spec fn deep_view(&self) -> Seq<(K::V, V::V)> {
        self.entries.deep_view()
    }
}

impl<K: TagKeyType, V: TypedObjectType> TypedMap<K, V> {
    /// Every key occurs once.
    pub open spec fn wf(&self) -> bool {
        keys_unique(self.deep_view())
    }

    /// An empty map.
    pub fn new() -> (r: TypedMap<K, V>)
        ensures
            r.wf(),
            r.deep_view() == Seq::<(K::V, V::V)>::empty(),
    {
        let r = TypedMap { entries: Vec::new() };
        assert(r.deep_view() =~= Seq::<(K::V, V::V)>::empty());
        r
    }

    /// Stores `value` under `key`, returning the value it replaces.
    pub fn insert(&mut self, key: K, value: V) -> (r: Option<V>)
        requires
            old(self).wf(),
        ensures
            final(self).wf(),
            final(self).deep_view() == insert_entry(
                old(self).deep_view(),
                key.deep_view(),
                value.deep_view(),
            ),
            match lookup(old(self).deep_view(), key.deep_view()) {
                Some(v) => r matches Some(x) && x.deep_view() == v,
                None => r is None,
            },
    {
        entry_insert(&mut self.entries, key, value)
    }

    /// The value stored under `key`, if any.
    pub fn get(&self, key: &K) -> (r: Option<&V>)
        requires
            self.wf(),
        ensures
            match lookup(self.deep_view(), key.deep_view()) {
                Some(v) => r matches Some(x) && x.deep_view() == v,
                None => r is None,
            },
    {
        match entry_position(&self.entries, key) {
            Some(i) => Some(&self.entries[i].1),
            None => None,
        }
    }

    /// Number of entries.
    pub fn len(&self) -> (r: usize)
        ensures
            r == self.deep_view().len(),
    {
        self.entries.len()
    }
}

impl<K: TagKeyType, V: TypedObjectType> TuxIOType for TypedMap<K, V> {
    open spec fn spec_size(v: Seq<(K::V, V::V)>) -> nat {
        <Vec<(K, V)> as TuxIOType>::spec_size(v) + 2
    }

    open spec fn spec_const_size(v: Seq<(K::V, V::V)>) -> Option<nat> {
        None
    }

    open spec fn spec_writable(v: Seq<(K::V, V::V)>) -> bool {
        <Vec<(K, V)> as TuxIOType>::spec_writable(v)
    }

    open spec fn spec_well_formed(v: Seq<(K::V, V::V)>) -> bool {
        keys_unique(v) && <Vec<(K, V)> as TuxIOType>::spec_well_formed(v)
    }

    /// The entry count, the two discriminators, then the entries.
    open spec fn spec_encode(v: Seq<(K::V, V::V)>) -> Seq<u8> {
        spec_len_prefix(v.len()) + seq![K::spec_type_key(), V::spec_type_key()] + items_encode::<
            (K, V),
        >(v)
    }

    /// A stored discriminator that differs from the expected one is rejected
    /// with `MismatchedObjectType(expected, found)`, the key's first.
    open spec fn spec_parse(s: Seq<u8>) -> Result<(Seq<(K::V, V::V)>, nat), EncodingError> {
        if s.len() < 4 {
            Err(EncodingError::UnexpectedEof)
        } else if s[2] != K::spec_type_key() {
            Err(EncodingError::MismatchedObjectType(K::spec_type_key(), s[2]))
        } else if s[3] != V::spec_type_key() {
            Err(EncodingError::MismatchedObjectType(V::spec_type_key(), s[3]))
        } else {
            match items_parse::<(K, V)>(s.skip(4), spec_prefix_len(s)) {
                Ok((pairs, m)) => Ok((from_pairs(pairs), m + 4)),
                Err(e) => Err(e),
            }
        }
    }

    open spec fn spec_read_size(s: Seq<u8>) -> Result<nat, EncodingError> {
        if s.len() < 4 {
            Err(EncodingError::UnexpectedEof)
        } else {
            match items_read_size::<(K, V)>(s.skip(4), spec_prefix_len(s)) {
                Ok(m) => Ok(m + 4),
                Err(e) => Err(e),
            }
        }
    }

    proof fn lemma_size(v: Seq<(K::V, V::V)>) {
        <Vec<(K, V)> as TuxIOType>::lemma_size(v);
        if Self::spec_writable(v) {
            lemma_len_prefix(v.len(), seq![]);
        }
    }

    proof fn lemma_parse_encode(v: Seq<(K::V, V::V)>, rest: Seq<u8>) {
        let body = items_encode::<(K, V)>(v);
        let keys = seq![K::spec_type_key(), V::spec_type_key()];
        lemma_len_prefix(v.len(), keys + body + rest);
        let s = Self::spec_encode(v) + rest;
        assert(s =~= spec_len_prefix(v.len()) + (keys + body + rest));
        assert(s.skip(4) =~= body + rest);
        crate::containers::lemma_items_parse_encode::<(K, V)>(v, rest);
        lemma_from_pairs_unique_id(v);
    }

    proof fn lemma_parse_facts(s: Seq<u8>) {
        if s.len() >= 4 {
            crate::containers::lemma_items_parse_facts::<(K, V)>(s.skip(4), spec_prefix_len(s));
        }
    }

    fn const_size(&self) -> (r: Option<usize>) {
        None
    }

    fn size(&self) -> (r: usize) {
        self.entries.size() + 2
    }
}

impl<K: TagKeyType, V: TypedObjectType> ReadableObjectType for TypedMap<K, V> {
    fn read_size(bytes: &[u8], pos: usize) -> (r: Result<usize, EncodingError>) {
        if bytes.len() - pos < 4 {
            return Err(EncodingError::UnexpectedEof);
        }
        let (n, _) = u16::read_from_reader(bytes, pos)?;
        proof {
            lemma_rest_skip(bytes@, pos as int, 4);
        }
        let k = read_items_size::<(K, V)>(bytes, pos + 4, n)?;
        Ok(k + 4)
    }

    fn read_from_reader(bytes: &[u8], pos: usize) -> (r: Result<(TypedMap<K, V>, usize), EncodingError>) {
        let ghost s = rest_at(bytes@, pos as int);
        if bytes.len() - pos < 4 {
            return Err(EncodingError::UnexpectedEof);
        }
        let (n, _) = u16::read_from_reader(bytes, pos)?;
        let key_type = bytes[pos + 2];
        let value_type = bytes[pos + 3];
        if key_type != K::type_key() {
            return Err(EncodingError::MismatchedObjectType(K::type_key(), key_type));
        }
        if value_type != V::type_key() {
            return Err(EncodingError::MismatchedObjectType(V::type_key(), value_type));
        }
        proof {
            lemma_rest_skip(bytes@, pos as int, 4);
        }
        let (entries, end) = read_entries::<K, V>(bytes, pos + 4, n)?;
        Ok((TypedMap { entries }, end))
    }
}

impl<K: TagKeyType, V: TypedObjectType> WritableObjectType for TypedMap<K, V> {
    fn write_to_writer(&self, writer: &mut Vec<u8>) -> (r: Result<(), EncodingError>)
        ensures
            self.deep_view().len() > 65535 ==> r == Err::<(), EncodingError>(
                EncodingError::TypeTooLarge(self.deep_view().len() as usize),
            ),
    {
        let ghost before = writer@;
        let ghost dv = self.deep_view();
        if let Err(e) = is_size_allowed(self.entries.len()) {
            proof {
                lemma_prefix_of_append(before, seq![]);
                assert(before + seq![] =~= before);
            }
            return Err(e);
        }
        (self.entries.len() as u16).write_to_writer(writer)?;
        writer.push(K::type_key());
        writer.push(V::type_key());
        let ghost mid = writer@;
        proof {
            lemma_prefix_of_append(before, mid.subrange(before.len() as int, mid.len() as int));
            assert(before + mid.subrange(before.len() as int, mid.len() as int) =~= mid);
        }
        let r = write_items(&self.entries, writer);
        proof {
            lemma_prefix_trans(before, mid, writer@);
            if r is Ok {
                assert(writer@ =~= before + Self::spec_encode(dv));
            }
        }
        r
    }
}

} // verus!
