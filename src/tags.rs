use crate::containers::{
    items_continue, items_encode, items_parse, items_well_formed, items_writable,
    lemma_items_encode_front,
};
use crate::error::EncodingError;
use crate::object::{
    lemma_rest_skip, rest_at, spec_prefix_len, ReadableObjectType, TuxIOType, TypedObjectType,
    WritableObjectType,
};
use crate::value::{ValueType, ValueView};
use vstd::prelude::*;

verus! {

/// A key type for tag maps: encodable, with a discriminator, and comparable.
pub trait TagKeyType: TypedObjectType {
    /// Whether `self` and `other` are the same key.
    fn same_key(&self, other: &Self) -> (r: bool)
        ensures
            r == (self.deep_view() == other.deep_view()),
    ;
}

impl TagKeyType for String {
    fn same_key(&self, other: &String) -> (r: bool) {
        self.eq(other)
    }
}

impl TagKeyType for u8 {
    fn same_key(&self, other: &u8) -> (r: bool) {
        *self == *other
    }
}

impl TagKeyType for u16 {
    fn same_key(&self, other: &u16) -> (r: bool) {
        *self == *other
    }
}

impl TagKeyType for u32 {
    fn same_key(&self, other: &u32) -> (r: bool) {
        *self == *other
    }
}

impl TagKeyType for u64 {
    fn same_key(&self, other: &u64) -> (r: bool) {
        *self == *other
    }
}

impl TagKeyType for i8 {
    fn same_key(&self, other: &i8) -> (r: bool) {
        *self == *other
    }
}

impl TagKeyType for i16 {
    fn same_key(&self, other: &i16) -> (r: bool) {
        *self == *other
    }
}

impl TagKeyType for i32 {
    fn same_key(&self, other: &i32) -> (r: bool) {
        *self == *other
    }
}

impl TagKeyType for i64 {
    fn same_key(&self, other: &i64) -> (r: bool) {
        *self == *other
    }
}

impl TagKeyType for bool {
    fn same_key(&self, other: &bool) -> (r: bool) {
        *self == *other
    }
}

/// No key occurs twice among the entries.
pub open spec fn keys_unique<K, V>(m: Seq<(K, V)>) -> bool {
    forall|i: int, j: int| 0 <= i < j < m.len() ==> m[i].0 != m[j].0
}

/// Some entry has key `k`.
pub open spec fn has_key<K, V>(m: Seq<(K, V)>, k: K) -> bool {
    exists|i: int| 0 <= i < m.len() && m[i].0 == k
}

/// The position of an entry with key `k` (meaningful when there is one).
pub open spec fn key_index<K, V>(m: Seq<(K, V)>, k: K) -> int {
    choose|i: int| 0 <= i < m.len() && m[i].0 == k
}

/// The value stored under `k`, if any.
pub open spec fn lookup<K, V>(m: Seq<(K, V)>, k: K) -> Option<V> {
    if has_key(m, k) {
        Some(m[key_index(m, k)].1)
    } else {
        None
    }
}

/// The entries after storing `v` under `k`: an existing entry for `k` is
/// replaced in place, otherwise the entry is added at the end.
pub open spec fn insert_entry<K, V>(m: Seq<(K, V)>, k: K, v: V) -> Seq<(K, V)> {
    if has_key(m, k) {
        m.update(key_index(m, k), (k, v))
    } else {
        m.push((k, v))
    }
}

/// The entries after removing the one for `k`, if any; the others keep their order.
pub open spec fn remove_entry<K, V>(m: Seq<(K, V)>, k: K) -> Seq<(K, V)> {
    if has_key(m, k) {
        m.remove(key_index(m, k))
    } else {
        m
    }
}

/// The entries obtained by storing the pairs one after the other into an
/// empty map; a later pair for a key replaces an earlier one.
pub open spec fn from_pairs<K, V>(pairs: Seq<(K, V)>) -> Seq<(K, V)>
    decreases pairs.len(),
{
    if pairs.len() == 0 {
        seq![]
    } else {
        insert_entry(from_pairs(pairs.drop_last()), pairs.last().0, pairs.last().1)
    }
}

/// With unique keys, the entry found for a key is the one at its position.
pub proof fn lemma_key_index<K, V>(m: Seq<(K, V)>, i: int)
    requires
        keys_unique(m),
        0 <= i < m.len(),
    ensures
        has_key(m, m[i].0),
        key_index(m, m[i].0) == i,
{
    assert(has_key(m, m[i].0));
}

/// Storing a value keeps keys unique.
pub proof fn lemma_insert_unique<K, V>(m: Seq<(K, V)>, k: K, v: V)
    requires
        keys_unique(m),
    ensures
        keys_unique(insert_entry(m, k, v)),
{
}

/// Removing an entry keeps keys unique.
pub proof fn lemma_remove_unique<K, V>(m: Seq<(K, V)>, k: K)
    requires
        keys_unique(m),
    ensures
        keys_unique(remove_entry(m, k)),
{
    if has_key(m, k) {
        let i = key_index(m, k);
        let r = m.remove(i);
        assert forall|a: int, b: int| 0 <= a < b < r.len() implies r[a].0 != r[b].0 by {
            let a2 = if a < i { a } else { a + 1 };
            let b2 = if b < i { b } else { b + 1 };
            assert(r[a] == m[a2]);
            assert(r[b] == m[b2]);
        }
    }
}

/// Storing entries with unique keys one after the other rebuilds them, in
/// the same order.
pub proof fn lemma_from_pairs_unique_id<K, V>(m: Seq<(K, V)>)
    requires
        keys_unique(m),
    ensures
        from_pairs(m) == m,
    decreases m.len(),
{
    if m.len() > 0 {
        let init = m.drop_last();
        assert(keys_unique(init));
        lemma_from_pairs_unique_id(init);
        assert(!has_key(init, m.last().0)) by {
            if has_key(init, m.last().0) {
                let i = key_index(init, m.last().0);
                assert(m[i].0 == m[m.len() - 1].0);
            }
        }
        assert(init.push(m.last()) =~= m);
    }
}

/// Position of the entry for `key` among entries with unique keys, if any.
pub fn entry_position<K: TagKeyType, V: DeepView>(entries: &Vec<(K, V)>, key: &K) -> (r: Option<usize>)
    requires
        keys_unique(entries.deep_view()),
    ensures
        match r {
            Some(i) => has_key(entries.deep_view(), key.deep_view()) && i == key_index(
                entries.deep_view(),
                key.deep_view(),
            ) && i < entries.deep_view().len(),
            None => !has_key(entries.deep_view(), key.deep_view()),
        },
{
    let ghost m = entries.deep_view();
    let mut i: usize = 0;
    while i < entries.len()
        invariant
            i <= entries@.len(),
            m == entries.deep_view(),
            keys_unique(m),
            forall|j: int| 0 <= j < i ==> m[j].0 != key.deep_view(),
        decreases entries@.len() - i,
    {
        if entries[i].0.same_key(key) {
            proof {
                assert(m[i as int].0 == key.deep_view());
                lemma_key_index(m, i as int);
            }
            return Some(i);
        }
        i = i + 1;
    }
    proof {
        if has_key(m, key.deep_view()) {
            let j = key_index(m, key.deep_view());
            assert(m[j].0 == key.deep_view());
        }
    }
    None
}

/// Stores `value` under `key` among entries with unique keys, returning the
/// value it replaces.
pub fn entry_insert<K: TagKeyType, V: DeepView>(entries: &mut Vec<(K, V)>, key: K, value: V) -> (r: Option<V>)
    requires
        keys_unique(old(entries).deep_view()),
    ensures
        keys_unique(final(entries).deep_view()),
        final(entries).deep_view() == insert_entry(
            old(entries).deep_view(),
            key.deep_view(),
            value.deep_view(),
        ),
        match lookup(old(entries).deep_view(), key.deep_view()) {
            Some(v) => r matches Some(x) && x.deep_view() == v,
            None => r is None,
        },
{
    let ghost m = entries.deep_view();
    let ghost k = key.deep_view();
    let ghost v = value.deep_view();
    proof {
        lemma_insert_unique(m, k, v);
    }
    match entry_position(entries, &key) {
        Some(i) => {
            let (_, previous) = entries.remove(i);
            entries.insert(i, (key, value));
            assert(entries.deep_view() =~= m.update(i as int, (k, v)));
            Some(previous)
        },
        None => {
            entries.push((key, value));
            assert(entries.deep_view() =~= m.push((k, v)));
            None
        },
    }
}

/// Reads `n` key/value pairs starting at `start` and stores them one after
/// the other, a later pair for a key replacing an earlier one.
pub fn read_entries<K: TagKeyType, V: ReadableObjectType>(bytes: &[u8], start: usize, n: u16) -> (r: Result<(Vec<(K, V)>, usize), EncodingError>)
    requires
        start <= bytes@.len(),
    ensures
        match items_parse::<(K, V)>(rest_at(bytes@, start as int), n as nat) {
            Ok((pairs, m)) => r matches Ok((es, end)) && es.deep_view() == from_pairs(pairs)
                && end == start + m && keys_unique(es.deep_view()),
            Err(e) => r matches Err(e2) && e2 == e,
        },
{
    let mut entries: Vec<(K, V)> = Vec::new();
    let ghost mut pairs: Seq<(K::V, V::V)> = seq![];
    proof {
        assert(entries.deep_view() =~= from_pairs(pairs));
    }
    let mut p: usize = start;
    let mut i: u16 = 0;
    while i < n
        invariant
            start <= p <= bytes@.len(),
            i <= n,
            keys_unique(entries.deep_view()),
            entries.deep_view() == from_pairs(pairs),
            items_continue(
                items_parse::<(K, V)>(rest_at(bytes@, start as int), n as nat),
                pairs,
                (p - start) as nat,
                items_parse::<(K, V)>(rest_at(bytes@, p as int), (n - i) as nat),
            ),
        decreases n - i,
    {
        proof {
            <(K, V) as TuxIOType>::lemma_parse_facts(rest_at(bytes@, p as int));
        }
        let (entry, q) = <(K, V)>::read_from_reader(bytes, p)?;
        proof {
            lemma_rest_skip(bytes@, p as int, q - p);
        }
        let ghost before = pairs;
        let ghost dv = entry.deep_view();
        let (key, value) = entry;
        entry_insert(&mut entries, key, value);
        proof {
            pairs = before.push(dv);
            assert(pairs.drop_last() =~= before);
            let tail = items_parse::<(K, V)>(rest_at(bytes@, q as int), (n - i - 1) as nat);
            if let Ok((vs, m)) = tail {
                assert(before + (seq![dv] + vs) =~= pairs + vs);
            }
        }
        p = q;
        i = i + 1;
    }
    proof {
        assert(pairs + seq![] =~= pairs);
    }
    Ok((entries, p))
}

/// Searching `n` encoded entries from the start of `s` for `key`: the value
/// of the first entry with that key, `None` when no entry has it, or the
/// first decoding error met on the way.
pub open spec fn spec_find<K: TuxIOType>(s: Seq<u8>, n: nat, key: K::V) -> Result<Option<ValueView>, EncodingError>
    decreases n,
{
    if n == 0 {
        Ok(None)
    } else {
        match K::spec_parse(s) {
            Err(e) => Err(e),
            Ok((k, a)) => match ValueType::spec_parse(s.skip(a as int)) {
                Err(e) => Err(e),
                Ok((v, b)) => if k == key {
                    Ok(Some(v))
                } else {
                    spec_find::<K>(s.skip((a + b) as int), (n - 1) as nat, key)
                },
            },
        }
    }
}

/// Searching an encoded tag map at the start of `s` for `key`.
pub open spec fn spec_find_in<K: TuxIOType>(s: Seq<u8>, key: K::V) -> Result<Option<ValueView>, EncodingError> {
    if s.len() < 2 {
        Err(EncodingError::UnexpectedEof)
    } else {
        spec_find::<K>(s.skip(2), spec_prefix_len(s), key)
    }
}

/// Dropping a first entry whose key differs from `k` does not change what is
/// stored under `k`.
pub proof fn lemma_lookup_skip_first<K, V>(m: Seq<(K, V)>, k: K)
    requires
        keys_unique(m),
        m.len() > 0,
        m[0].0 != k,
    ensures
        lookup(m.skip(1), k) == lookup(m, k),
{
    let t = m.skip(1);
    assert(keys_unique(t)) by {
        assert forall|i: int, j: int| 0 <= i < j < t.len() implies t[i].0 != t[j].0 by {
            assert(t[i] == m[i + 1] && t[j] == m[j + 1]);
        }
    }
    if has_key(m, k) {
        let i = key_index(m, k);
        assert(t[i - 1] == m[i]);
        assert(has_key(t, k));
        lemma_key_index(t, i - 1);
    }
    if has_key(t, k) {
        let j = key_index(t, k);
        assert(t[j] == m[j + 1]);
        assert(has_key(m, k));
    }
}

/// Searching the entries of a written map finds exactly what is stored
/// under the key.
pub proof fn lemma_find_encoded<K: TuxIOType>(m: Seq<(K::V, ValueView)>, rest: Seq<u8>, key: K::V)
    requires
        keys_unique(m),
        items_writable::<(K, ValueType)>(m),
        items_well_formed::<(K, ValueType)>(m),
    ensures
        spec_find::<K>(items_encode::<(K, ValueType)>(m) + rest, m.len(), key) == Ok::<
            Option<ValueView>,
            EncodingError,
        >(lookup(m, key)),
    decreases m.len(),
{
    if m.len() == 0 {
        assert(!has_key(m, key));
    } else {
        lemma_items_encode_front::<(K, ValueType)>(m);
        let t = m.skip(1);
        let (k0, v0) = m[0];
        let ek = K::spec_encode(k0);
        let ev = ValueType::spec_encode(v0);
        let s = items_encode::<(K, ValueType)>(m) + rest;
        let after = items_encode::<(K, ValueType)>(t) + rest;
        assert(s =~= ek + (ev + after));
        assert(K::spec_writable(k0) && K::spec_well_formed(k0) && ValueType::spec_writable(v0)
            && ValueType::spec_well_formed(v0)) by {
            assert(<(K, ValueType) as TuxIOType>::spec_writable(m[0]));
            assert(<(K, ValueType) as TuxIOType>::spec_well_formed(m[0]));
        }
        K::lemma_parse_encode(k0, ev + after);
        assert(s.skip(ek.len() as int) =~= ev + after);
        ValueType::lemma_parse_encode(v0, after);
        assert(s.skip((ek.len() + ev.len()) as int) =~= after);
        if k0 == key {
            lemma_key_index(m, 0);
        } else {
            assert(keys_unique(t) && items_writable::<(K, ValueType)>(t) && items_well_formed::<
                (K, ValueType),
            >(t)) by {
                assert forall|i: int| 0 <= i < t.len() implies #[trigger] t[i] == m[i + 1] by {}
                assert forall|i: int, j: int| 0 <= i < j < t.len() implies t[i].0 != t[j].0 by {
                    assert(t[i] == m[i + 1] && t[j] == m[j + 1]);
                }
                assert forall|i: int| 0 <= i < t.len() implies <(K, ValueType) as TuxIOType>::spec_writable(#[trigger] t[i])
                    && <(K, ValueType) as TuxIOType>::spec_well_formed(t[i]) by {
                    assert(t[i] == m[i + 1]);
                }
            }
            lemma_find_encoded::<K>(t, rest, key);
            lemma_lookup_skip_first(m, key);
        }
    }
}

/// Every entry of `a` is stored, with the same value, in `b`.
pub open spec fn entries_within<K, V>(a: Seq<(K, V)>, b: Seq<(K, V)>) -> bool {
    forall|i: int| 0 <= i < a.len() ==> lookup(b, #[trigger] a[i].0) == Some(a[i].1)
}

/// With unique keys, holding each other's entries is storing the same value
/// under every key.
pub proof fn lemma_entries_within_both<K, V>(a: Seq<(K, V)>, b: Seq<(K, V)>)
    requires
        keys_unique(a),
        keys_unique(b),
    ensures
        (entries_within(a, b) && entries_within(b, a)) <==> (forall|k: K|
            lookup(a, k) == lookup(b, k)),
{
    if entries_within(a, b) && entries_within(b, a) {
        assert forall|k: K| lookup(a, k) == lookup(b, k) by {
            if has_key(a, k) {
                let i = key_index(a, k);
                assert(lookup(b, a[i].0) == Some(a[i].1));
            } else if has_key(b, k) {
                let j = key_index(b, k);
                assert(lookup(a, b[j].0) == Some(b[j].1));
            }
        }
    }
    if forall|k: K| lookup(a, k) == lookup(b, k) {
        assert forall|i: int| 0 <= i < a.len() implies lookup(b, #[trigger] a[i].0) == Some(
            a[i].1,
        ) by {
            lemma_key_index(a, i);
            assert(lookup(a, a[i].0) == lookup(b, a[i].0));
        }
        assert forall|j: int| 0 <= j < b.len() implies lookup(a, #[trigger] b[j].0) == Some(
            b[j].1,
        ) by {
            lemma_key_index(b, j);
            assert(lookup(a, b[j].0) == lookup(b, b[j].0));
        }
    }
}

/// Whether every entry of `a` is stored, with the same value, in `b`.
fn values_within<K: TagKeyType>(a: &Vec<(K, ValueType)>, b: &Vec<(K, ValueType)>) -> (r: bool)
    requires
        keys_unique(a.deep_view()),
        keys_unique(b.deep_view()),
    ensures
        r == entries_within(a.deep_view(), b.deep_view()),
{
    let ghost ma = a.deep_view();
    let ghost mb = b.deep_view();
    let mut i: usize = 0;
    while i < a.len()
        invariant
            i <= a@.len(),
            ma == a.deep_view(),
            mb == b.deep_view(),
            keys_unique(mb),
            forall|j: int| 0 <= j < i ==> lookup(mb, #[trigger] ma[j].0) == Some(ma[j].1),
        decreases a@.len() - i,
    {
        let ghost k = ma[i as int].0;
        assert(a[i as int].0.deep_view() == k);
        match entry_position(b, &a[i].0) {
            Some(j) => {
                let same = b[j].1.eq(&a[i].1);
                assert(lookup(mb, k) == Some(mb[j as int].1));
                assert(same == (mb[j as int].1 == ma[i as int].1));
                if !same {
                    return false;
                }
            },
            None => {
                assert(lookup(mb, k) is None);
                return false;
            },
        }
        i = i + 1;
    }
    true
}

/// An unordered mapping from keys to storable values, kept as a sequence of
/// entries with unique keys.
///
/// On disk: a 16-bit entry count, then each key's encoding followed by its
/// value's (discriminator and payload), with no padding.
#[derive(Debug, Clone, PartialEq)]
pub struct Tags<Key: TagKeyType = String> {
    entries: Vec<(Key, ValueType)>,
}

impl<Key: TagKeyType> DeepView for Tags<Key> {
    type V = Seq<(Key::V, ValueView)>;

    closed spec fn deep_view(&self) -> Seq<(Key::V, ValueView)> {
        self.entries.deep_view()
    }
}

impl<Key: TagKeyType> Default for Tags<Key> {
    /// An empty map.
    fn default() -> (r: Tags<Key>)
        ensures
            r.wf(),
            r.deep_view() == Seq::<(Key::V, ValueView)>::empty(),
    {
        Tags::new()
    }
}

impl<Key: TagKeyType> Tags<Key> {
    /// Every key occurs once.
    pub open spec fn wf(&self) -> bool {
        keys_unique(self.deep_view())
    }

    /// An empty map.
    pub fn new() -> (r: Tags<Key>)
        ensures
            r.wf(),
            r.deep_view() == Seq::<(Key::V, ValueView)>::empty(),
    {
        let r = Tags { entries: Vec::new() };
        assert(r.deep_view() =~= Seq::<(Key::V, ValueView)>::empty());
        r
    }

    /// Stores `value` under `key`, returning the value it replaces.
    pub fn insert(&mut self, key: Key, value: ValueType) -> (r: Option<ValueType>)
        requires
            old(self).wf(),
        ensures
            final(self).wf(),
            final(self).deep_view() == insert_entry(
                old(self).deep_view(),
                key.deep_view(),
                value.deep_view(),
            ),
            match lookup(old(self).deep_view(), key.deep_view()) {
                Some(v) => r matches Some(x) && x.deep_view() == v,
                None => r is None,
            },
    {
        entry_insert(&mut self.entries, key, value)
    }

    /// The value stored under `key`, if any.
    pub fn get(&self, key: &Key) -> (r: Option<&ValueType>)
        requires
            self.wf(),
        ensures
            match lookup(self.deep_view(), key.deep_view()) {
                Some(v) => r matches Some(x) && x.deep_view() == v,
                None => r is None,
            },
    {
        match entry_position(&self.entries, key) {
            Some(i) => Some(&self.entries[i].1),
            None => None,
        }
    }

    /// A mutable borrow of the value stored under `key`, if any; whatever is
    /// left in it is then stored under `key` (keys stay unique, as
    /// `lemma_insert_unique` shows).
    pub fn get_mut(&mut self, key: &Key) -> (r: Option<&mut ValueType>)
        requires
            old(self).wf(),
        ensures
            match lookup(old(self).deep_view(), key.deep_view()) {
                Some(v) => r matches Some(x) && x.deep_view() == v && final(self).deep_view()
                    == insert_entry(old(self).deep_view(), key.deep_view(), final(x).deep_view()),
                None => r is None && final(self).deep_view() == old(self).deep_view() && final(self).wf(),
            },
    {
        match entry_position(&self.entries, key) {
            Some(i) => {
                let entry = &mut self.entries[i];
                Some(&mut entry.1)
            },
            None => None,
        }
    }

    /// Removes the entry for `key`, returning its value.
    pub fn remove(&mut self, key: &Key) -> (r: Option<ValueType>)
        requires
            old(self).wf(),
        ensures
            final(self).wf(),
            final(self).deep_view() == remove_entry(old(self).deep_view(), key.deep_view()),
            match lookup(old(self).deep_view(), key.deep_view()) {
                Some(v) => r matches Some(x) && x.deep_view() == v,
                None => r is None,
            },
    {
        let ghost m = self.deep_view();
        proof {
            lemma_remove_unique(m, key.deep_view());
        }
        match entry_position(&self.entries, key) {
            Some(i) => {
                let (_, previous) = self.entries.remove(i);
                assert(self.deep_view() =~= m.remove(i as int));
                Some(previous)
            },
            None => None,
        }
    }

    /// Whether both maps store the same value under every key, in whatever
    /// order their entries stand (`==` also compares the order).
    pub fn same_entries(&self, other: &Tags<Key>) -> (r: bool)
        requires
            self.wf(),
            other.wf(),
        ensures
            r == (forall|k: Key::V| lookup(self.deep_view(), k) == lookup(other.deep_view(), k)),
    {
        proof {
            lemma_entries_within_both(self.deep_view(), other.deep_view());
        }
        values_within(&self.entries, &other.entries) && values_within(&other.entries, &self.entries)
    }

    /// Number of entries.
    pub fn number_of_tags(&self) -> (r: usize)
        ensures
            r == self.deep_view().len(),
    {
        self.entries.len()
    }

    /// Whether there is no entry.
    pub fn is_empty(&self) -> (r: bool)
        ensures
            r == (self.deep_view().len() == 0),
    {
        self.entries.len() == 0
    }

    /// Searches the encoded map at `pos` for `key`, decoding entries only
    /// until the key is found.
    pub fn find_from_reader(bytes: &[u8], pos: usize, key: &Key) -> (r: Result<Option<ValueType>, EncodingError>)
        requires
            pos <= bytes@.len(),
        ensures
            match spec_find_in::<Key>(rest_at(bytes@, pos as int), key.deep_view()) {
                Ok(Some(v)) => r matches Ok(Some(x)) && x.deep_view() == v,
                Ok(None) => r matches Ok(None),
                Err(e) => r matches Err(e2) && e2 == e,
            },
    {
        let ghost k = key.deep_view();
        let (n, start) = u16::read_from_reader(bytes, pos)?;
        proof {
            lemma_rest_skip(bytes@, pos as int, 2);
        }
        let mut p: usize = start;
        let mut i: u16 = 0;
        while i < n
            invariant
                start <= p <= bytes@.len(),
                i <= n,
                k == key.deep_view(),
                spec_find_in::<Key>(rest_at(bytes@, pos as int), k) == spec_find::<Key>(
                    rest_at(bytes@, p as int),
                    (n - i) as nat,
                    k,
                ),
            decreases n - i,
        {
            proof {
                Key::lemma_parse_facts(rest_at(bytes@, p as int));
            }
            let (tag_key, q) = Key::read_from_reader(bytes, p)?;
            proof {
                lemma_rest_skip(bytes@, p as int, q - p);
                ValueType::lemma_parse_facts(rest_at(bytes@, q as int));
            }
            if tag_key.same_key(key) {
                let (value, _) = ValueType::read_from_reader(bytes, q)?;
                return Ok(Some(value));
            }
            let end = ValueType::skip(bytes, q)?;
            proof {
                lemma_rest_skip(bytes@, q as int, end - q);
                assert(rest_at(bytes@, p as int).skip((q - p) + (end - q)) == rest_at(bytes@, end as int)) by {
                    lemma_rest_skip(bytes@, p as int, end - p);
                }
            }
            p = end;
            i = i + 1;
        }
        Ok(None)
    }

    /// Reads the entry count of an encoded map at `pos`.
    pub fn read_tag_count(bytes: &[u8], pos: usize) -> (r: Result<u16, EncodingError>)
        requires
            pos <= bytes@.len(),
        ensures
            rest_at(bytes@, pos as int).len() < 2 ==> r == Err::<u16, EncodingError>(
                EncodingError::UnexpectedEof,
            ),
            rest_at(bytes@, pos as int).len() >= 2 ==> (r matches Ok(n) && n == spec_prefix_len(
                rest_at(bytes@, pos as int),
            )),
    {
        let (n, _) = u16::read_from_reader(bytes, pos)?;
        Ok(n)
    }
}

impl<Key: TagKeyType> TuxIOType for Tags<Key> {
    open spec fn spec_size(v: Seq<(Key::V, ValueView)>) -> nat {
        <Vec<(Key, ValueType)> as TuxIOType>::spec_size(v)
    }

    open spec fn spec_const_size(v: Seq<(Key::V, ValueView)>) -> Option<nat> {
        None
    }

    /// At most 65,535 entries, each writable.
    open spec fn spec_writable(v: Seq<(Key::V, ValueView)>) -> bool {
        <Vec<(Key, ValueType)> as TuxIOType>::spec_writable(v)
    }

    open spec fn spec_well_formed(v: Seq<(Key::V, ValueView)>) -> bool {
        keys_unique(v) && <Vec<(Key, ValueType)> as TuxIOType>::spec_well_formed(v)
    }

    /// The entry count, then each key followed by its value.
    open spec fn spec_encode(v: Seq<(Key::V, ValueView)>) -> Seq<u8> {
        <Vec<(Key, ValueType)> as TuxIOType>::spec_encode(v)
    }

    /// The pairs are stored in the order read; a repeated key keeps the
    /// last value read for it.
    open spec fn spec_parse(s: Seq<u8>) -> Result<(Seq<(Key::V, ValueView)>, nat), EncodingError> {
        match <Vec<(Key, ValueType)> as TuxIOType>::spec_parse(s) {
            Ok((pairs, n)) => Ok((from_pairs(pairs), n)),
            Err(e) => Err(e),
        }
    }

    open spec fn spec_read_size(s: Seq<u8>) -> Result<nat, EncodingError> {
        <Vec<(Key, ValueType)> as TuxIOType>::spec_read_size(s)
    }

    proof fn lemma_size(v: Seq<(Key::V, ValueView)>) {
        <Vec<(Key, ValueType)> as TuxIOType>::lemma_size(v);
    }

    proof fn lemma_parse_encode(v: Seq<(Key::V, ValueView)>, rest: Seq<u8>) {
        <Vec<(Key, ValueType)> as TuxIOType>::lemma_parse_encode(v, rest);
        lemma_from_pairs_unique_id(v);
    }

    proof fn lemma_parse_facts(s: Seq<u8>) {
        <Vec<(Key, ValueType)> as TuxIOType>::lemma_parse_facts(s);
    }

    fn const_size(&self) -> (r: Option<usize>) {
        None
    }

    fn size(&self) -> (r: usize) {
        self.entries.size()
    }
}

impl<Key: TagKeyType> ReadableObjectType for Tags<Key> {
    fn read_size(bytes: &[u8], pos: usize) -> (r: Result<usize, EncodingError>) {
        Vec::<(Key, ValueType)>::read_size(bytes, pos)
    }

    fn read_from_reader(bytes: &[u8], pos: usize) -> (r: Result<(Tags<Key>, usize), EncodingError>) {
        let ghost s = rest_at(bytes@, pos as int);
        let (n, start) = u16::read_from_reader(bytes, pos)?;
        proof {
            lemma_rest_skip(bytes@, pos as int, 2);
        }
        let (entries, end) = read_entries::<Key, ValueType>(bytes, start, n)?;
        Ok((Tags { entries }, end))
    }
}

impl<Key: TagKeyType> WritableObjectType for Tags<Key> {
    fn write_to_writer(&self, writer: &mut Vec<u8>) -> (r: Result<(), EncodingError>)
        ensures
            self.deep_view().len() > 65535 ==> r == Err::<(), EncodingError>(
                EncodingError::TypeTooLarge(self.deep_view().len() as usize),
            ),
    {
        self.entries.write_to_writer(writer)
    }
}

} // verus!
