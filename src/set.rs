use crate::containers::{items_continue, items_parse, write_items};
use crate::error::EncodingError;
use crate::object::{lemma_rest_skip, rest_at, ReadableObjectType, TuxIOType, WritableObjectType};
use crate::tags::TagKeyType;
use vstd::prelude::*;

verus! {

/// No element occurs twice.
pub open spec fn items_unique<T>(s: Seq<T>) -> bool {
    forall|i: int, j: int| 0 <= i < j < s.len() ==> s[i] != s[j]
}

/// The elements after adding `x`: unchanged when `x` is already there,
/// otherwise `x` is added at the end.
pub open spec fn add_item<T>(s: Seq<T>, x: T) -> Seq<T> {
    if s.contains(x) {
        s
    } else {
        s.push(x)
    }
}

/// The elements obtained by adding the items one after the other to an empty
/// set.
pub open spec fn from_items<T>(items: Seq<T>) -> Seq<T>
    decreases items.len(),
{
    if items.len() == 0 {
        seq![]
    } else {
        add_item(from_items(items.drop_last()), items.last())
    }
}

/// Adding an element keeps elements unique.
pub proof fn lemma_add_item_unique<T>(s: Seq<T>, x: T)
    requires
        items_unique(s),
    ensures
        items_unique(add_item(s, x)),
{
}

/// Adding unique elements one after the other rebuilds them, in order.
pub proof fn lemma_from_items_unique_id<T>(s: Seq<T>)
    requires
        items_unique(s),
    ensures
        from_items(s) == s,
    decreases s.len(),
{
    if s.len() > 0 {
        let init = s.drop_last();
        assert(items_unique(init));
        lemma_from_items_unique_id(init);
        assert(!init.contains(s.last())) by {
            if init.contains(s.last()) {
                let i = choose|i: int| 0 <= i < init.len() && init[i] == s.last();
                assert(s[i] == s[s.len() - 1]);
            }
        }
        assert(init.push(s.last()) =~= s);
    }
}

/// A set of encodable values, kept as a sequence without repeats.
///
/// On disk it is laid out as a sequence: a 16-bit element count, then the
/// elements. Decoding keeps the first of equal elements.
#[derive(Debug, Clone, PartialEq)]
pub struct ValueSet<T: TagKeyType> {
    items: Vec<T>,
}

impl<T: TagKeyType> DeepView for ValueSet<T> {
    type V = Seq<T::V>;

    closed spec fn deep_view(&self) -> Seq<T::V> {
        self.items.deep_view()
    }
}

/// Adds `x` to elements without repeats; returns whether it was added.
fn item_insert<T: TagKeyType>(items: &mut Vec<T>, x: T) -> (r: bool)
    requires
        items_unique(old(items).deep_view()),
    ensures
        items_unique(final(items).deep_view()),
        final(items).deep_view() == add_item(old(items).deep_view(), x.deep_view()),
        r == !old(items).deep_view().contains(x.deep_view()),
{
    let ghost m = items.deep_view();
    proof {
        lemma_add_item_unique(m, x.deep_view());
    }
    let mut i: usize = 0;
    while i < items.len()
        invariant
            i <= items@.len(),
            m == items.deep_view(),
            m == old(items).deep_view(),
            items_unique(m),
            forall|j: int| 0 <= j < i ==> m[j] != x.deep_view(),
        decreases items@.len() - i,
    {
        if items[i].same_key(&x) {
            assert(m[i as int] == x.deep_view());
            assert(m.contains(x.deep_view()));
            return false;
        }
        i = i + 1;
    }
    items.push(x);
    assert(items.deep_view() =~= m.push(x.deep_view()));
    true
}

impl<T: TagKeyType> ValueSet<T> {
    /// No element occurs twice.
    pub open spec fn wf(&self) -> bool {
        items_unique(self.deep_view())
    }

    /// An empty set.
    pub fn new() -> (r: ValueSet<T>)
        ensures
            r.wf(),
            r.deep_view() == Seq::<T::V>::empty(),
    {
        let r = ValueSet { items: Vec::new() };
        assert(r.deep_view() =~= Seq::<T::V>::empty());
        r
    }

    /// Adds `x`; returns whether it was not there yet.
    pub fn insert(&mut self, x: T) -> (r: bool)
        requires
            old(self).wf(),
        ensures
            final(self).wf(),
            final(self).deep_view() == add_item(old(self).deep_view(), x.deep_view()),
            r == !old(self).deep_view().contains(x.deep_view()),
    {
        item_insert(&mut self.items, x)
    }

    /// Number of elements.
    pub fn len(&self) -> (r: usize)
        ensures
            r == self.deep_view().len(),
    {
        self.items.len()
    }
}

impl<T: TagKeyType> TuxIOType for ValueSet<T> {
    open spec fn spec_size(v: Seq<T::V>) -> nat {
        <Vec<T> as TuxIOType>::spec_size(v)
    }

    open spec fn spec_const_size(v: Seq<T::V>) -> Option<nat> {
        None
    }

    open spec fn spec_writable(v: Seq<T::V>) -> bool {
        <Vec<T> as TuxIOType>::spec_writable(v)
    }

    open spec fn spec_well_formed(v: Seq<T::V>) -> bool {
        items_unique(v) && <Vec<T> as TuxIOType>::spec_well_formed(v)
    }

    /// The element count, then the elements.
    open spec fn spec_encode(v: Seq<T::V>) -> Seq<u8> {
        <Vec<T> as TuxIOType>::spec_encode(v)
    }

    open spec fn spec_parse(s: Seq<u8>) -> Result<(Seq<T::V>, nat), EncodingError> {
        match <Vec<T> as TuxIOType>::spec_parse(s) {
            Ok((items, n)) => Ok((from_items(items), n)),
            Err(e) => Err(e),
        }
    }

    open spec fn spec_read_size(s: Seq<u8>) -> Result<nat, EncodingError> {
        <Vec<T> as TuxIOType>::spec_read_size(s)
    }

    proof fn lemma_size(v: Seq<T::V>) {
        <Vec<T> as TuxIOType>::lemma_size(v);
    }

    proof fn lemma_parse_encode(v: Seq<T::V>, rest: Seq<u8>) {
        <Vec<T> as TuxIOType>::lemma_parse_encode(v, rest);
        lemma_from_items_unique_id(v);
    }

    proof fn lemma_parse_facts(s: Seq<u8>) {
        <Vec<T> as TuxIOType>::lemma_parse_facts(s);
    }

    fn const_size(&self) -> (r: Option<usize>) {
        None
    }

    fn size(&self) -> (r: usize) {
        self.items.size()
    }
}

impl<T: TagKeyType> ReadableObjectType for ValueSet<T> {
    fn read_size(bytes: &[u8], pos: usize) -> (r: Result<usize, EncodingError>) {
        Vec::<T>::read_size(bytes, pos)
    }

    fn read_from_reader(bytes: &[u8], pos: usize) -> (r: Result<(ValueSet<T>, usize), EncodingError>) {
        let ghost s = rest_at(bytes@, pos as int);
        let (n, start) = u16::read_from_reader(bytes, pos)?;
        proof {
            lemma_rest_skip(bytes@, pos as int, 2);
        }
        let mut items: Vec<T> = Vec::new();
        let ghost mut read: Seq<T::V> = seq![];
        proof {
            assert(items.deep_view() =~= from_items(read));
        }
        let mut p: usize = start;
        let mut i: u16 = 0;
        while i < n
            invariant
                start <= p <= bytes@.len(),
                i <= n,
                start == pos + 2,
                n == crate::object::spec_prefix_len(s),
                s.len() >= 2,
                s == rest_at(bytes@, pos as int),
                rest_at(bytes@, pos as int).skip(2) == rest_at(bytes@, start as int),
                items_unique(items.deep_view()),
                items.deep_view() == from_items(read),
                items_continue(
                    items_parse::<T>(rest_at(bytes@, start as int), n as nat),
                    read,
                    (p - start) as nat,
                    items_parse::<T>(rest_at(bytes@, p as int), (n - i) as nat),
                ),
            decreases n - i,
        {
            proof {
                T::lemma_parse_facts(rest_at(bytes@, p as int));
            }
            let (x, q) = T::read_from_reader(bytes, p)?;
            proof {
                lemma_rest_skip(bytes@, p as int, q - p);
            }
            let ghost before = read;
            let ghost dv = x.deep_view();
            item_insert(&mut items, x);
            proof {
                read = before.push(dv);
                assert(read.drop_last() =~= before);
                let tail = items_parse::<T>(rest_at(bytes@, q as int), (n - i - 1) as nat);
                if let Ok((vs, m)) = tail {
                    assert(before + (seq![dv] + vs) =~= read + vs);
                }
            }
            p = q;
            i = i + 1;
        }
        proof {
            assert(read + seq![] =~= read);
        }
        Ok((ValueSet { items }, p))
    }
}

impl<T: TagKeyType> WritableObjectType for ValueSet<T> {
    fn write_to_writer(&self, writer: &mut Vec<u8>) -> (r: Result<(), EncodingError>)
        ensures
            self.deep_view().len() > 65535 ==> r == Err::<(), EncodingError>(
                EncodingError::TypeTooLarge(self.deep_view().len() as usize),
            ),
    {
        self.items.write_to_writer(writer)
    }
}

} // verus!
