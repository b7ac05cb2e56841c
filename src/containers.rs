use crate::error::{is_size_allowed, EncodingError};
use crate::object::{
    lemma_len_prefix, lemma_prefix_of_append, lemma_prefix_trans, lemma_rest_skip, put_bytes, rest_at, spec_len_prefix, spec_prefix_len,
    ReadableObjectType, ConstTypedObjectType, TuxIOType, TypedObjectType, WritableObjectType,
};
use crate::bytes::string_from_utf8;
use vstd::prelude::*;
use vstd::slice::{slice_subrange, slice_to_vec};
use vstd::utf8::{decode_utf8, encode_utf8, encode_utf8_decode_utf8, encode_utf8_valid_utf8, valid_utf8};

verus! {

impl TuxIOType for String {
    open spec fn spec_size(v: Seq<char>) -> nat {
        encode_utf8(v).len() + 2
    }

    open spec fn spec_const_size(v: Seq<char>) -> Option<nat> {
        None
    }

    open spec fn spec_writable(v: Seq<char>) -> bool {
        encode_utf8(v).len() <= 65535
    }

    /// The byte count, then the UTF-8 bytes.
    open spec fn spec_encode(v: Seq<char>) -> Seq<u8> {
        spec_len_prefix(encode_utf8(v).len()) + encode_utf8(v)
    }

    /// Bytes that are not valid UTF-8 are rejected as `UnexpectedEof`.
    open spec fn spec_parse(s: Seq<u8>) -> Result<(Seq<char>, nat), EncodingError> {
        if s.len() < 2 || s.len() < 2 + spec_prefix_len(s) {
            Err(EncodingError::UnexpectedEof)
        } else if !valid_utf8(s.subrange(2, 2 + spec_prefix_len(s) as int)) {
            Err(EncodingError::UnexpectedEof)
        } else {
            Ok((decode_utf8(s.subrange(2, 2 + spec_prefix_len(s) as int)), 2 + spec_prefix_len(s)))
        }
    }

    open spec fn spec_read_size(s: Seq<u8>) -> Result<nat, EncodingError> {
        if s.len() < 2 {
            Err(EncodingError::UnexpectedEof)
        } else {
            Ok(spec_prefix_len(s) + 2)
        }
    }

    proof fn lemma_size(v: Seq<char>) {
        if Self::spec_writable(v) {
            lemma_len_prefix(encode_utf8(v).len(), seq![]);
        }
    }

    proof fn lemma_parse_encode(v: Seq<char>, rest: Seq<u8>) {
        let b = encode_utf8(v);
        lemma_len_prefix(b.len(), b + rest);
        let s = Self::spec_encode(v) + rest;
        assert(s =~= spec_len_prefix(b.len()) + (b + rest));
        assert(s.subrange(2, 2 + b.len() as int) =~= b);
        encode_utf8_valid_utf8(v);
        encode_utf8_decode_utf8(v);
    }

    proof fn lemma_parse_facts(s: Seq<u8>) {
    }

    fn const_size(&self) -> (r: Option<usize>) {
        None
    }

    fn size(&self) -> (r: usize) {
        let n = self.as_str().as_bytes().len();
        n + 2
    }
}

impl ReadableObjectType for String {
    fn read_size(bytes: &[u8], pos: usize) -> (r: Result<usize, EncodingError>) {
        let (n, _) = u16::read_from_reader(bytes, pos)?;
        assert(rest_at(bytes@, pos as int).subrange(0, 2) =~= bytes@.subrange(pos as int, pos + 2));
        Ok(n as usize + 2)
    }

    fn read_from_reader(bytes: &[u8], pos: usize) -> (r: Result<(String, usize), EncodingError>) {
        let ghost s = rest_at(bytes@, pos as int);
        let (n, start) = u16::read_from_reader(bytes, pos)?;
        let n = n as usize;
        if bytes.len() - start < n {
            return Err(EncodingError::UnexpectedEof);
        }
        let content = slice_to_vec(slice_subrange(bytes, start, start + n));
        assert(content@ =~= s.subrange(2, 2 + spec_prefix_len(s) as int));
        match string_from_utf8(content) {
            Some(text) => Ok((text, start + n)),
            None => Err(EncodingError::UnexpectedEof),
        }
    }
}

impl WritableObjectType for String {
    fn write_to_writer(&self, writer: &mut Vec<u8>) -> (r: Result<(), EncodingError>) {
        let ghost before = writer@;
        let content = self.as_str().as_bytes();
        if let Err(e) = is_size_allowed(content.len()) {
            proof {
                lemma_prefix_of_append(before, seq![]);
                assert(before + seq![] =~= before);
            }
            return Err(e);
        }
        (content.len() as u16).write_to_writer(writer)?;
        put_bytes(writer, slice_to_vec(content));
        proof {
            assert(writer@ =~= before + Self::spec_encode(self.deep_view()));
            lemma_prefix_of_append(before, Self::spec_encode(self.deep_view()));
        }
        Ok(())
    }
}

impl TypedObjectType for String {
    open spec fn spec_type_key() -> u8 {
        12
    }

    fn type_key() -> (r: u8) {
        12
    }
}

impl ConstTypedObjectType for String {
    const TYPE_KEY: u8 = 12;
}

/// Total encoded size of a sequence of items.
pub open spec fn items_size<T: TuxIOType>(items: Seq<T::V>) -> nat
    decreases items.len(),
{
    if items.len() == 0 {
        0
    } else {
        items_size::<T>(items.drop_last()) + T::spec_size(items.last())
    }
}

/// Every item of the sequence can be written.
pub open spec fn items_writable<T: TuxIOType>(items: Seq<T::V>) -> bool {
    forall|i: int| 0 <= i < items.len() ==> T::spec_writable(#[trigger] items[i])
}

/// Every item of the sequence is well formed.
pub open spec fn items_well_formed<T: TuxIOType>(items: Seq<T::V>) -> bool {
    forall|i: int| 0 <= i < items.len() ==> T::spec_well_formed(#[trigger] items[i])
}

/// The items' encodings, one after the other.
pub open spec fn items_encode<T: TuxIOType>(items: Seq<T::V>) -> Seq<u8>
    decreases items.len(),
{
    if items.len() == 0 {
        seq![]
    } else {
        items_encode::<T>(items.drop_last()) + T::spec_encode(items.last())
    }
}

/// Decoding `n` items one after the other from the start of `s`.
pub open spec fn items_parse<T: TuxIOType>(s: Seq<u8>, n: nat) -> Result<(Seq<T::V>, nat), EncodingError>
    decreases n,
{
    if n == 0 {
        Ok((seq![], 0))
    } else {
        match T::spec_parse(s) {
            Err(e) => Err(e),
            Ok((v, k)) => match items_parse::<T>(s.skip(k as int), (n - 1) as nat) {
                Err(e) => Err(e),
                Ok((vs, m)) => Ok((seq![v] + vs, k + m)),
            },
        }
    }
}

/// Probing the sizes of `n` items one after the other from the start of `s`;
/// an item whose size runs past the input ends the probe with `UnexpectedEof`.
pub open spec fn items_read_size<T: TuxIOType>(s: Seq<u8>, n: nat) -> Result<nat, EncodingError>
    decreases n,
{
    if n == 0 {
        Ok(0)
    } else {
        match T::spec_read_size(s) {
            Err(e) => Err(e),
            Ok(k) => if k > s.len() {
                Err(EncodingError::UnexpectedEof)
            } else {
                match items_read_size::<T>(s.skip(k as int), (n - 1) as nat) {
                    Err(e) => Err(e),
                    Ok(m) => Ok(k + m),
                }
            },
        }
    }
}

/// `whole` is the outcome of decoding that has produced `done` over `used`
/// bytes, with `tail` the outcome of decoding the remaining items.
pub open spec fn items_continue<V>(
    whole: Result<(Seq<V>, nat), EncodingError>,
    done: Seq<V>,
    used: nat,
    tail: Result<(Seq<V>, nat), EncodingError>,
) -> bool {
    match tail {
        Ok((vs, m)) => whole == Ok::<(Seq<V>, nat), EncodingError>((done + vs, used + m)),
        Err(e) => whole == Err::<(Seq<V>, nat), EncodingError>(e),
    }
}

/// The size probe counterpart of `items_continue`.
pub open spec fn sizes_continue(
    whole: Result<nat, EncodingError>,
    used: nat,
    tail: Result<nat, EncodingError>,
) -> bool {
    match tail {
        Ok(m) => whole == Ok::<nat, EncodingError>(used + m),
        Err(e) => whole == Err::<nat, EncodingError>(e),
    }
}

/// Writable items occupy their total size.
pub proof fn lemma_items_size<T: TuxIOType>(items: Seq<T::V>)
    requires
        items_writable::<T>(items),
    ensures
        items_encode::<T>(items).len() == items_size::<T>(items),
    decreases items.len(),
{
    if items.len() > 0 {
        lemma_items_size::<T>(items.drop_last());
        T::lemma_size(items.last());
    }
}

/// The encoding of a non-empty sequence starts with its first item's.
pub proof fn lemma_items_encode_front<T: TuxIOType>(items: Seq<T::V>)
    requires
        items.len() > 0,
    ensures
        items_encode::<T>(items) == T::spec_encode(items[0]) + items_encode::<T>(items.skip(1)),
    decreases items.len(),
{
    if items.len() > 1 {
        lemma_items_encode_front::<T>(items.drop_last());
        assert(items.drop_last().skip(1) =~= items.skip(1).drop_last());
        assert(items.drop_last()[0] == items[0]);
    } else {
        assert(items.drop_last() =~= Seq::<T::V>::empty());
        assert(items.skip(1) =~= Seq::<T::V>::empty());
    }
}

/// Decoding written items gives them back, whatever follows.
pub proof fn lemma_items_parse_encode<T: TuxIOType>(items: Seq<T::V>, rest: Seq<u8>)
    requires
        items_writable::<T>(items),
        items_well_formed::<T>(items),
    ensures
        items_parse::<T>(items_encode::<T>(items) + rest, items.len()) == Ok::<
            (Seq<T::V>, nat),
            EncodingError,
        >((items, items_encode::<T>(items).len())),
    decreases items.len(),
{
    if items.len() == 0 {
        assert(items =~= seq![]);
    } else {
        lemma_items_encode_front::<T>(items);
        let tail = items.skip(1);
        let e0 = T::spec_encode(items[0]);
        let s = items_encode::<T>(items) + rest;
        assert(s =~= e0 + (items_encode::<T>(tail) + rest));
        T::lemma_parse_encode(items[0], items_encode::<T>(tail) + rest);
        assert(s.skip(e0.len() as int) =~= items_encode::<T>(tail) + rest);
        assert(items_writable::<T>(tail) && items_well_formed::<T>(tail)) by {
            assert forall|i: int| 0 <= i < tail.len() implies T::spec_writable(#[trigger] tail[i])
                && T::spec_well_formed(tail[i]) by {
                assert(tail[i] == items[i + 1]);
            }
        }
        lemma_items_parse_encode::<T>(tail, rest);
        assert(seq![items[0]] + tail =~= items);
    }
}

/// A successful decoding of items stays within its input, and the size
/// probe reports the bytes it used.
pub proof fn lemma_items_parse_facts<T: TuxIOType>(s: Seq<u8>, n: nat)
    ensures
        items_parse::<T>(s, n) matches Ok((_, m)) ==> m <= s.len()
            && items_read_size::<T>(s, n) == Ok::<nat, EncodingError>(m),
    decreases n,
{
    if n > 0 {
        T::lemma_parse_facts(s);
        if let Ok((v, k)) = T::spec_parse(s) {
            lemma_items_parse_facts::<T>(s.skip(k as int), (n - 1) as nat);
        }
    }
}

impl<T: TuxIOType> TuxIOType for Vec<T> {
    open spec fn spec_size(v: Seq<T::V>) -> nat {
        items_size::<T>(v) + 2
    }

    open spec fn spec_const_size(v: Seq<T::V>) -> Option<nat> {
        None
    }

    open spec fn spec_writable(v: Seq<T::V>) -> bool {
        v.len() <= 65535 && items_writable::<T>(v)
    }

    open spec fn spec_well_formed(v: Seq<T::V>) -> bool {
        items_well_formed::<T>(v)
    }

    /// The item count, then the items.
    open spec fn spec_encode(v: Seq<T::V>) -> Seq<u8> {
        spec_len_prefix(v.len()) + items_encode::<T>(v)
    }

    open spec fn spec_parse(s: Seq<u8>) -> Result<(Seq<T::V>, nat), EncodingError> {
        if s.len() < 2 {
            Err(EncodingError::UnexpectedEof)
        } else {
            match items_parse::<T>(s.skip(2), spec_prefix_len(s)) {
                Ok((vs, m)) => Ok((vs, m + 2)),
                Err(e) => Err(e),
            }
        }
    }

    open spec fn spec_read_size(s: Seq<u8>) -> Result<nat, EncodingError> {
        if s.len() < 2 {
            Err(EncodingError::UnexpectedEof)
        } else {
            match items_read_size::<T>(s.skip(2), spec_prefix_len(s)) {
                Ok(m) => Ok(m + 2),
                Err(e) => Err(e),
            }
        }
    }

    proof fn lemma_size(v: Seq<T::V>) {
        if Self::spec_writable(v) {
            lemma_len_prefix(v.len(), seq![]);
            lemma_items_size::<T>(v);
        }
    }

    proof fn lemma_parse_encode(v: Seq<T::V>, rest: Seq<u8>) {
        let body = items_encode::<T>(v);
        lemma_len_prefix(v.len(), body + rest);
        let s = Self::spec_encode(v) + rest;
        assert(s =~= spec_len_prefix(v.len()) + (body + rest));
        assert(s.skip(2) =~= body + rest);
        lemma_items_parse_encode::<T>(v, rest);
    }

    proof fn lemma_parse_facts(s: Seq<u8>) {
        if s.len() >= 2 {
            lemma_items_parse_facts::<T>(s.skip(2), spec_prefix_len(s));
        }
    }

    fn const_size(&self) -> (r: Option<usize>) {
        None
    }

    fn size(&self) -> (r: usize) {
        let mut total: usize = 2;
        let mut i: usize = 0;
        while i < self.len()
            invariant
                i <= self.len(),
                items_size::<T>(self.deep_view()) + 2 <= usize::MAX,
                total == items_size::<T>(self.deep_view().take(i as int)) + 2,
            decreases self.len() - i,
        {
            proof {
                let dv = self.deep_view();
                assert(dv.take(i + 1).drop_last() =~= dv.take(i as int));
                lemma_items_size_mono::<T>(dv, i + 1);
            }
            let k = self[i].size();
            total = total + k;
            i = i + 1;
        }
        assert(self.deep_view().take(i as int) =~= self.deep_view());
        total
    }
}

/// The total size of the first `i` items is at most that of all of them.
pub proof fn lemma_items_size_mono<T: TuxIOType>(items: Seq<T::V>, i: int)
    requires
        0 <= i <= items.len(),
    ensures
        items_size::<T>(items.take(i)) <= items_size::<T>(items),
    decreases items.len() - i,
{
    if i < items.len() {
        lemma_items_size_mono::<T>(items, i + 1);
        assert(items.take(i + 1).drop_last() =~= items.take(i));
    } else {
        assert(items.take(i) =~= items);
    }
}

/// Probes the sizes of `n` items one after the other from `start`,
/// returning their total.
pub fn read_items_size<T: ReadableObjectType>(bytes: &[u8], start: usize, n: u16) -> (r: Result<usize, EncodingError>)
    requires
        start <= bytes@.len(),
    ensures
        match items_read_size::<T>(rest_at(bytes@, start as int), n as nat) {
            Ok(m) => r matches Ok(k) && k == m && start + k <= bytes@.len(),
            Err(e) => r matches Err(e2) && e2 == e,
        },
{
    let mut p: usize = start;
    let mut i: u16 = 0;
    while i < n
        invariant
            start <= p <= bytes@.len(),
            i <= n,
            sizes_continue(
                items_read_size::<T>(rest_at(bytes@, start as int), n as nat),
                (p - start) as nat,
                items_read_size::<T>(rest_at(bytes@, p as int), (n - i) as nat),
            ),
        decreases n - i,
    {
        let k = T::read_size(bytes, p)?;
        if k > bytes.len() - p {
            return Err(EncodingError::UnexpectedEof);
        }
        proof {
            lemma_rest_skip(bytes@, p as int, k as int);
        }
        p = p + k;
        i = i + 1;
    }
    Ok(p - start)
}

impl<T: ReadableObjectType> ReadableObjectType for Vec<T> {
    fn read_size(bytes: &[u8], pos: usize) -> (r: Result<usize, EncodingError>) {
        let (n, start) = u16::read_from_reader(bytes, pos)?;
        proof {
            lemma_rest_skip(bytes@, pos as int, 2);
        }
        let m = read_items_size::<T>(bytes, start, n)?;
        assert(bytes@.len() == bytes.len());
        Ok(m + 2)
    }

    fn read_from_reader(bytes: &[u8], pos: usize) -> (r: Result<(Vec<T>, usize), EncodingError>) {
        let ghost s = rest_at(bytes@, pos as int);
        let (n, start) = u16::read_from_reader(bytes, pos)?;
        proof {
            lemma_rest_skip(bytes@, pos as int, 2);
        }
        let mut out: Vec<T> = Vec::new();
        let mut p: usize = start;
        let mut i: u16 = 0;
        while i < n
            invariant
                start <= p <= bytes@.len(),
                i <= n,
                n == spec_prefix_len(s),
                start == pos + 2,
                s.len() >= 2,
                s == rest_at(bytes@, pos as int),
                rest_at(bytes@, pos as int).skip(2) == rest_at(bytes@, start as int),
                items_continue(
                    items_parse::<T>(rest_at(bytes@, start as int), n as nat),
                    out.deep_view(),
                    (p - start) as nat,
                    items_parse::<T>(rest_at(bytes@, p as int), (n - i) as nat),
                ),
            decreases n - i,
        {
            let ghost before = out.deep_view();
            proof {
                T::lemma_parse_facts(rest_at(bytes@, p as int));
            }
            let (x, q) = T::read_from_reader(bytes, p)?;
            proof {
                lemma_rest_skip(bytes@, p as int, q - p);
            }
            out.push(x);
            proof {
                assert(out.deep_view() =~= before + seq![x.deep_view()]);
                let tail = items_parse::<T>(rest_at(bytes@, q as int), (n - i - 1) as nat);
                if let Ok((vs, m)) = tail {
                    assert(before + (seq![x.deep_view()] + vs) =~= out.deep_view() + vs);
                }
            }
            p = q;
            i = i + 1;
        }
        proof {
            assert(out.deep_view() + seq![] =~= out.deep_view());
        }
        Ok((out, p))
    }
}

/// Writes the items one after the other: succeeds exactly when every item
/// is writable, appending their encodings.
pub fn write_items<T: WritableObjectType>(items: &Vec<T>, writer: &mut Vec<u8>) -> (r: Result<(), EncodingError>)
    ensures
        r is Ok <==> items_writable::<T>(items.deep_view()),
        r is Ok ==> final(writer)@ == old(writer)@ + items_encode::<T>(items.deep_view()),
        r matches Err(e) ==> (e matches EncodingError::TypeTooLarge(n) && n > 65535),
        old(writer)@.is_prefix_of(final(writer)@),
{
    let ghost before = writer@;
    let ghost dv = items.deep_view();
    proof {
        lemma_prefix_of_append(before, seq![]);
        assert(before + seq![] =~= before);
        assert(dv.take(0) =~= seq![]);
    }
    let mut i: usize = 0;
    while i < items.len()
        invariant
            i <= items.len(),
            dv == items.deep_view(),
            before == old(writer)@,
            writer@ == before + items_encode::<T>(dv.take(i as int)),
            before.is_prefix_of(writer@),
            forall|j: int| 0 <= j < i ==> T::spec_writable(#[trigger] dv[j]),
        decreases items.len() - i,
    {
        let ghost mid = writer@;
        let r = items[i].write_to_writer(writer);
        proof {
            lemma_prefix_trans(before, mid, writer@);
        }
        if r.is_err() {
            assert(!items_writable::<T>(dv)) by {
                assert(!T::spec_writable(dv[i as int]));
            }
            return r;
        }
        proof {
            assert(dv.take(i + 1).drop_last() =~= dv.take(i as int));
            assert(dv.take(i + 1).last() == dv[i as int]);
        }
        i = i + 1;
    }
    proof {
        assert(dv.take(i as int) =~= dv);
    }
    Ok(())
}

impl<T: WritableObjectType> WritableObjectType for Vec<T> {
    fn write_to_writer(&self, writer: &mut Vec<u8>) -> (r: Result<(), EncodingError>)
        ensures
            self@.len() > 65535 ==> r == Err::<(), EncodingError>(EncodingError::TypeTooLarge(self@.len() as usize)),
    {
        let ghost before = writer@;
        let ghost dv = self.deep_view();
        if let Err(e) = is_size_allowed(self.len()) {
            proof {
                lemma_prefix_of_append(before, seq![]);
                assert(before + seq![] =~= before);
            }
            return Err(e);
        }
        (self.len() as u16).write_to_writer(writer)?;
        let ghost mid = writer@;
        let r = write_items(self, writer);
        proof {
            lemma_prefix_trans(before, mid, writer@);
            if r is Ok {
                assert(writer@ =~= before + Self::spec_encode(dv));
            }
        }
        r
    }
}

impl TypedObjectType for Vec<u8> {
    open spec fn spec_type_key() -> u8 {
        11
    }

    fn type_key() -> (r: u8) {
        11
    }
}

impl ConstTypedObjectType for Vec<u8> {
    const TYPE_KEY: u8 = 11;
}

impl<T: TuxIOType> TuxIOType for Option<T> {
    open spec fn spec_size(v: Option<T::V>) -> nat {
        match v {
            Some(x) => 1 + T::spec_size(x),
            None => 1,
        }
    }

    open spec fn spec_const_size(v: Option<T::V>) -> Option<nat> {
        None
    }

    open spec fn spec_writable(v: Option<T::V>) -> bool {
        match v {
            Some(x) => T::spec_writable(x),
            None => true,
        }
    }

    open spec fn spec_well_formed(v: Option<T::V>) -> bool {
        match v {
            Some(x) => T::spec_well_formed(x),
            None => true,
        }
    }

    /// A presence byte (0 or 1), then the value when there is one.
    open spec fn spec_encode(v: Option<T::V>) -> Seq<u8> {
        match v {
            Some(x) => seq![1u8] + T::spec_encode(x),
            None => seq![0u8],
        }
    }

    /// Any nonzero presence byte is read as present.
    open spec fn spec_parse(s: Seq<u8>) -> Result<(Option<T::V>, nat), EncodingError> {
        if s.len() < 1 {
            Err(EncodingError::UnexpectedEof)
        } else if s[0] == 0 {
            Ok((None, 1))
        } else {
            match T::spec_parse(s.skip(1)) {
                Ok((x, k)) => Ok((Some(x), k + 1)),
                Err(e) => Err(e),
            }
        }
    }

    /// A size that runs past the input is reported as `UnexpectedEof`.
    open spec fn spec_read_size(s: Seq<u8>) -> Result<nat, EncodingError> {
        if s.len() < 1 {
            Err(EncodingError::UnexpectedEof)
        } else if s[0] == 0 {
            Ok(1)
        } else {
            match T::spec_read_size(s.skip(1)) {
                Ok(k) => if k + 1 > s.len() {
                    Err(EncodingError::UnexpectedEof)
                } else {
                    Ok(k + 1)
                },
                Err(e) => Err(e),
            }
        }
    }

    proof fn lemma_size(v: Option<T::V>) {
        if let Some(x) = v {
            T::lemma_size(x);
        }
    }

    proof fn lemma_parse_encode(v: Option<T::V>, rest: Seq<u8>) {
        if let Some(x) = v {
            let s = Self::spec_encode(v) + rest;
            assert(s.skip(1) =~= T::spec_encode(x) + rest);
            T::lemma_parse_encode(x, rest);
        }
    }

    proof fn lemma_parse_facts(s: Seq<u8>) {
        if s.len() >= 1 {
            T::lemma_parse_facts(s.skip(1));
        }
    }

    fn const_size(&self) -> (r: Option<usize>) {
        None
    }

    fn size(&self) -> (r: usize) {
        match self {
            Some(x) => 1 + x.size(),
            None => 1,
        }
    }
}

impl<T: ReadableObjectType> ReadableObjectType for Option<T> {
    fn read_size(bytes: &[u8], pos: usize) -> (r: Result<usize, EncodingError>) {
        let (flag, next) = u8::read_from_reader(bytes, pos)?;
        if flag == 0 {
            return Ok(1);
        }
        proof {
            lemma_rest_skip(bytes@, pos as int, 1);
        }
        let k = T::read_size(bytes, next)?;
        if k > bytes.len() - next {
            return Err(EncodingError::UnexpectedEof);
        }
        Ok(k + 1)
    }

    fn read_from_reader(bytes: &[u8], pos: usize) -> (r: Result<(Option<T>, usize), EncodingError>) {
        let (flag, next) = u8::read_from_reader(bytes, pos)?;
        if flag == 0 {
            return Ok((None, next));
        }
        proof {
            lemma_rest_skip(bytes@, pos as int, 1);
        }
        let (x, end) = T::read_from_reader(bytes, next)?;
        Ok((Some(x), end))
    }
}

impl<T: WritableObjectType> WritableObjectType for Option<T> {
    fn write_to_writer(&self, writer: &mut Vec<u8>) -> (r: Result<(), EncodingError>) {
        let ghost before = writer@;
        match self {
            Some(inner) => {
                writer.push(1u8);
                let ghost mid = writer@;
                proof {
                    lemma_prefix_of_append(before, seq![1u8]);
                    assert(mid =~= before + seq![1u8]);
                }
                let r = inner.write_to_writer(writer);
                proof {
                    lemma_prefix_trans(before, mid, writer@);
                    if r is Ok {
                        assert(writer@ =~= before + Self::spec_encode(self.deep_view()));
                    }
                }
                r
            },
            None => {
                writer.push(0u8);
                proof {
                    lemma_prefix_of_append(before, seq![0u8]);
                    assert(writer@ =~= before + seq![0u8]);
                }
                Ok(())
            },
        }
    }
}

impl<A: TuxIOType, B: TuxIOType> TuxIOType for (A, B) {
    open spec fn spec_size(v: (A::V, B::V)) -> nat {
        A::spec_size(v.0) + B::spec_size(v.1)
    }

    open spec fn spec_const_size(v: (A::V, B::V)) -> Option<nat> {
        None
    }

    open spec fn spec_writable(v: (A::V, B::V)) -> bool {
        A::spec_writable(v.0) && B::spec_writable(v.1)
    }

    open spec fn spec_well_formed(v: (A::V, B::V)) -> bool {
        A::spec_well_formed(v.0) && B::spec_well_formed(v.1)
    }

    /// The first component's encoding, then the second's.
    open spec fn spec_encode(v: (A::V, B::V)) -> Seq<u8> {
        A::spec_encode(v.0) + B::spec_encode(v.1)
    }

    open spec fn spec_parse(s: Seq<u8>) -> Result<((A::V, B::V), nat), EncodingError> {
        match A::spec_parse(s) {
            Err(e) => Err(e),
            Ok((a, k)) => match B::spec_parse(s.skip(k as int)) {
                Err(e) => Err(e),
                Ok((b, m)) => Ok(((a, b), k + m)),
            },
        }
    }

    /// A size that runs past the input is reported as `UnexpectedEof`.
    open spec fn spec_read_size(s: Seq<u8>) -> Result<nat, EncodingError> {
        match A::spec_read_size(s) {
            Err(e) => Err(e),
            Ok(k) => if k > s.len() {
                Err(EncodingError::UnexpectedEof)
            } else {
                match B::spec_read_size(s.skip(k as int)) {
                    Err(e) => Err(e),
                    Ok(m) => if k + m > s.len() {
                        Err(EncodingError::UnexpectedEof)
                    } else {
                        Ok(k + m)
                    },
                }
            },
        }
    }

    proof fn lemma_size(v: (A::V, B::V)) {
        A::lemma_size(v.0);
        B::lemma_size(v.1);
    }

    proof fn lemma_parse_encode(v: (A::V, B::V), rest: Seq<u8>) {
        let s = Self::spec_encode(v) + rest;
        let ea = A::spec_encode(v.0);
        assert(s =~= ea + (B::spec_encode(v.1) + rest));
        A::lemma_parse_encode(v.0, B::spec_encode(v.1) + rest);
        assert(s.skip(ea.len() as int) =~= B::spec_encode(v.1) + rest);
        B::lemma_parse_encode(v.1, rest);
    }

    proof fn lemma_parse_facts(s: Seq<u8>) {
        A::lemma_parse_facts(s);
        if let Ok((a, k)) = A::spec_parse(s) {
            B::lemma_parse_facts(s.skip(k as int));
        }
    }

    fn const_size(&self) -> (r: Option<usize>) {
        None
    }

    fn size(&self) -> (r: usize) {
        self.0.size() + self.1.size()
    }
}

impl<A: ReadableObjectType, B: ReadableObjectType> ReadableObjectType for (A, B) {
    fn read_size(bytes: &[u8], pos: usize) -> (r: Result<usize, EncodingError>) {
        let k = A::read_size(bytes, pos)?;
        if k > bytes.len() - pos {
            return Err(EncodingError::UnexpectedEof);
        }
        proof {
            lemma_rest_skip(bytes@, pos as int, k as int);
        }
        let m = B::read_size(bytes, pos + k)?;
        if m > bytes.len() - pos - k {
            return Err(EncodingError::UnexpectedEof);
        }
        Ok(k + m)
    }

    fn read_from_reader(bytes: &[u8], pos: usize) -> (r: Result<((A, B), usize), EncodingError>) {
        proof {
            A::lemma_parse_facts(rest_at(bytes@, pos as int));
        }
        let (a, mid) = A::read_from_reader(bytes, pos)?;
        proof {
            lemma_rest_skip(bytes@, pos as int, mid - pos);
        }
        let (b, end) = B::read_from_reader(bytes, mid)?;
        Ok(((a, b), end))
    }
}

impl<A: WritableObjectType, B: WritableObjectType> WritableObjectType for (A, B) {
    fn write_to_writer(&self, writer: &mut Vec<u8>) -> (r: Result<(), EncodingError>) {
        let ghost before = writer@;
        self.0.write_to_writer(writer)?;
        let ghost mid = writer@;
        let r = self.1.write_to_writer(writer);
        proof {
            lemma_prefix_trans(before, mid, writer@);
            if r is Ok {
                assert(writer@ =~= before + Self::spec_encode(self.deep_view()));
            }
        }
        r
    }
}

} // verus!
