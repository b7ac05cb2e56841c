use crate::error::EncodingError;
use crate::object::{
    lemma_prefix_of_append, lemma_prefix_trans, lemma_rest_skip, rest_at, ReadableObjectType,
    ConstTypedObjectType, TuxIOType, TypedObjectType, WritableObjectType,
};
use crate::time::{RawDate, RawDateTime, RawTime};
use vstd::prelude::*;
use vstd::slice::slice_subrange;

verus! {

/// A universally unique identifier as its sixteen raw bytes.
#[derive(Debug, Clone, Copy, PartialEq, Eq)]
pub struct RawUuid(pub [u8; 16]);

impl DeepView for RawUuid {
    type V = Seq<u8>;

    open spec fn deep_view(&self) -> Seq<u8> {
        self.0@
    }
}

impl TuxIOType for RawUuid {
    open spec fn spec_size(v: Seq<u8>) -> nat {
        16
    }

    open spec fn spec_const_size(v: Seq<u8>) -> Option<nat> {
        Some(16)
    }

    /// Exactly the sixteen bytes that an identifier holds.
    open spec fn spec_writable(v: Seq<u8>) -> bool {
        v.len() == 16
    }

    /// The sixteen bytes as they are.
    open spec fn spec_encode(v: Seq<u8>) -> Seq<u8> {
        v
    }

    open spec fn spec_parse(s: Seq<u8>) -> Result<(Seq<u8>, nat), EncodingError> {
        if s.len() < 16 {
            Err(EncodingError::UnexpectedEof)
        } else {
            Ok((s.subrange(0, 16), 16))
        }
    }

    open spec fn spec_read_size(s: Seq<u8>) -> Result<nat, EncodingError> {
        Ok(16)
    }

    proof fn lemma_size(v: Seq<u8>) {
    }

    proof fn lemma_parse_encode(v: Seq<u8>, rest: Seq<u8>) {
        assert((v + rest).subrange(0, 16) =~= v);
    }

    proof fn lemma_parse_facts(s: Seq<u8>) {
    }

    fn const_size(&self) -> (r: Option<usize>) {
        Some(16)
    }

    fn size(&self) -> (r: usize) {
        16
    }
}

impl ReadableObjectType for RawUuid {
    fn read_size(bytes: &[u8], pos: usize) -> (r: Result<usize, EncodingError>) {
        Ok(16)
    }

    fn read_from_reader(bytes: &[u8], pos: usize) -> (r: Result<(RawUuid, usize), EncodingError>) {
        if bytes.len() - pos < 16 {
            return Err(EncodingError::UnexpectedEof);
        }
        let b = slice_subrange(bytes, pos, pos + 16);
        let id: [u8; 16] = [
            b[0], b[1], b[2], b[3], b[4], b[5], b[6], b[7],
            b[8], b[9], b[10], b[11], b[12], b[13], b[14], b[15],
        ];
        assert(id@ =~= rest_at(bytes@, pos as int).subrange(0, 16));
        Ok((RawUuid(id), pos + 16))
    }
}

impl WritableObjectType for RawUuid {
    fn write_to_writer(&self, writer: &mut Vec<u8>) -> (r: Result<(), EncodingError>) {
        let ghost before = writer@;
        let mut i: usize = 0;
        while i < 16
            invariant
                i <= 16,
                writer@ == before + self.0@.subrange(0, i as int),
            decreases 16 - i,
        {
            writer.push(self.0[i]);
            assert(writer@ =~= before + self.0@.subrange(0, i + 1));
            i = i + 1;
        }
        proof {
            assert(self.0@.subrange(0, 16) =~= self.0@);
            lemma_prefix_of_append(before, self.0@);
        }
        Ok(())
    }
}

impl TypedObjectType for RawUuid {
    open spec fn spec_type_key() -> u8 {
        17
    }

    fn type_key() -> (r: u8) {
        17
    }
}

impl ConstTypedObjectType for RawUuid {
    const TYPE_KEY: u8 = 17;
}

/// A storable value of any of the scalar kinds that tag maps hold.
///
/// On disk a value is its kind's one-byte discriminator followed by the
/// payload's own encoding. Floating-point values are held as their IEEE-754
/// bit patterns, whose little-endian bytes are the float's; values compare by
/// kind and payload, floats by their bits.
#[derive(Debug, Clone)]
pub enum ValueType {
    String(String),
    Bytes(Vec<u8>),
    Bool(bool),
    U8(u8),
    U16(u16),
    U32(u32),
    U64(u64),
    I8(i8),
    I16(i16),
    I32(i32),
    I64(i64),
    F32(u32),
    F64(u64),
    Date(RawDate),
    Time(RawTime),
    RawDateTime(RawDateTime),
    Uuid(RawUuid),
}

/// The model of a `ValueType`: the variant with its payload's model.
pub enum ValueView {
    String(Seq<char>),
    Bytes(Seq<u8>),
    Bool(bool),
    U8(u8),
    U16(u16),
    U32(u32),
    U64(u64),
    I8(i8),
    I16(i16),
    I32(i32),
    I64(i64),
    F32(u32),
    F64(u64),
    Date(RawDate),
    Time(RawTime),
    RawDateTime(RawDateTime),
    Uuid(Seq<u8>),
}

impl ValueView {
    /// Which variant this is, as its position in the declaration.
    pub open spec fn spec_kind(self) -> nat {
        match self {
            ValueView::String(_) => 0,
            ValueView::Bytes(_) => 1,
            ValueView::Bool(_) => 2,
            ValueView::U8(_) => 3,
            ValueView::U16(_) => 4,
            ValueView::U32(_) => 5,
            ValueView::U64(_) => 6,
            ValueView::I8(_) => 7,
            ValueView::I16(_) => 8,
            ValueView::I32(_) => 9,
            ValueView::I64(_) => 10,
            ValueView::F32(_) => 11,
            ValueView::F64(_) => 12,
            ValueView::Date(_) => 13,
            ValueView::Time(_) => 14,
            ValueView::RawDateTime(_) => 15,
            ValueView::Uuid(_) => 16,
        }
    }
}

impl DeepView for ValueType {
    type V = ValueView;

    open spec fn deep_view(&self) -> ValueView {
        match self {
            ValueType::String(x) => ValueView::String(x.deep_view()),
            ValueType::Bytes(x) => ValueView::Bytes(x.deep_view()),
            ValueType::Bool(x) => ValueView::Bool(x.deep_view()),
            ValueType::U8(x) => ValueView::U8(x.deep_view()),
            ValueType::U16(x) => ValueView::U16(x.deep_view()),
            ValueType::U32(x) => ValueView::U32(x.deep_view()),
            ValueType::U64(x) => ValueView::U64(x.deep_view()),
            ValueType::I8(x) => ValueView::I8(x.deep_view()),
            ValueType::I16(x) => ValueView::I16(x.deep_view()),
            ValueType::I32(x) => ValueView::I32(x.deep_view()),
            ValueType::I64(x) => ValueView::I64(x.deep_view()),
            ValueType::F32(x) => ValueView::F32(x.deep_view()),
            ValueType::F64(x) => ValueView::F64(x.deep_view()),
            ValueType::Date(x) => ValueView::Date(x.deep_view()),
            ValueType::Time(x) => ValueView::Time(x.deep_view()),
            ValueType::RawDateTime(x) => ValueView::RawDateTime(x.deep_view()),
            ValueType::Uuid(x) => ValueView::Uuid(x.deep_view()),
        }
    }
}

/// Whether two byte slices hold the same bytes.
pub fn same_bytes(a: &[u8], b: &[u8]) -> (r: bool)
    ensures
        r == (a@ == b@),
{
    if a.len() != b.len() {
        return false;
    }
    let mut i: usize = 0;
    while i < a.len()
        invariant
            i <= a@.len(),
            a@.len() == b@.len(),
            forall|j: int| 0 <= j < i ==> a@[j] == b@[j],
        decreases a@.len() - i,
    {
        if a[i] != b[i] {
            return false;
        }
        i = i + 1;
    }
    assert(a@ =~= b@);
    true
}

impl PartialEq for ValueType {
    fn eq(&self, other: &ValueType) -> (r: bool) {
        let r = match (self, other) {
            (ValueType::String(a), ValueType::String(b)) => a.eq(b),
            (ValueType::Bytes(a), ValueType::Bytes(b)) => same_bytes(a.as_slice(), b.as_slice()),
            (ValueType::Bool(a), ValueType::Bool(b)) => *a == *b,
            (ValueType::U8(a), ValueType::U8(b)) => *a == *b,
            (ValueType::U16(a), ValueType::U16(b)) => *a == *b,
            (ValueType::U32(a), ValueType::U32(b)) => *a == *b,
            (ValueType::U64(a), ValueType::U64(b)) => *a == *b,
            (ValueType::I8(a), ValueType::I8(b)) => *a == *b,
            (ValueType::I16(a), ValueType::I16(b)) => *a == *b,
            (ValueType::I32(a), ValueType::I32(b)) => *a == *b,
            (ValueType::I64(a), ValueType::I64(b)) => *a == *b,
            (ValueType::F32(a), ValueType::F32(b)) => *a == *b,
            (ValueType::F64(a), ValueType::F64(b)) => *a == *b,
            (ValueType::Date(a), ValueType::Date(b)) => *a == *b,
            (ValueType::Time(a), ValueType::Time(b)) => *a == *b,
            (ValueType::RawDateTime(a), ValueType::RawDateTime(b)) => *a == *b,
            (ValueType::Uuid(a), ValueType::Uuid(b)) => same_bytes(a.0.as_slice(), b.0.as_slice()),
            _ => false,
        };
        proof {
            if let (ValueType::Bytes(a), ValueType::Bytes(b)) = (self, other) {
                assert(a.deep_view() =~= a@);
                assert(b.deep_view() =~= b@);
            }
        }
        r
    }
}

impl vstd::std_specs::cmp::PartialEqSpecImpl for ValueType {
    open spec fn obeys_eq_spec() -> bool {
        true
    }

    open spec fn eq_spec(&self, other: &ValueType) -> bool {
        self.deep_view() == other.deep_view()
    }
}

/// The discriminator of a value's kind.
pub open spec fn spec_variant_key(v: ValueView) -> u8 {
    match v {
        ValueView::String(_) => <String as TypedObjectType>::spec_type_key(),
        ValueView::Bytes(_) => <Vec<u8> as TypedObjectType>::spec_type_key(),
        ValueView::Bool(_) => <bool as TypedObjectType>::spec_type_key(),
        ValueView::U8(_) => <u8 as TypedObjectType>::spec_type_key(),
        ValueView::U16(_) => <u16 as TypedObjectType>::spec_type_key(),
        ValueView::U32(_) => <u32 as TypedObjectType>::spec_type_key(),
        ValueView::U64(_) => <u64 as TypedObjectType>::spec_type_key(),
        ValueView::I8(_) => <i8 as TypedObjectType>::spec_type_key(),
        ValueView::I16(_) => <i16 as TypedObjectType>::spec_type_key(),
        ValueView::I32(_) => <i32 as TypedObjectType>::spec_type_key(),
        ValueView::I64(_) => <i64 as TypedObjectType>::spec_type_key(),
        ValueView::F32(_) => 8,
        ValueView::F64(_) => 9,
        ValueView::Date(_) => <RawDate as TypedObjectType>::spec_type_key(),
        ValueView::Time(_) => <RawTime as TypedObjectType>::spec_type_key(),
        ValueView::RawDateTime(_) => <RawDateTime as TypedObjectType>::spec_type_key(),
        ValueView::Uuid(_) => <RawUuid as TypedObjectType>::spec_type_key(),
    }
}

impl TuxIOType for ValueType {
    open spec fn spec_size(v: ValueView) -> nat {
        match v {
            ValueView::String(x) => 1 + <String as TuxIOType>::spec_size(x),
            ValueView::Bytes(x) => 1 + <Vec<u8> as TuxIOType>::spec_size(x),
            ValueView::Bool(x) => 1 + <bool as TuxIOType>::spec_size(x),
            ValueView::U8(x) => 1 + <u8 as TuxIOType>::spec_size(x),
            ValueView::U16(x) => 1 + <u16 as TuxIOType>::spec_size(x),
            ValueView::U32(x) => 1 + <u32 as TuxIOType>::spec_size(x),
            ValueView::U64(x) => 1 + <u64 as TuxIOType>::spec_size(x),
            ValueView::I8(x) => 1 + <i8 as TuxIOType>::spec_size(x),
            ValueView::I16(x) => 1 + <i16 as TuxIOType>::spec_size(x),
            ValueView::I32(x) => 1 + <i32 as TuxIOType>::spec_size(x),
            ValueView::I64(x) => 1 + <i64 as TuxIOType>::spec_size(x),
            ValueView::F32(x) => 1 + <u32 as TuxIOType>::spec_size(x),
            ValueView::F64(x) => 1 + <u64 as TuxIOType>::spec_size(x),
            ValueView::Date(x) => 1 + <RawDate as TuxIOType>::spec_size(x),
            ValueView::Time(x) => 1 + <RawTime as TuxIOType>::spec_size(x),
            ValueView::RawDateTime(x) => 1 + <RawDateTime as TuxIOType>::spec_size(x),
            ValueView::Uuid(x) => 1 + <RawUuid as TuxIOType>::spec_size(x),
        }
    }

    /// The payload kind's constant size plus the discriminator byte, when the
    /// kind has one.
    open spec fn spec_const_size(v: ValueView) -> Option<nat> {
        match v {
            ValueView::String(x) => match <String as TuxIOType>::spec_const_size(x) {
                Some(n) => Some(n + 1),
                None => None,
            },
            ValueView::Bytes(x) => match <Vec<u8> as TuxIOType>::spec_const_size(x) {
                Some(n) => Some(n + 1),
                None => None,
            },
            ValueView::Bool(x) => match <bool as TuxIOType>::spec_const_size(x) {
                Some(n) => Some(n + 1),
                None => None,
            },
            ValueView::U8(x) => match <u8 as TuxIOType>::spec_const_size(x) {
                Some(n) => Some(n + 1),
                None => None,
            },
            ValueView::U16(x) => match <u16 as TuxIOType>::spec_const_size(x) {
                Some(n) => Some(n + 1),
                None => None,
            },
            ValueView::U32(x) => match <u32 as TuxIOType>::spec_const_size(x) {
                Some(n) => Some(n + 1),
                None => None,
            },
            ValueView::U64(x) => match <u64 as TuxIOType>::spec_const_size(x) {
                Some(n) => Some(n + 1),
                None => None,
            },
            ValueView::I8(x) => match <i8 as TuxIOType>::spec_const_size(x) {
                Some(n) => Some(n + 1),
                None => None,
            },
            ValueView::I16(x) => match <i16 as TuxIOType>::spec_const_size(x) {
                Some(n) => Some(n + 1),
                None => None,
            },
            ValueView::I32(x) => match <i32 as TuxIOType>::spec_const_size(x) {
                Some(n) => Some(n + 1),
                None => None,
            },
            ValueView::I64(x) => match <i64 as TuxIOType>::spec_const_size(x) {
                Some(n) => Some(n + 1),
                None => None,
            },
            ValueView::F32(x) => match <u32 as TuxIOType>::spec_const_size(x) {
                Some(n) => Some(n + 1),
                None => None,
            },
            ValueView::F64(x) => match <u64 as TuxIOType>::spec_const_size(x) {
                Some(n) => Some(n + 1),
                None => None,
            },
            ValueView::Date(x) => match <RawDate as TuxIOType>::spec_const_size(x) {
                Some(n) => Some(n + 1),
                None => None,
            },
            ValueView::Time(x) => match <RawTime as TuxIOType>::spec_const_size(x) {
                Some(n) => Some(n + 1),
                None => None,
            },
            ValueView::RawDateTime(x) => match <RawDateTime as TuxIOType>::spec_const_size(x) {
                Some(n) => Some(n + 1),
                None => None,
            },
            ValueView::Uuid(x) => match <RawUuid as TuxIOType>::spec_const_size(x) {
                Some(n) => Some(n + 1),
                None => None,
            },
        }
    }

    open spec fn spec_writable(v: ValueView) -> bool {
        match v {
            ValueView::String(x) => <String as TuxIOType>::spec_writable(x),
            ValueView::Bytes(x) => <Vec<u8> as TuxIOType>::spec_writable(x),
            ValueView::Bool(x) => <bool as TuxIOType>::spec_writable(x),
            ValueView::U8(x) => <u8 as TuxIOType>::spec_writable(x),
            ValueView::U16(x) => <u16 as TuxIOType>::spec_writable(x),
            ValueView::U32(x) => <u32 as TuxIOType>::spec_writable(x),
            ValueView::U64(x) => <u64 as TuxIOType>::spec_writable(x),
            ValueView::I8(x) => <i8 as TuxIOType>::spec_writable(x),
            ValueView::I16(x) => <i16 as TuxIOType>::spec_writable(x),
            ValueView::I32(x) => <i32 as TuxIOType>::spec_writable(x),
            ValueView::I64(x) => <i64 as TuxIOType>::spec_writable(x),
            ValueView::F32(x) => <u32 as TuxIOType>::spec_writable(x),
            ValueView::F64(x) => <u64 as TuxIOType>::spec_writable(x),
            ValueView::Date(x) => <RawDate as TuxIOType>::spec_writable(x),
            ValueView::Time(x) => <RawTime as TuxIOType>::spec_writable(x),
            ValueView::RawDateTime(x) => <RawDateTime as TuxIOType>::spec_writable(x),
            ValueView::Uuid(x) => <RawUuid as TuxIOType>::spec_writable(x),
        }
    }

    /// The discriminator byte, then the payload.
    open spec fn spec_encode(v: ValueView) -> Seq<u8> {
        seq![spec_variant_key(v)] + match v {
            ValueView::String(x) => <String as TuxIOType>::spec_encode(x),
            ValueView::Bytes(x) => <Vec<u8> as TuxIOType>::spec_encode(x),
            ValueView::Bool(x) => <bool as TuxIOType>::spec_encode(x),
            ValueView::U8(x) => <u8 as TuxIOType>::spec_encode(x),
            ValueView::U16(x) => <u16 as TuxIOType>::spec_encode(x),
            ValueView::U32(x) => <u32 as TuxIOType>::spec_encode(x),
            ValueView::U64(x) => <u64 as TuxIOType>::spec_encode(x),
            ValueView::I8(x) => <i8 as TuxIOType>::spec_encode(x),
            ValueView::I16(x) => <i16 as TuxIOType>::spec_encode(x),
            ValueView::I32(x) => <i32 as TuxIOType>::spec_encode(x),
            ValueView::I64(x) => <i64 as TuxIOType>::spec_encode(x),
            ValueView::F32(x) => <u32 as TuxIOType>::spec_encode(x),
            ValueView::F64(x) => <u64 as TuxIOType>::spec_encode(x),
            ValueView::Date(x) => <RawDate as TuxIOType>::spec_encode(x),
            ValueView::Time(x) => <RawTime as TuxIOType>::spec_encode(x),
            ValueView::RawDateTime(x) => <RawDateTime as TuxIOType>::spec_encode(x),
            ValueView::Uuid(x) => <RawUuid as TuxIOType>::spec_encode(x),
        }
    }

    /// Dispatches on the discriminator byte; an unknown one is rejected with
    /// `UnknownTypeKey`.
    open spec fn spec_parse(s: Seq<u8>) -> Result<(ValueView, nat), EncodingError> {
        if s.len() < 1 {
            Err(EncodingError::UnexpectedEof)
        } else {
            let t = s.skip(1);
            if s[0] == 12 {
                match <String as TuxIOType>::spec_parse(t) {
                    Ok((x, n)) => Ok((ValueView::String(x), n + 1)),
                    Err(e) => Err(e),
                }
            } else if s[0] == 11 {
                match <Vec<u8> as TuxIOType>::spec_parse(t) {
                    Ok((x, n)) => Ok((ValueView::Bytes(x), n + 1)),
                    Err(e) => Err(e),
                }
            } else if s[0] == 10 {
                match <bool as TuxIOType>::spec_parse(t) {
                    Ok((x, n)) => Ok((ValueView::Bool(x), n + 1)),
                    Err(e) => Err(e),
                }
            } else if s[0] == 0 {
                match <u8 as TuxIOType>::spec_parse(t) {
                    Ok((x, n)) => Ok((ValueView::U8(x), n + 1)),
                    Err(e) => Err(e),
                }
            } else if s[0] == 1 {
                match <u16 as TuxIOType>::spec_parse(t) {
                    Ok((x, n)) => Ok((ValueView::U16(x), n + 1)),
                    Err(e) => Err(e),
                }
            } else if s[0] == 2 {
                match <u32 as TuxIOType>::spec_parse(t) {
                    Ok((x, n)) => Ok((ValueView::U32(x), n + 1)),
                    Err(e) => Err(e),
                }
            } else if s[0] == 3 {
                match <u64 as TuxIOType>::spec_parse(t) {
                    Ok((x, n)) => Ok((ValueView::U64(x), n + 1)),
                    Err(e) => Err(e),
                }
            } else if s[0] == 4 {
                match <i8 as TuxIOType>::spec_parse(t) {
                    Ok((x, n)) => Ok((ValueView::I8(x), n + 1)),
                    Err(e) => Err(e),
                }
            } else if s[0] == 5 {
                match <i16 as TuxIOType>::spec_parse(t) {
                    Ok((x, n)) => Ok((ValueView::I16(x), n + 1)),
                    Err(e) => Err(e),
                }
            } else if s[0] == 6 {
                match <i32 as TuxIOType>::spec_parse(t) {
                    Ok((x, n)) => Ok((ValueView::I32(x), n + 1)),
                    Err(e) => Err(e),
                }
            } else if s[0] == 7 {
                match <i64 as TuxIOType>::spec_parse(t) {
                    Ok((x, n)) => Ok((ValueView::I64(x), n + 1)),
                    Err(e) => Err(e),
                }
            } else if s[0] == 8 {
                match <u32 as TuxIOType>::spec_parse(t) {
                    Ok((x, n)) => Ok((ValueView::F32(x), n + 1)),
                    Err(e) => Err(e),
                }
            } else if s[0] == 9 {
                match <u64 as TuxIOType>::spec_parse(t) {
                    Ok((x, n)) => Ok((ValueView::F64(x), n + 1)),
                    Err(e) => Err(e),
                }
            } else if s[0] == 13 {
                match <RawDate as TuxIOType>::spec_parse(t) {
                    Ok((x, n)) => Ok((ValueView::Date(x), n + 1)),
                    Err(e) => Err(e),
                }
            } else if s[0] == 14 {
                match <RawTime as TuxIOType>::spec_parse(t) {
                    Ok((x, n)) => Ok((ValueView::Time(x), n + 1)),
                    Err(e) => Err(e),
                }
            } else if s[0] == 16 {
                match <RawDateTime as TuxIOType>::spec_parse(t) {
                    Ok((x, n)) => Ok((ValueView::RawDateTime(x), n + 1)),
                    Err(e) => Err(e),
                }
            } else if s[0] == 17 {
                match <RawUuid as TuxIOType>::spec_parse(t) {
                    Ok((x, n)) => Ok((ValueView::Uuid(x), n + 1)),
                    Err(e) => Err(e),
                }
            } else {
                Err(EncodingError::UnknownTypeKey(s[0]))
            }
        }
    }

    /// The payload kind's size plus the discriminator byte; a size that runs
    /// past the input is reported as `UnexpectedEof`.
    open spec fn spec_read_size(s: Seq<u8>) -> Result<nat, EncodingError> {
        if s.len() < 1 {
            Err(EncodingError::UnexpectedEof)
        } else {
            let t = s.skip(1);
            let r = if s[0] == 12 {
                <String as TuxIOType>::spec_read_size(t)
            } else if s[0] == 11 {
                <Vec<u8> as TuxIOType>::spec_read_size(t)
            } else if s[0] == 10 {
                <bool as TuxIOType>::spec_read_size(t)
            } else if s[0] == 0 {
                <u8 as TuxIOType>::spec_read_size(t)
            } else if s[0] == 1 {
                <u16 as TuxIOType>::spec_read_size(t)
            } else if s[0] == 2 {
                <u32 as TuxIOType>::spec_read_size(t)
            } else if s[0] == 3 {
                <u64 as TuxIOType>::spec_read_size(t)
            } else if s[0] == 4 {
                <i8 as TuxIOType>::spec_read_size(t)
            } else if s[0] == 5 {
                <i16 as TuxIOType>::spec_read_size(t)
            } else if s[0] == 6 {
                <i32 as TuxIOType>::spec_read_size(t)
            } else if s[0] == 7 {
                <i64 as TuxIOType>::spec_read_size(t)
            } else if s[0] == 8 {
                <u32 as TuxIOType>::spec_read_size(t)
            } else if s[0] == 9 {
                <u64 as TuxIOType>::spec_read_size(t)
            } else if s[0] == 13 {
                <RawDate as TuxIOType>::spec_read_size(t)
            } else if s[0] == 14 {
                <RawTime as TuxIOType>::spec_read_size(t)
            } else if s[0] == 16 {
                <RawDateTime as TuxIOType>::spec_read_size(t)
            } else if s[0] == 17 {
                <RawUuid as TuxIOType>::spec_read_size(t)
            } else {
                Err(EncodingError::UnknownTypeKey(s[0]))
            };
            match r {
                Ok(k) => if k + 1 > s.len() {
                    Err(EncodingError::UnexpectedEof)
                } else {
                    Ok(k + 1)
                },
                Err(e) => Err(e),
            }
        }
    }

    open spec fn spec_well_formed(v: ValueView) -> bool {
        match v {
            ValueView::String(x) => <String as TuxIOType>::spec_well_formed(x),
            ValueView::Bytes(x) => <Vec<u8> as TuxIOType>::spec_well_formed(x),
            ValueView::Bool(x) => <bool as TuxIOType>::spec_well_formed(x),
            ValueView::U8(x) => <u8 as TuxIOType>::spec_well_formed(x),
            ValueView::U16(x) => <u16 as TuxIOType>::spec_well_formed(x),
            ValueView::U32(x) => <u32 as TuxIOType>::spec_well_formed(x),
            ValueView::U64(x) => <u64 as TuxIOType>::spec_well_formed(x),
            ValueView::I8(x) => <i8 as TuxIOType>::spec_well_formed(x),
            ValueView::I16(x) => <i16 as TuxIOType>::spec_well_formed(x),
            ValueView::I32(x) => <i32 as TuxIOType>::spec_well_formed(x),
            ValueView::I64(x) => <i64 as TuxIOType>::spec_well_formed(x),
            ValueView::F32(x) => <u32 as TuxIOType>::spec_well_formed(x),
            ValueView::F64(x) => <u64 as TuxIOType>::spec_well_formed(x),
            ValueView::Date(x) => <RawDate as TuxIOType>::spec_well_formed(x),
            ValueView::Time(x) => <RawTime as TuxIOType>::spec_well_formed(x),
            ValueView::RawDateTime(x) => <RawDateTime as TuxIOType>::spec_well_formed(x),
            ValueView::Uuid(x) => <RawUuid as TuxIOType>::spec_well_formed(x),
        }
    }

    proof fn lemma_size(v: ValueView) {
        match v {
            ValueView::String(x) => <String as TuxIOType>::lemma_size(x),
            ValueView::Bytes(x) => <Vec<u8> as TuxIOType>::lemma_size(x),
            ValueView::Bool(x) => <bool as TuxIOType>::lemma_size(x),
            ValueView::U8(x) => <u8 as TuxIOType>::lemma_size(x),
            ValueView::U16(x) => <u16 as TuxIOType>::lemma_size(x),
            ValueView::U32(x) => <u32 as TuxIOType>::lemma_size(x),
            ValueView::U64(x) => <u64 as TuxIOType>::lemma_size(x),
            ValueView::I8(x) => <i8 as TuxIOType>::lemma_size(x),
            ValueView::I16(x) => <i16 as TuxIOType>::lemma_size(x),
            ValueView::I32(x) => <i32 as TuxIOType>::lemma_size(x),
            ValueView::I64(x) => <i64 as TuxIOType>::lemma_size(x),
            ValueView::F32(x) => <u32 as TuxIOType>::lemma_size(x),
            ValueView::F64(x) => <u64 as TuxIOType>::lemma_size(x),
            ValueView::Date(x) => <RawDate as TuxIOType>::lemma_size(x),
            ValueView::Time(x) => <RawTime as TuxIOType>::lemma_size(x),
            ValueView::RawDateTime(x) => <RawDateTime as TuxIOType>::lemma_size(x),
            ValueView::Uuid(x) => <RawUuid as TuxIOType>::lemma_size(x),
        }
    }

    proof fn lemma_parse_encode(v: ValueView, rest: Seq<u8>) {
        let s = Self::spec_encode(v) + rest;
        match v {
            ValueView::String(x) => {
                assert(s.skip(1) =~= <String as TuxIOType>::spec_encode(x) + rest);
                <String as TuxIOType>::lemma_parse_encode(x, rest);
            },
            ValueView::Bytes(x) => {
                assert(s.skip(1) =~= <Vec<u8> as TuxIOType>::spec_encode(x) + rest);
                <Vec<u8> as TuxIOType>::lemma_parse_encode(x, rest);
            },
            ValueView::Bool(x) => {
                assert(s.skip(1) =~= <bool as TuxIOType>::spec_encode(x) + rest);
                <bool as TuxIOType>::lemma_parse_encode(x, rest);
            },
            ValueView::U8(x) => {
                assert(s.skip(1) =~= <u8 as TuxIOType>::spec_encode(x) + rest);
                <u8 as TuxIOType>::lemma_parse_encode(x, rest);
            },
            ValueView::U16(x) => {
                assert(s.skip(1) =~= <u16 as TuxIOType>::spec_encode(x) + rest);
                <u16 as TuxIOType>::lemma_parse_encode(x, rest);
            },
            ValueView::U32(x) => {
                assert(s.skip(1) =~= <u32 as TuxIOType>::spec_encode(x) + rest);
                <u32 as TuxIOType>::lemma_parse_encode(x, rest);
            },
            ValueView::U64(x) => {
                assert(s.skip(1) =~= <u64 as TuxIOType>::spec_encode(x) + rest);
                <u64 as TuxIOType>::lemma_parse_encode(x, rest);
            },
            ValueView::I8(x) => {
                assert(s.skip(1) =~= <i8 as TuxIOType>::spec_encode(x) + rest);
                <i8 as TuxIOType>::lemma_parse_encode(x, rest);
            },
            ValueView::I16(x) => {
                assert(s.skip(1) =~= <i16 as TuxIOType>::spec_encode(x) + rest);
                <i16 as TuxIOType>::lemma_parse_encode(x, rest);
            },
            ValueView::I32(x) => {
                assert(s.skip(1) =~= <i32 as TuxIOType>::spec_encode(x) + rest);
                <i32 as TuxIOType>::lemma_parse_encode(x, rest);
            },
            ValueView::I64(x) => {
                assert(s.skip(1) =~= <i64 as TuxIOType>::spec_encode(x) + rest);
                <i64 as TuxIOType>::lemma_parse_encode(x, rest);
            },
            ValueView::F32(x) => {
                assert(s.skip(1) =~= <u32 as TuxIOType>::spec_encode(x) + rest);
                <u32 as TuxIOType>::lemma_parse_encode(x, rest);
            },
            ValueView::F64(x) => {
                assert(s.skip(1) =~= <u64 as TuxIOType>::spec_encode(x) + rest);
                <u64 as TuxIOType>::lemma_parse_encode(x, rest);
            },
            ValueView::Date(x) => {
                assert(s.skip(1) =~= <RawDate as TuxIOType>::spec_encode(x) + rest);
                <RawDate as TuxIOType>::lemma_parse_encode(x, rest);
            },
            ValueView::Time(x) => {
                assert(s.skip(1) =~= <RawTime as TuxIOType>::spec_encode(x) + rest);
                <RawTime as TuxIOType>::lemma_parse_encode(x, rest);
            },
            ValueView::RawDateTime(x) => {
                assert(s.skip(1) =~= <RawDateTime as TuxIOType>::spec_encode(x) + rest);
                <RawDateTime as TuxIOType>::lemma_parse_encode(x, rest);
            },
            ValueView::Uuid(x) => {
                assert(s.skip(1) =~= <RawUuid as TuxIOType>::spec_encode(x) + rest);
                <RawUuid as TuxIOType>::lemma_parse_encode(x, rest);
            },
        }
    }

    proof fn lemma_parse_facts(s: Seq<u8>) {
        if s.len() >= 1 {
            let t = s.skip(1);
            <String as TuxIOType>::lemma_parse_facts(t);
            <Vec<u8> as TuxIOType>::lemma_parse_facts(t);
            <bool as TuxIOType>::lemma_parse_facts(t);
            <u8 as TuxIOType>::lemma_parse_facts(t);
            <u16 as TuxIOType>::lemma_parse_facts(t);
            <u32 as TuxIOType>::lemma_parse_facts(t);
            <u64 as TuxIOType>::lemma_parse_facts(t);
            <i8 as TuxIOType>::lemma_parse_facts(t);
            <i16 as TuxIOType>::lemma_parse_facts(t);
            <i32 as TuxIOType>::lemma_parse_facts(t);
            <i64 as TuxIOType>::lemma_parse_facts(t);
            <u32 as TuxIOType>::lemma_parse_facts(t);
            <u64 as TuxIOType>::lemma_parse_facts(t);
            <RawDate as TuxIOType>::lemma_parse_facts(t);
            <RawTime as TuxIOType>::lemma_parse_facts(t);
            <RawDateTime as TuxIOType>::lemma_parse_facts(t);
            <RawUuid as TuxIOType>::lemma_parse_facts(t);
        }
    }

    fn const_size(&self) -> (r: Option<usize>) {
        match self {
            ValueType::String(_) => None,
            ValueType::Bytes(_) => None,
            ValueType::Bool(_) => Some(2),
            ValueType::U8(_) => Some(2),
            ValueType::U16(_) => Some(3),
            ValueType::U32(_) => Some(5),
            ValueType::U64(_) => Some(9),
            ValueType::I8(_) => Some(2),
            ValueType::I16(_) => Some(3),
            ValueType::I32(_) => Some(5),
            ValueType::I64(_) => Some(9),
            ValueType::F32(_) => Some(5),
            ValueType::F64(_) => Some(9),
            ValueType::Date(_) => Some(5),
            ValueType::Time(_) => Some(9),
            ValueType::RawDateTime(_) => Some(17),
            ValueType::Uuid(_) => Some(17),
        }
    }

    fn size(&self) -> (r: usize) {
        match self {
            ValueType::String(x) => 1 + x.size(),
            ValueType::Bytes(x) => 1 + x.size(),
            ValueType::Bool(x) => 1 + x.size(),
            ValueType::U8(x) => 1 + x.size(),
            ValueType::U16(x) => 1 + x.size(),
            ValueType::U32(x) => 1 + x.size(),
            ValueType::U64(x) => 1 + x.size(),
            ValueType::I8(x) => 1 + x.size(),
            ValueType::I16(x) => 1 + x.size(),
            ValueType::I32(x) => 1 + x.size(),
            ValueType::I64(x) => 1 + x.size(),
            ValueType::F32(x) => 1 + x.size(),
            ValueType::F64(x) => 1 + x.size(),
            ValueType::Date(x) => 1 + x.size(),
            ValueType::Time(x) => 1 + x.size(),
            ValueType::RawDateTime(x) => 1 + x.size(),
            ValueType::Uuid(x) => 1 + x.size(),
        }
    }
}

impl ReadableObjectType for ValueType {
    fn read_size(bytes: &[u8], pos: usize) -> (r: Result<usize, EncodingError>) {
        let (key, next) = u8::read_from_reader(bytes, pos)?;
        proof {
            lemma_rest_skip(bytes@, pos as int, 1);
        }
        let k = match key {
            12 => String::read_size(bytes, next)?,
            11 => Vec::<u8>::read_size(bytes, next)?,
            10 => bool::read_size(bytes, next)?,
            0 => u8::read_size(bytes, next)?,
            1 => u16::read_size(bytes, next)?,
            2 => u32::read_size(bytes, next)?,
            3 => u64::read_size(bytes, next)?,
            4 => i8::read_size(bytes, next)?,
            5 => i16::read_size(bytes, next)?,
            6 => i32::read_size(bytes, next)?,
            7 => i64::read_size(bytes, next)?,
            8 => u32::read_size(bytes, next)?,
            9 => u64::read_size(bytes, next)?,
            13 => RawDate::read_size(bytes, next)?,
            14 => RawTime::read_size(bytes, next)?,
            16 => RawDateTime::read_size(bytes, next)?,
            17 => RawUuid::read_size(bytes, next)?,
            _ => return Err(EncodingError::UnknownTypeKey(key)),
        };
        if k > bytes.len() - next {
            return Err(EncodingError::UnexpectedEof);
        }
        Ok(k + 1)
    }

    fn read_from_reader(bytes: &[u8], pos: usize) -> (r: Result<(ValueType, usize), EncodingError>) {
        let (key, next) = u8::read_from_reader(bytes, pos)?;
        proof {
            lemma_rest_skip(bytes@, pos as int, 1);
        }
        match key {
            12 => {
                let (x, end) = String::read_from_reader(bytes, next)?;
                Ok((ValueType::String(x), end))
            },
            11 => {
                let (x, end) = Vec::<u8>::read_from_reader(bytes, next)?;
                Ok((ValueType::Bytes(x), end))
            },
            10 => {
                let (x, end) = bool::read_from_reader(bytes, next)?;
                Ok((ValueType::Bool(x), end))
            },
            0 => {
                let (x, end) = u8::read_from_reader(bytes, next)?;
                Ok((ValueType::U8(x), end))
            },
            1 => {
                let (x, end) = u16::read_from_reader(bytes, next)?;
                Ok((ValueType::U16(x), end))
            },
            2 => {
                let (x, end) = u32::read_from_reader(bytes, next)?;
                Ok((ValueType::U32(x), end))
            },
            3 => {
                let (x, end) = u64::read_from_reader(bytes, next)?;
                Ok((ValueType::U64(x), end))
            },
            4 => {
                let (x, end) = i8::read_from_reader(bytes, next)?;
                Ok((ValueType::I8(x), end))
            },
            5 => {
                let (x, end) = i16::read_from_reader(bytes, next)?;
                Ok((ValueType::I16(x), end))
            },
            6 => {
                let (x, end) = i32::read_from_reader(bytes, next)?;
                Ok((ValueType::I32(x), end))
            },
            7 => {
                let (x, end) = i64::read_from_reader(bytes, next)?;
                Ok((ValueType::I64(x), end))
            },
            8 => {
                let (x, end) = u32::read_from_reader(bytes, next)?;
                Ok((ValueType::F32(x), end))
            },
            9 => {
                let (x, end) = u64::read_from_reader(bytes, next)?;
                Ok((ValueType::F64(x), end))
            },
            13 => {
                let (x, end) = RawDate::read_from_reader(bytes, next)?;
                Ok((ValueType::Date(x), end))
            },
            14 => {
                let (x, end) = RawTime::read_from_reader(bytes, next)?;
                Ok((ValueType::Time(x), end))
            },
            16 => {
                let (x, end) = RawDateTime::read_from_reader(bytes, next)?;
                Ok((ValueType::RawDateTime(x), end))
            },
            17 => {
                let (x, end) = RawUuid::read_from_reader(bytes, next)?;
                Ok((ValueType::Uuid(x), end))
            },
            _ => Err(EncodingError::UnknownTypeKey(key)),
        }
    }
}

impl WritableObjectType for ValueType {
    fn write_to_writer(&self, writer: &mut Vec<u8>) -> (r: Result<(), EncodingError>) {
        let ghost before = writer@;
        let key: u8 = match self {
            ValueType::String(_) => String::type_key(),
            ValueType::Bytes(_) => Vec::<u8>::type_key(),
            ValueType::Bool(_) => bool::type_key(),
            ValueType::U8(_) => u8::type_key(),
            ValueType::U16(_) => u16::type_key(),
            ValueType::U32(_) => u32::type_key(),
            ValueType::U64(_) => u64::type_key(),
            ValueType::I8(_) => i8::type_key(),
            ValueType::I16(_) => i16::type_key(),
            ValueType::I32(_) => i32::type_key(),
            ValueType::I64(_) => i64::type_key(),
            ValueType::F32(_) => 8,
            ValueType::F64(_) => 9,
            ValueType::Date(_) => RawDate::type_key(),
            ValueType::Time(_) => RawTime::type_key(),
            ValueType::RawDateTime(_) => RawDateTime::type_key(),
            ValueType::Uuid(_) => RawUuid::type_key(),
        };
        writer.push(key);
        let ghost mid = writer@;
        proof {
            lemma_prefix_of_append(before, seq![key]);
            assert(mid =~= before + seq![key]);
        }
        let r = match self {
            ValueType::String(x) => x.write_to_writer(writer),
            ValueType::Bytes(x) => x.write_to_writer(writer),
            ValueType::Bool(x) => x.write_to_writer(writer),
            ValueType::U8(x) => x.write_to_writer(writer),
            ValueType::U16(x) => x.write_to_writer(writer),
            ValueType::U32(x) => x.write_to_writer(writer),
            ValueType::U64(x) => x.write_to_writer(writer),
            ValueType::I8(x) => x.write_to_writer(writer),
            ValueType::I16(x) => x.write_to_writer(writer),
            ValueType::I32(x) => x.write_to_writer(writer),
            ValueType::I64(x) => x.write_to_writer(writer),
            ValueType::F32(x) => x.write_to_writer(writer),
            ValueType::F64(x) => x.write_to_writer(writer),
            ValueType::Date(x) => x.write_to_writer(writer),
            ValueType::Time(x) => x.write_to_writer(writer),
            ValueType::RawDateTime(x) => x.write_to_writer(writer),
            ValueType::Uuid(x) => x.write_to_writer(writer),
        };
        proof {
            lemma_prefix_trans(before, mid, writer@);
            if r is Ok {
                assert(writer@ =~= before + Self::spec_encode(self.deep_view()));
            }
        }
        r
    }
}

} // verus!
