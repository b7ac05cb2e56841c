use crate::error::EncodingError;
use crate::object::{
    lemma_prefix_of_append, put_bytes, rest_at, ReadableObjectType, ConstTypedObjectType, TuxIOType, TypedObjectType,
    WritableObjectType,
};
use vstd::bytes::{
    lemma_auto_spec_u16_to_from_le_bytes, lemma_auto_spec_u32_to_from_le_bytes,
    lemma_auto_spec_u64_to_from_le_bytes, spec_u16_from_le_bytes, spec_u16_to_le_bytes,
    spec_u32_from_le_bytes, spec_u32_to_le_bytes, spec_u64_from_le_bytes, spec_u64_to_le_bytes,
    u16_from_le_bytes, u16_to_le_bytes, u32_from_le_bytes, u32_to_le_bytes, u64_from_le_bytes,
    u64_to_le_bytes,
};
use vstd::prelude::*;
use vstd::slice::slice_subrange;

verus! {

impl TuxIOType for u8 {
    open spec fn spec_size(v: u8) -> nat {
        1
    }

    open spec fn spec_const_size(v: u8) -> Option<nat> {
        Some(1)
    }

    open spec fn spec_writable(v: u8) -> bool {
        true
    }

    open spec fn spec_encode(v: u8) -> Seq<u8> {
        seq![v]
    }

    open spec fn spec_parse(s: Seq<u8>) -> Result<(u8, nat), EncodingError> {
        if s.len() < 1 {
            Err(EncodingError::UnexpectedEof)
        } else {
            Ok((s[0], 1))
        }
    }

    open spec fn spec_read_size(s: Seq<u8>) -> Result<nat, EncodingError> {
        Ok(1)
    }

    proof fn lemma_size(v: u8) {
    }

    proof fn lemma_parse_encode(v: u8, rest: Seq<u8>) {
        assert((Self::spec_encode(v) + rest).subrange(0, 1) =~= Self::spec_encode(v));
    }

    proof fn lemma_parse_facts(s: Seq<u8>) {
    }

    fn const_size(&self) -> (r: Option<usize>) {
        Some(1)
    }

    fn size(&self) -> (r: usize) {
        1
    }
}

impl ReadableObjectType for u8 {
    fn read_size(bytes: &[u8], pos: usize) -> (r: Result<usize, EncodingError>) {
        Ok(1)
    }

    fn read_from_reader(bytes: &[u8], pos: usize) -> (r: Result<(u8, usize), EncodingError>) {
        if bytes.len() - pos < 1 {
            return Err(EncodingError::UnexpectedEof);
        }
        let b = bytes[pos];
        Ok((b, pos + 1))
    }
}

impl WritableObjectType for u8 {
    fn write_to_writer(&self, writer: &mut Vec<u8>) -> (r: Result<(), EncodingError>) {
        let ghost before = writer@;
        writer.push(*self);
        proof {
            assert(writer@ =~= before + Self::spec_encode(self.deep_view()));
            lemma_prefix_of_append(before, Self::spec_encode(self.deep_view()));
        }
        Ok(())
    }
}

impl TypedObjectType for u8 {
    open spec fn spec_type_key() -> u8 {
        0
    }

    fn type_key() -> (r: u8) {
        0
    }
}

impl ConstTypedObjectType for u8 {
    const TYPE_KEY: u8 = 0;
}

impl TuxIOType for i8 {
    open spec fn spec_size(v: i8) -> nat {
        1
    }

    open spec fn spec_const_size(v: i8) -> Option<nat> {
        Some(1)
    }

    open spec fn spec_writable(v: i8) -> bool {
        true
    }

    open spec fn spec_encode(v: i8) -> Seq<u8> {
        seq![v as u8]
    }

    open spec fn spec_parse(s: Seq<u8>) -> Result<(i8, nat), EncodingError> {
        if s.len() < 1 {
            Err(EncodingError::UnexpectedEof)
        } else {
            Ok((s[0] as i8, 1))
        }
    }

    open spec fn spec_read_size(s: Seq<u8>) -> Result<nat, EncodingError> {
        Ok(1)
    }

    proof fn lemma_size(v: i8) {
        assert((v as u8) as i8 == v) by (bit_vector);
    }

    proof fn lemma_parse_encode(v: i8, rest: Seq<u8>) {
        assert((v as u8) as i8 == v) by (bit_vector);
        assert((Self::spec_encode(v) + rest).subrange(0, 1) =~= Self::spec_encode(v));
    }

    proof fn lemma_parse_facts(s: Seq<u8>) {
    }

    fn const_size(&self) -> (r: Option<usize>) {
        Some(1)
    }

    fn size(&self) -> (r: usize) {
        1
    }
}

impl ReadableObjectType for i8 {
    fn read_size(bytes: &[u8], pos: usize) -> (r: Result<usize, EncodingError>) {
        Ok(1)
    }

    fn read_from_reader(bytes: &[u8], pos: usize) -> (r: Result<(i8, usize), EncodingError>) {
        if bytes.len() - pos < 1 {
            return Err(EncodingError::UnexpectedEof);
        }
        let b = bytes[pos];
        Ok((b as i8, pos + 1))
    }
}

impl WritableObjectType for i8 {
    fn write_to_writer(&self, writer: &mut Vec<u8>) -> (r: Result<(), EncodingError>) {
        let ghost before = writer@;
        writer.push(*self as u8);
        proof {
            assert(writer@ =~= before + Self::spec_encode(self.deep_view()));
            lemma_prefix_of_append(before, Self::spec_encode(self.deep_view()));
        }
        Ok(())
    }
}

impl TypedObjectType for i8 {
    open spec fn spec_type_key() -> u8 {
        4
    }

    fn type_key() -> (r: u8) {
        4
    }
}

impl ConstTypedObjectType for i8 {
    const TYPE_KEY: u8 = 4;
}

impl TuxIOType for u16 {
    open spec fn spec_size(v: u16) -> nat {
        2
    }

    open spec fn spec_const_size(v: u16) -> Option<nat> {
        Some(2)
    }

    open spec fn spec_writable(v: u16) -> bool {
        true
    }

    open spec fn spec_encode(v: u16) -> Seq<u8> {
        spec_u16_to_le_bytes(v)
    }

    open spec fn spec_parse(s: Seq<u8>) -> Result<(u16, nat), EncodingError> {
        if s.len() < 2 {
            Err(EncodingError::UnexpectedEof)
        } else {
            Ok((spec_u16_from_le_bytes(s.subrange(0, 2)), 2))
        }
    }

    open spec fn spec_read_size(s: Seq<u8>) -> Result<nat, EncodingError> {
        Ok(2)
    }

    proof fn lemma_size(v: u16) {
        lemma_auto_spec_u16_to_from_le_bytes();
    }

    proof fn lemma_parse_encode(v: u16, rest: Seq<u8>) {
        lemma_auto_spec_u16_to_from_le_bytes();
        assert((Self::spec_encode(v) + rest).subrange(0, 2) =~= Self::spec_encode(v));
    }

    proof fn lemma_parse_facts(s: Seq<u8>) {
    }

    fn const_size(&self) -> (r: Option<usize>) {
        Some(2)
    }

    fn size(&self) -> (r: usize) {
        2
    }
}

impl ReadableObjectType for u16 {
    fn read_size(bytes: &[u8], pos: usize) -> (r: Result<usize, EncodingError>) {
        Ok(2)
    }

    fn read_from_reader(bytes: &[u8], pos: usize) -> (r: Result<(u16, usize), EncodingError>) {
        if bytes.len() - pos < 2 {
            return Err(EncodingError::UnexpectedEof);
        }
        let s = slice_subrange(bytes, pos, pos + 2);
        assert(s@ =~= rest_at(bytes@, pos as int).subrange(0, 2));
        let x = u16_from_le_bytes(s);
        Ok((x, pos + 2))
    }
}

impl WritableObjectType for u16 {
    fn write_to_writer(&self, writer: &mut Vec<u8>) -> (r: Result<(), EncodingError>) {
        put_bytes(writer, u16_to_le_bytes(*self));
        Ok(())
    }
}

impl TypedObjectType for u16 {
    open spec fn spec_type_key() -> u8 {
        1
    }

    fn type_key() -> (r: u8) {
        1
    }
}

impl ConstTypedObjectType for u16 {
    const TYPE_KEY: u8 = 1;
}

impl TuxIOType for u32 {
    open spec fn spec_size(v: u32) -> nat {
        4
    }

    open spec fn spec_const_size(v: u32) -> Option<nat> {
        Some(4)
    }

    open spec fn spec_writable(v: u32) -> bool {
        true
    }

    open spec fn spec_encode(v: u32) -> Seq<u8> {
        spec_u32_to_le_bytes(v)
    }

    open spec fn spec_parse(s: Seq<u8>) -> Result<(u32, nat), EncodingError> {
        if s.len() < 4 {
            Err(EncodingError::UnexpectedEof)
        } else {
            Ok((spec_u32_from_le_bytes(s.subrange(0, 4)), 4))
        }
    }

    open spec fn spec_read_size(s: Seq<u8>) -> Result<nat, EncodingError> {
        Ok(4)
    }

    proof fn lemma_size(v: u32) {
        lemma_auto_spec_u32_to_from_le_bytes();
    }

    proof fn lemma_parse_encode(v: u32, rest: Seq<u8>) {
        lemma_auto_spec_u32_to_from_le_bytes();
        assert((Self::spec_encode(v) + rest).subrange(0, 4) =~= Self::spec_encode(v));
    }

    proof fn lemma_parse_facts(s: Seq<u8>) {
    }

    fn const_size(&self) -> (r: Option<usize>) {
        Some(4)
    }

    fn size(&self) -> (r: usize) {
        4
    }
}

impl ReadableObjectType for u32 {
    fn read_size(bytes: &[u8], pos: usize) -> (r: Result<usize, EncodingError>) {
        Ok(4)
    }

    fn read_from_reader(bytes: &[u8], pos: usize) -> (r: Result<(u32, usize), EncodingError>) {
        if bytes.len() - pos < 4 {
            return Err(EncodingError::UnexpectedEof);
        }
        let s = slice_subrange(bytes, pos, pos + 4);
        assert(s@ =~= rest_at(bytes@, pos as int).subrange(0, 4));
        let x = u32_from_le_bytes(s);
        Ok((x, pos + 4))
    }
}

impl WritableObjectType for u32 {
    fn write_to_writer(&self, writer: &mut Vec<u8>) -> (r: Result<(), EncodingError>) {
        put_bytes(writer, u32_to_le_bytes(*self));
        Ok(())
    }
}

impl TypedObjectType for u32 {
    open spec fn spec_type_key() -> u8 {
        2
    }

    fn type_key() -> (r: u8) {
        2
    }
}

impl ConstTypedObjectType for u32 {
    const TYPE_KEY: u8 = 2;
}

impl TuxIOType for u64 {
    open spec fn spec_size(v: u64) -> nat {
        8
    }

    open spec fn spec_const_size(v: u64) -> Option<nat> {
        Some(8)
    }

    open spec fn spec_writable(v: u64) -> bool {
        true
    }

    open spec fn spec_encode(v: u64) -> Seq<u8> {
        spec_u64_to_le_bytes(v)
    }

    open spec fn spec_parse(s: Seq<u8>) -> Result<(u64, nat), EncodingError> {
        if s.len() < 8 {
            Err(EncodingError::UnexpectedEof)
        } else {
            Ok((spec_u64_from_le_bytes(s.subrange(0, 8)), 8))
        }
    }

    open spec fn spec_read_size(s: Seq<u8>) -> Result<nat, EncodingError> {
        Ok(8)
    }

    proof fn lemma_size(v: u64) {
        lemma_auto_spec_u64_to_from_le_bytes();
    }

    proof fn lemma_parse_encode(v: u64, rest: Seq<u8>) {
        lemma_auto_spec_u64_to_from_le_bytes();
        assert((Self::spec_encode(v) + rest).subrange(0, 8) =~= Self::spec_encode(v));
    }

    proof fn lemma_parse_facts(s: Seq<u8>) {
    }

    fn const_size(&self) -> (r: Option<usize>) {
        Some(8)
    }

    fn size(&self) -> (r: usize) {
        8
    }
}

impl ReadableObjectType for u64 {
    fn read_size(bytes: &[u8], pos: usize) -> (r: Result<usize, EncodingError>) {
        Ok(8)
    }

    fn read_from_reader(bytes: &[u8], pos: usize) -> (r: Result<(u64, usize), EncodingError>) {
        if bytes.len() - pos < 8 {
            return Err(EncodingError::UnexpectedEof);
        }
        let s = slice_subrange(bytes, pos, pos + 8);
        assert(s@ =~= rest_at(bytes@, pos as int).subrange(0, 8));
        let x = u64_from_le_bytes(s);
        Ok((x, pos + 8))
    }
}

impl WritableObjectType for u64 {
    fn write_to_writer(&self, writer: &mut Vec<u8>) -> (r: Result<(), EncodingError>) {
        put_bytes(writer, u64_to_le_bytes(*self));
        Ok(())
    }
}

impl TypedObjectType for u64 {
    open spec fn spec_type_key() -> u8 {
        3
    }

    fn type_key() -> (r: u8) {
        3
    }
}

impl ConstTypedObjectType for u64 {
    const TYPE_KEY: u8 = 3;
}

impl TuxIOType for i16 {
    open spec fn spec_size(v: i16) -> nat {
        2
    }

    open spec fn spec_const_size(v: i16) -> Option<nat> {
        Some(2)
    }

    open spec fn spec_writable(v: i16) -> bool {
        true
    }

    open spec fn spec_encode(v: i16) -> Seq<u8> {
        spec_u16_to_le_bytes(v as u16)
    }

    open spec fn spec_parse(s: Seq<u8>) -> Result<(i16, nat), EncodingError> {
        if s.len() < 2 {
            Err(EncodingError::UnexpectedEof)
        } else {
            Ok((spec_u16_from_le_bytes(s.subrange(0, 2)) as i16, 2))
        }
    }

    open spec fn spec_read_size(s: Seq<u8>) -> Result<nat, EncodingError> {
        Ok(2)
    }

    proof fn lemma_size(v: i16) {
        lemma_auto_spec_u16_to_from_le_bytes();
        assert((v as u16) as i16 == v) by (bit_vector);
    }

    proof fn lemma_parse_encode(v: i16, rest: Seq<u8>) {
        lemma_auto_spec_u16_to_from_le_bytes();
        assert((v as u16) as i16 == v) by (bit_vector);
        assert((Self::spec_encode(v) + rest).subrange(0, 2) =~= Self::spec_encode(v));
    }

    proof fn lemma_parse_facts(s: Seq<u8>) {
    }

    fn const_size(&self) -> (r: Option<usize>) {
        Some(2)
    }

    fn size(&self) -> (r: usize) {
        2
    }
}

impl ReadableObjectType for i16 {
    fn read_size(bytes: &[u8], pos: usize) -> (r: Result<usize, EncodingError>) {
        Ok(2)
    }

    fn read_from_reader(bytes: &[u8], pos: usize) -> (r: Result<(i16, usize), EncodingError>) {
        if bytes.len() - pos < 2 {
            return Err(EncodingError::UnexpectedEof);
        }
        let s = slice_subrange(bytes, pos, pos + 2);
        assert(s@ =~= rest_at(bytes@, pos as int).subrange(0, 2));
        let x = u16_from_le_bytes(s);
        Ok((x as i16, pos + 2))
    }
}

impl WritableObjectType for i16 {
    fn write_to_writer(&self, writer: &mut Vec<u8>) -> (r: Result<(), EncodingError>) {
        put_bytes(writer, u16_to_le_bytes(*self as u16));
        Ok(())
    }
}

impl TypedObjectType for i16 {
    open spec fn spec_type_key() -> u8 {
        5
    }

    fn type_key() -> (r: u8) {
        5
    }
}

impl ConstTypedObjectType for i16 {
    const TYPE_KEY: u8 = 5;
}

impl TuxIOType for i32 {
    open spec fn spec_size(v: i32) -> nat {
        4
    }

    open spec fn spec_const_size(v: i32) -> Option<nat> {
        Some(4)
    }

    open spec fn spec_writable(v: i32) -> bool {
        true
    }

    open spec fn spec_encode(v: i32) -> Seq<u8> {
        spec_u32_to_le_bytes(v as u32)
    }

    open spec fn spec_parse(s: Seq<u8>) -> Result<(i32, nat), EncodingError> {
        if s.len() < 4 {
            Err(EncodingError::UnexpectedEof)
        } else {
            Ok((spec_u32_from_le_bytes(s.subrange(0, 4)) as i32, 4))
        }
    }

    open spec fn spec_read_size(s: Seq<u8>) -> Result<nat, EncodingError> {
        Ok(4)
    }

    proof fn lemma_size(v: i32) {
        lemma_auto_spec_u32_to_from_le_bytes();
        assert((v as u32) as i32 == v) by (bit_vector);
    }

    proof fn lemma_parse_encode(v: i32, rest: Seq<u8>) {
        lemma_auto_spec_u32_to_from_le_bytes();
        assert((v as u32) as i32 == v) by (bit_vector);
        assert((Self::spec_encode(v) + rest).subrange(0, 4) =~= Self::spec_encode(v));
    }

    proof fn lemma_parse_facts(s: Seq<u8>) {
    }

    fn const_size(&self) -> (r: Option<usize>) {
        Some(4)
    }

    fn size(&self) -> (r: usize) {
        4
    }
}

impl ReadableObjectType for i32 {
    fn read_size(bytes: &[u8], pos: usize) -> (r: Result<usize, EncodingError>) {
        Ok(4)
    }

    fn read_from_reader(bytes: &[u8], pos: usize) -> (r: Result<(i32, usize), EncodingError>) {
        if bytes.len() - pos < 4 {
            return Err(EncodingError::UnexpectedEof);
        }
        let s = slice_subrange(bytes, pos, pos + 4);
        assert(s@ =~= rest_at(bytes@, pos as int).subrange(0, 4));
        let x = u32_from_le_bytes(s);
        Ok((x as i32, pos + 4))
    }
}

impl WritableObjectType for i32 {
    fn write_to_writer(&self, writer: &mut Vec<u8>) -> (r: Result<(), EncodingError>) {
        put_bytes(writer, u32_to_le_bytes(*self as u32));
        Ok(())
    }
}

impl TypedObjectType for i32 {
    open spec fn spec_type_key() -> u8 {
        6
    }

    fn type_key() -> (r: u8) {
        6
    }
}

impl ConstTypedObjectType for i32 {
    const TYPE_KEY: u8 = 6;
}

impl TuxIOType for i64 {
    open spec fn spec_size(v: i64) -> nat {
        8
    }

    open spec fn spec_const_size(v: i64) -> Option<nat> {
        Some(8)
    }

    open spec fn spec_writable(v: i64) -> bool {
        true
    }

    open spec fn spec_encode(v: i64) -> Seq<u8> {
        spec_u64_to_le_bytes(v as u64)
    }

    open spec fn spec_parse(s: Seq<u8>) -> Result<(i64, nat), EncodingError> {
        if s.len() < 8 {
            Err(EncodingError::UnexpectedEof)
        } else {
            Ok((spec_u64_from_le_bytes(s.subrange(0, 8)) as i64, 8))
        }
    }

    open spec fn spec_read_size(s: Seq<u8>) -> Result<nat, EncodingError> {
        Ok(8)
    }

    proof fn lemma_size(v: i64) {
        lemma_auto_spec_u64_to_from_le_bytes();
        assert((v as u64) as i64 == v) by (bit_vector);
    }

    proof fn lemma_parse_encode(v: i64, rest: Seq<u8>) {
        lemma_auto_spec_u64_to_from_le_bytes();
        assert((v as u64) as i64 == v) by (bit_vector);
        assert((Self::spec_encode(v) + rest).subrange(0, 8) =~= Self::spec_encode(v));
    }

    proof fn lemma_parse_facts(s: Seq<u8>) {
    }

    fn const_size(&self) -> (r: Option<usize>) {
        Some(8)
    }

    fn size(&self) -> (r: usize) {
        8
    }
}

impl ReadableObjectType for i64 {
    fn read_size(bytes: &[u8], pos: usize) -> (r: Result<usize, EncodingError>) {
        Ok(8)
    }

    fn read_from_reader(bytes: &[u8], pos: usize) -> (r: Result<(i64, usize), EncodingError>) {
        if bytes.len() - pos < 8 {
            return Err(EncodingError::UnexpectedEof);
        }
        let s = slice_subrange(bytes, pos, pos + 8);
        assert(s@ =~= rest_at(bytes@, pos as int).subrange(0, 8));
        let x = u64_from_le_bytes(s);
        Ok((x as i64, pos + 8))
    }
}

impl WritableObjectType for i64 {
    fn write_to_writer(&self, writer: &mut Vec<u8>) -> (r: Result<(), EncodingError>) {
        put_bytes(writer, u64_to_le_bytes(*self as u64));
        Ok(())
    }
}

impl TypedObjectType for i64 {
    open spec fn spec_type_key() -> u8 {
        7
    }

    fn type_key() -> (r: u8) {
        7
    }
}

impl ConstTypedObjectType for i64 {
    const TYPE_KEY: u8 = 7;
}

impl TuxIOType for bool {
    open spec fn spec_size(v: bool) -> nat {
        1
    }

    open spec fn spec_const_size(v: bool) -> Option<nat> {
        Some(1)
    }

    open spec fn spec_writable(v: bool) -> bool {
        true
    }

    open spec fn spec_encode(v: bool) -> Seq<u8> {
        seq![if v { 1u8 } else { 0u8 }]
    }

    /// Only the bytes 0 and 1 decode; any other is rejected.
    open spec fn spec_parse(s: Seq<u8>) -> Result<(bool, nat), EncodingError> {
        if s.len() < 1 || s[0] > 1 {
            Err(EncodingError::UnexpectedEof)
        } else {
            Ok((s[0] == 1, 1))
        }
    }

    open spec fn spec_read_size(s: Seq<u8>) -> Result<nat, EncodingError> {
        Ok(1)
    }

    proof fn lemma_size(v: bool) {
    }

    proof fn lemma_parse_encode(v: bool, rest: Seq<u8>) {
    }

    proof fn lemma_parse_facts(s: Seq<u8>) {
    }

    fn const_size(&self) -> (r: Option<usize>) {
        Some(1)
    }

    fn size(&self) -> (r: usize) {
        1
    }
}

impl ReadableObjectType for bool {
    fn read_size(bytes: &[u8], pos: usize) -> (r: Result<usize, EncodingError>) {
        Ok(1)
    }

    fn read_from_reader(bytes: &[u8], pos: usize) -> (r: Result<(bool, usize), EncodingError>) {
        if pos >= bytes.len() {
            return Err(EncodingError::UnexpectedEof);
        }
        match bytes[pos] {
            0 => Ok((false, pos + 1)),
            1 => Ok((true, pos + 1)),
            _ => Err(EncodingError::UnexpectedEof),
        }
    }
}

impl WritableObjectType for bool {
    fn write_to_writer(&self, writer: &mut Vec<u8>) -> (r: Result<(), EncodingError>) {
        let ghost before = writer@;
        let b: u8 = if *self { 1 } else { 0 };
        writer.push(b);
        proof {
            assert(writer@ =~= before + Self::spec_encode(self.deep_view()));
            lemma_prefix_of_append(before, Self::spec_encode(self.deep_view()));
        }
        Ok(())
    }
}

impl TypedObjectType for bool {
    open spec fn spec_type_key() -> u8 {
        10
    }

    fn type_key() -> (r: u8) {
        10
    }
}

impl ConstTypedObjectType for bool {
    const TYPE_KEY: u8 = 10;
}

} // verus!
