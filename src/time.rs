use crate::error::EncodingError;
use crate::object::{
    ConstTypedObjectType,
    lemma_prefix_of_append, lemma_rest_skip, rest_at, ReadableObjectType, TuxIOType,
    TypedObjectType, WritableObjectType,
};
use vstd::bytes::{
    lemma_auto_spec_u16_to_from_le_bytes, lemma_auto_spec_u32_to_from_le_bytes,
    spec_u16_from_le_bytes, spec_u32_from_le_bytes,
};
use vstd::prelude::*;

verus! {

/// A calendar date as stored: year, month and day, not checked against a calendar.
#[derive(Debug, Clone, Copy, PartialEq, Eq, Structural)]
pub struct RawDate {
    pub year: u16,
    pub month: u8,
    pub day: u8,
}

/// A time of day as stored: seconds since midnight and nanoseconds.
#[derive(Debug, Clone, Copy, PartialEq, Eq, Structural)]
pub struct RawTime {
    pub seconds_from_midnight: u32,
    pub nanoseconds: u32,
}

/// A time zone as stored: its offset from UTC in seconds.
#[derive(Debug, Clone, Copy, PartialEq, Eq, Structural)]
pub struct RawTimeZone {
    pub offset: i32,
}

/// A date, a time of day and a time zone together.
#[derive(Debug, Clone, Copy, PartialEq, Eq, Structural)]
pub struct RawDateTime {
    pub date: RawDate,
    pub time: RawTime,
    pub timezone: RawTimeZone,
}

/// The raw values that a calendar library refused to convert.
#[derive(Debug, Clone, Copy, PartialEq, Eq, Structural)]
pub enum ChronoError {
    InvalidNaiveDate(RawDate),
    InvalidNaiveTime(RawTime),
    InvalidFixedOffset(RawTimeZone),
}

impl DeepView for RawDate {
    type V = RawDate;

    open spec fn deep_view(&self) -> RawDate {
        *self
    }
}

impl DeepView for RawTime {
    type V = RawTime;

    open spec fn deep_view(&self) -> RawTime {
        *self
    }
}

impl DeepView for RawTimeZone {
    type V = RawTimeZone;

    open spec fn deep_view(&self) -> RawTimeZone {
        *self
    }
}

impl DeepView for RawDateTime {
    type V = RawDateTime;

    open spec fn deep_view(&self) -> RawDateTime {
        *self
    }
}

/// The date stored in the first four bytes of `s`.
pub open spec fn raw_date_of(s: Seq<u8>) -> RawDate {
    RawDate { year: spec_u16_from_le_bytes(s.subrange(0, 2)), month: s[2], day: s[3] }
}

/// The time of day stored in the first eight bytes of `s`.
pub open spec fn raw_time_of(s: Seq<u8>) -> RawTime {
    RawTime {
        seconds_from_midnight: spec_u32_from_le_bytes(s.subrange(0, 4)),
        nanoseconds: spec_u32_from_le_bytes(s.subrange(4, 8)),
    }
}

/// The time zone stored in the first four bytes of `s`.
pub open spec fn raw_zone_of(s: Seq<u8>) -> RawTimeZone {
    RawTimeZone { offset: spec_u32_from_le_bytes(s.subrange(0, 4)) as i32 }
}

impl TuxIOType for RawDate {
    open spec fn spec_size(v: RawDate) -> nat {
        4
    }

    open spec fn spec_const_size(v: RawDate) -> Option<nat> {
        Some(4)
    }

    open spec fn spec_writable(v: RawDate) -> bool {
        true
    }

    /// Year (2 bytes), month, day.
    open spec fn spec_encode(v: RawDate) -> Seq<u8> {
        seq![] + <u16 as TuxIOType>::spec_encode(v.year) + seq![v.month, v.day]
    }

    open spec fn spec_parse(s: Seq<u8>) -> Result<(RawDate, nat), EncodingError> {
        if s.len() < 4 {
            Err(EncodingError::UnexpectedEof)
        } else {
            Ok((raw_date_of(s), 4))
        }
    }

    open spec fn spec_read_size(s: Seq<u8>) -> Result<nat, EncodingError> {
        Ok(4)
    }

    proof fn lemma_size(v: RawDate) {
        lemma_auto_spec_u16_to_from_le_bytes();
        lemma_auto_spec_u32_to_from_le_bytes();
    }

    proof fn lemma_parse_encode(v: RawDate, rest: Seq<u8>) {
        lemma_auto_spec_u16_to_from_le_bytes();
        lemma_auto_spec_u32_to_from_le_bytes();
        let s = Self::spec_encode(v) + rest;
        assert(s.subrange(0, 2) =~= <u16 as TuxIOType>::spec_encode(v.year));
    }

    proof fn lemma_parse_facts(s: Seq<u8>) {
    }

    fn const_size(&self) -> (r: Option<usize>) {
        Some(4)
    }

    fn size(&self) -> (r: usize) {
        4
    }
}

impl ReadableObjectType for RawDate {
    fn read_size(bytes: &[u8], pos: usize) -> (r: Result<usize, EncodingError>) {
        Ok(4)
    }

    fn read_from_reader(bytes: &[u8], pos: usize) -> (r: Result<(RawDate, usize), EncodingError>) {
        let ghost s = rest_at(bytes@, pos as int);
        if bytes.len() - pos < 4 {
            return Err(EncodingError::UnexpectedEof);
        }
        let (year, _) = u16::read_from_reader(bytes, pos)?;
        let month = bytes[pos + 2];
        let day = bytes[pos + 3];
        Ok((RawDate { year, month, day }, pos + 4))
    }
}

impl WritableObjectType for RawDate {
    fn write_to_writer(&self, writer: &mut Vec<u8>) -> (r: Result<(), EncodingError>) {
        let ghost before = writer@;
        self.year.write_to_writer(writer)?;
        writer.push(self.month);
        writer.push(self.day);
        proof {
            assert(writer@ =~= before + Self::spec_encode(*self));
            lemma_prefix_of_append(before, Self::spec_encode(*self));
        }
        Ok(())
    }
}

impl TypedObjectType for RawDate {
    open spec fn spec_type_key() -> u8 {
        13
    }

    fn type_key() -> (r: u8) {
        13
    }
}

impl ConstTypedObjectType for RawDate {
    const TYPE_KEY: u8 = 13;
}

impl TuxIOType for RawTime {
    open spec fn spec_size(v: RawTime) -> nat {
        8
    }

    open spec fn spec_const_size(v: RawTime) -> Option<nat> {
        Some(8)
    }

    open spec fn spec_writable(v: RawTime) -> bool {
        true
    }

    /// Seconds since midnight (4 bytes), then nanoseconds (4 bytes).
    open spec fn spec_encode(v: RawTime) -> Seq<u8> {
        <u32 as TuxIOType>::spec_encode(v.seconds_from_midnight) + <u32 as TuxIOType>::spec_encode(v.nanoseconds)
    }

    open spec fn spec_parse(s: Seq<u8>) -> Result<(RawTime, nat), EncodingError> {
        if s.len() < 8 {
            Err(EncodingError::UnexpectedEof)
        } else {
            Ok((raw_time_of(s), 8))
        }
    }

    open spec fn spec_read_size(s: Seq<u8>) -> Result<nat, EncodingError> {
        Ok(8)
    }

    proof fn lemma_size(v: RawTime) {
        lemma_auto_spec_u16_to_from_le_bytes();
        lemma_auto_spec_u32_to_from_le_bytes();
    }

    proof fn lemma_parse_encode(v: RawTime, rest: Seq<u8>) {
        lemma_auto_spec_u16_to_from_le_bytes();
        lemma_auto_spec_u32_to_from_le_bytes();
        let s = Self::spec_encode(v) + rest;
        assert(s.subrange(0, 4) =~= <u32 as TuxIOType>::spec_encode(v.seconds_from_midnight));
        assert(s.subrange(4, 8) =~= <u32 as TuxIOType>::spec_encode(v.nanoseconds));
    }

    proof fn lemma_parse_facts(s: Seq<u8>) {
    }

    fn const_size(&self) -> (r: Option<usize>) {
        Some(8)
    }

    fn size(&self) -> (r: usize) {
        8
    }
}

impl ReadableObjectType for RawTime {
    fn read_size(bytes: &[u8], pos: usize) -> (r: Result<usize, EncodingError>) {
        Ok(8)
    }

    fn read_from_reader(bytes: &[u8], pos: usize) -> (r: Result<(RawTime, usize), EncodingError>) {
        let ghost s = rest_at(bytes@, pos as int);
        if bytes.len() - pos < 8 {
            return Err(EncodingError::UnexpectedEof);
        }
        proof {
            assert(rest_at(bytes@, pos + 4).subrange(0, 4) =~= s.subrange(4, 8));
        }
        let (seconds_from_midnight, _) = u32::read_from_reader(bytes, pos)?;
        let (nanoseconds, _) = u32::read_from_reader(bytes, pos + 4)?;
        Ok((RawTime { seconds_from_midnight, nanoseconds }, pos + 8))
    }
}

impl WritableObjectType for RawTime {
    fn write_to_writer(&self, writer: &mut Vec<u8>) -> (r: Result<(), EncodingError>) {
        let ghost before = writer@;
        self.seconds_from_midnight.write_to_writer(writer)?;
        self.nanoseconds.write_to_writer(writer)?;
        proof {
            assert(writer@ =~= before + Self::spec_encode(*self));
            lemma_prefix_of_append(before, Self::spec_encode(*self));
        }
        Ok(())
    }
}

impl TypedObjectType for RawTime {
    open spec fn spec_type_key() -> u8 {
        14
    }

    fn type_key() -> (r: u8) {
        14
    }
}

impl ConstTypedObjectType for RawTime {
    const TYPE_KEY: u8 = 14;
}

impl TuxIOType for RawTimeZone {
    open spec fn spec_size(v: RawTimeZone) -> nat {
        4
    }

    open spec fn spec_const_size(v: RawTimeZone) -> Option<nat> {
        Some(4)
    }

    open spec fn spec_writable(v: RawTimeZone) -> bool {
        true
    }

    /// The signed offset in seconds (4 bytes).
    open spec fn spec_encode(v: RawTimeZone) -> Seq<u8> {
        <i32 as TuxIOType>::spec_encode(v.offset)
    }

    open spec fn spec_parse(s: Seq<u8>) -> Result<(RawTimeZone, nat), EncodingError> {
        if s.len() < 4 {
            Err(EncodingError::UnexpectedEof)
        } else {
            Ok((raw_zone_of(s), 4))
        }
    }

    open spec fn spec_read_size(s: Seq<u8>) -> Result<nat, EncodingError> {
        Ok(4)
    }

    proof fn lemma_size(v: RawTimeZone) {
        lemma_auto_spec_u16_to_from_le_bytes();
        lemma_auto_spec_u32_to_from_le_bytes();
    }

    proof fn lemma_parse_encode(v: RawTimeZone, rest: Seq<u8>) {
        lemma_auto_spec_u16_to_from_le_bytes();
        lemma_auto_spec_u32_to_from_le_bytes();
        let s = Self::spec_encode(v) + rest;
        assert(s.subrange(0, 4) =~= <i32 as TuxIOType>::spec_encode(v.offset));
        let o = v.offset;
        assert((o as u32) as i32 == o) by (bit_vector);
    }

    proof fn lemma_parse_facts(s: Seq<u8>) {
    }

    fn const_size(&self) -> (r: Option<usize>) {
        Some(4)
    }

    fn size(&self) -> (r: usize) {
        4
    }
}

impl ReadableObjectType for RawTimeZone {
    fn read_size(bytes: &[u8], pos: usize) -> (r: Result<usize, EncodingError>) {
        Ok(4)
    }

    fn read_from_reader(bytes: &[u8], pos: usize) -> (r: Result<(RawTimeZone, usize), EncodingError>) {
        let ghost s = rest_at(bytes@, pos as int);
        if bytes.len() - pos < 4 {
            return Err(EncodingError::UnexpectedEof);
        }
        let (offset, _) = i32::read_from_reader(bytes, pos)?;
        Ok((RawTimeZone { offset }, pos + 4))
    }
}

impl WritableObjectType for RawTimeZone {
    fn write_to_writer(&self, writer: &mut Vec<u8>) -> (r: Result<(), EncodingError>) {
        let ghost before = writer@;
        self.offset.write_to_writer(writer)?;
        proof {
            assert(writer@ =~= before + Self::spec_encode(*self));
            lemma_prefix_of_append(before, Self::spec_encode(*self));
        }
        Ok(())
    }
}

impl TypedObjectType for RawTimeZone {
    open spec fn spec_type_key() -> u8 {
        15
    }

    fn type_key() -> (r: u8) {
        15
    }
}

impl ConstTypedObjectType for RawTimeZone {
    const TYPE_KEY: u8 = 15;
}

impl TuxIOType for RawDateTime {
    open spec fn spec_size(v: RawDateTime) -> nat {
        16
    }

    open spec fn spec_const_size(v: RawDateTime) -> Option<nat> {
        Some(16)
    }

    open spec fn spec_writable(v: RawDateTime) -> bool {
        true
    }

    /// Date (4 bytes), time of day (8 bytes), time zone (4 bytes).
    open spec fn spec_encode(v: RawDateTime) -> Seq<u8> {
        RawDate::spec_encode(v.date) + RawTime::spec_encode(v.time) + RawTimeZone::spec_encode(v.timezone)
    }

    open spec fn spec_parse(s: Seq<u8>) -> Result<(RawDateTime, nat), EncodingError> {
        if s.len() < 16 {
            Err(EncodingError::UnexpectedEof)
        } else {
            Ok((RawDateTime { date: raw_date_of(s), time: raw_time_of(s.skip(4)), timezone: raw_zone_of(s.skip(12)) }, 16))
        }
    }

    open spec fn spec_read_size(s: Seq<u8>) -> Result<nat, EncodingError> {
        Ok(16)
    }

    proof fn lemma_size(v: RawDateTime) {
        lemma_auto_spec_u16_to_from_le_bytes();
        lemma_auto_spec_u32_to_from_le_bytes();
    }

    proof fn lemma_parse_encode(v: RawDateTime, rest: Seq<u8>) {
        lemma_auto_spec_u16_to_from_le_bytes();
        lemma_auto_spec_u32_to_from_le_bytes();
        let s = Self::spec_encode(v) + rest;
        RawDate::lemma_parse_encode(v.date, s.skip(4));
        RawTime::lemma_parse_encode(v.time, s.skip(12));
        RawTimeZone::lemma_parse_encode(v.timezone, s.skip(16));
        assert(s =~= RawDate::spec_encode(v.date) + s.skip(4));
        assert(s.skip(4) =~= RawTime::spec_encode(v.time) + s.skip(12));
        assert(s.skip(12) =~= RawTimeZone::spec_encode(v.timezone) + s.skip(16));
    }

    proof fn lemma_parse_facts(s: Seq<u8>) {
    }

    fn const_size(&self) -> (r: Option<usize>) {
        Some(16)
    }

    fn size(&self) -> (r: usize) {
        16
    }
}

impl ReadableObjectType for RawDateTime {
    fn read_size(bytes: &[u8], pos: usize) -> (r: Result<usize, EncodingError>) {
        Ok(16)
    }

    fn read_from_reader(bytes: &[u8], pos: usize) -> (r: Result<(RawDateTime, usize), EncodingError>) {
        let ghost s = rest_at(bytes@, pos as int);
        if bytes.len() - pos < 16 {
            return Err(EncodingError::UnexpectedEof);
        }
        proof {
            lemma_rest_skip(bytes@, pos as int, 4);
            lemma_rest_skip(bytes@, pos as int, 12);
        }
        let (date, _) = RawDate::read_from_reader(bytes, pos)?;
        let (time, _) = RawTime::read_from_reader(bytes, pos + 4)?;
        let (timezone, _) = RawTimeZone::read_from_reader(bytes, pos + 12)?;
        Ok((RawDateTime { date, time, timezone }, pos + 16))
    }
}

impl WritableObjectType for RawDateTime {
    fn write_to_writer(&self, writer: &mut Vec<u8>) -> (r: Result<(), EncodingError>) {
        let ghost before = writer@;
        self.date.write_to_writer(writer)?;
        self.time.write_to_writer(writer)?;
        self.timezone.write_to_writer(writer)?;
        proof {
            assert(writer@ =~= before + Self::spec_encode(*self));
            lemma_prefix_of_append(before, Self::spec_encode(*self));
        }
        Ok(())
    }
}

impl TypedObjectType for RawDateTime {
    open spec fn spec_type_key() -> u8 {
        16
    }

    fn type_key() -> (r: u8) {
        16
    }
}

impl ConstTypedObjectType for RawDateTime {
    const TYPE_KEY: u8 = 16;
}

} // verus!
