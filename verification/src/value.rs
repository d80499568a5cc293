//! The engine's column value model and the host's dynamic value model.

use vstd::prelude::*;

verus! {

/// Subdivision of a second used by engine time and timestamp values.
#[derive(Clone, Copy, PartialEq, Eq, Structural, Debug)]
pub enum TimeUnit {
    Second,
    Millisecond,
    Microsecond,
    Nanosecond,
}

impl TimeUnit {
    /// How many ticks of this unit make up one second.
    pub open spec fn spec_subdivisions(self) -> int {
        match self {
            TimeUnit::Second => 1,
            TimeUnit::Millisecond => 1_000,
            TimeUnit::Microsecond => 1_000_000,
            TimeUnit::Nanosecond => 1_000_000_000,
        }
    }

    /// Executable counterpart of [`Self::spec_subdivisions`].
    pub fn subdivisions(self) -> (r: u32)
        ensures
            r == self.spec_subdivisions(),
    {
        match self {
            TimeUnit::Second => 1,
            TimeUnit::Millisecond => 1_000,
            TimeUnit::Microsecond => 1_000_000,
            TimeUnit::Nanosecond => 1_000_000_000,
        }
    }
}

/// Closed model of every value an engine column cell can hold.
///
/// Floating-point cells are carried as their IEEE-754 bit patterns: the
/// conversion passes them through untouched, so the logic never computes on
/// them. A `Decimal` is the scaled integer payload together with its
/// non-negative scale. `Struct` fields are ordered pairs whose names may
/// repeat; `Map` keys are not restricted to strings.
#[derive(Debug, PartialEq)]
pub enum SourceValue {
    Null,
    Boolean(bool),
    Int8(i8),
    Int16(i16),
    Int32(i32),
    Int64(i64),
    UInt8(u8),
    UInt16(u16),
    UInt32(u32),
    UInt64(u64),
    Float32 { bits: u32 },
    Float64 { bits: u64 },
    Decimal { unscaled: i128, scale: u8 },
    HugeInt(i128),
    Text(String),
    Blob(Vec<u8>),
    Date32(i32),
    Time64(TimeUnit, i64),
    Timestamp(TimeUnit, i64),
    Interval { months: i32, days: i32, nanos: i64 },
    List(Vec<SourceValue>),
    Array(Vec<SourceValue>),
    Struct(Vec<(String, SourceValue)>),
    Mapping(Vec<(SourceValue, SourceValue)>),
    Enum(String),
    Union(Box<SourceValue>),
}

/// The host runtime's dynamic value model, as far as the conversion needs it.
///
/// `BigInt` and `Decimal` carry the exact decimal string from which the host
/// constructs its arbitrary-precision number, so no binary floating-point
/// intermediate is involved. An `Instant` keeps the exact pair of tick count
/// and ticks per second; dividing the two into fractional seconds is left to
/// the host edge, where the precision tradeoff of its floating-point
/// representation is taken. A `Hash` is an ordered key-value structure; its
/// `indifferent` flag records that the host's indifferent-key-access adapter
/// wraps it.
#[derive(Debug, PartialEq)]
pub enum HostValue {
    Null,
    Bool(bool),
    Int(i64),
    BigInt(String),
    Float32 { bits: u32 },
    Float64 { bits: u64 },
    Decimal(String),
    Str(String),
    Bytes(Vec<u8>),
    Symbol(String),
    Date { year: i32, month: u8, day: u8 },
    Instant { ticks: i64, ticks_per_second: u32 },
    Duration { seconds: i64 },
    Array(Vec<HostValue>),
    Hash { entries: Vec<(HostValue, HostValue)>, indifferent: bool },
}

/// Calendar dates the conversion promises to decompose: days from the Unix
/// epoch within this bound stay far inside the range of the calendar
/// library's proleptic Gregorian dates.
pub const MAX_EPOCH_DAY_MAGNITUDE: i32 = 90_000_000;

/// Every `Date32` cell inside `v`, however deeply nested, is within
/// [`MAX_EPOCH_DAY_MAGNITUDE`] days of the Unix epoch.
pub open spec fn dates_in_range(v: SourceValue) -> bool
    decreases v,
{
    match v {
        SourceValue::Date32(days) => -MAX_EPOCH_DAY_MAGNITUDE <= days
            <= MAX_EPOCH_DAY_MAGNITUDE,
        SourceValue::List(items) => forall|i: int|
            0 <= i < items@.len() ==> dates_in_range(#[trigger] items@[i]),
        SourceValue::Array(items) => forall|i: int|
            0 <= i < items@.len() ==> dates_in_range(#[trigger] items@[i]),
        SourceValue::Struct(fields) => forall|i: int|
            0 <= i < fields@.len() ==> dates_in_range(#[trigger] fields@[i].1),
        SourceValue::Mapping(pairs) => forall|i: int|
            0 <= i < pairs@.len() ==> dates_in_range(#[trigger] pairs@[i].0)
                && dates_in_range(pairs@[i].1),
        SourceValue::Union(inner) => dates_in_range(*inner),
        _ => true,
    }
}

/// Executable counterpart of [`dates_in_range`], for callers that receive a
/// value of unknown provenance and must test it before conversion.
pub fn dates_within_range(v: &SourceValue) -> (b: bool)
    ensures
        b == dates_in_range(*v),
    decreases *v,
{
    match v {
        SourceValue::Date32(days) => -MAX_EPOCH_DAY_MAGNITUDE <= *days && *days
            <= MAX_EPOCH_DAY_MAGNITUDE,
        SourceValue::List(items) => sequence_dates_within_range(items),
        SourceValue::Array(items) => sequence_dates_within_range(items),
        SourceValue::Struct(fields) => fields_dates_within_range(fields),
        SourceValue::Mapping(pairs) => pairs_dates_within_range(pairs),
        SourceValue::Union(inner) => dates_within_range(inner),
        _ => true,
    }
}

/// Tests every field value of a struct.
fn fields_dates_within_range(fields: &Vec<(String, SourceValue)>) -> (b: bool)
    ensures
        b == forall|i: int| 0 <= i < fields@.len() ==> dates_in_range((#[trigger] fields@[i]).1),
    decreases *fields,
{
    let mut i: usize = 0;
    let mut good = true;
    while i < fields.len()
        invariant
            i <= fields@.len(),
            good == forall|j: int| 0 <= j < i ==> dates_in_range((#[trigger] fields@[j]).1),
        decreases fields@.len() - i,
    {
        proof {
            assert(decreases_to!(*fields => fields@[i as int]));
            assert(decreases_to!(fields@[i as int] => fields@[i as int].1));
        }
        good = dates_within_range(&fields[i].1) && good;
        i = i + 1;
    }
    good
}

/// Tests both sides of every pair of a map.
fn pairs_dates_within_range(pairs: &Vec<(SourceValue, SourceValue)>) -> (b: bool)
    ensures
        b == forall|i: int|
            0 <= i < pairs@.len() ==> dates_in_range((#[trigger] pairs@[i]).0) && dates_in_range(
                pairs@[i].1,
            ),
    decreases *pairs,
{
    let mut i: usize = 0;
    let mut good = true;
    while i < pairs.len()
        invariant
            i <= pairs@.len(),
            good == forall|j: int|
                0 <= j < i ==> dates_in_range((#[trigger] pairs@[j]).0) && dates_in_range(
                    pairs@[j].1,
                ),
        decreases pairs@.len() - i,
    {
        proof {
            assert(decreases_to!(*pairs => pairs@[i as int]));
            assert(decreases_to!(pairs@[i as int] => pairs@[i as int].0));
            assert(decreases_to!(pairs@[i as int] => pairs@[i as int].1));
        }
        good = (dates_within_range(&pairs[i].0) && dates_within_range(&pairs[i].1)) && good;
        i = i + 1;
    }
    good
}

/// Tests every element of a list or array.
fn sequence_dates_within_range(items: &Vec<SourceValue>) -> (b: bool)
    ensures
        b == forall|i: int| 0 <= i < items@.len() ==> dates_in_range(#[trigger] items@[i]),
    decreases *items,
{
    let mut i: usize = 0;
    let mut good = true;
    while i < items.len()
        invariant
            i <= items@.len(),
            good == forall|j: int| 0 <= j < i ==> dates_in_range(#[trigger] items@[j]),
        decreases items@.len() - i,
    {
        proof {
            assert(decreases_to!(*items => items@[i as int]));
        }
        good = dates_within_range(&items[i]) && good;
        i = i + 1;
    }
    good
}

} // verus!
