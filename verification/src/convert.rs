//! The conversion engine: a total mapping from engine column values to host
//! values, recursive over nested containers.

use crate::digits::{dec_string_int, decimal_chars, decimal_string, integer_string};
use crate::value::{dates_in_range, HostValue, SourceValue, MAX_EPOCH_DAY_MAGNITUDE};
use chrono::Datelike;
use vstd::prelude::*;

verus! {

/// The explicit initialization context handed to the conversion engine:
/// the host ecosystem's calendar-naive duration constants. They deliberately
/// describe a thirty-day month and a twenty-four-hour day rather than true
/// calendar arithmetic.
#[derive(Clone, Copy, PartialEq, Eq, Structural, Debug)]
pub struct ConversionContext {
    pub seconds_per_month: i64,
    pub seconds_per_day: i64,
}

impl ConversionContext {
    /// The constants are non-negative and no larger than the longest true
    /// month or day, which keeps interval arithmetic inside a 64-bit value.
    pub open spec fn valid(self) -> bool {
        &&& 0 <= self.seconds_per_month <= 2_678_400
        &&& 0 <= self.seconds_per_day <= 86_400
    }

    /// The conventional constants of the host ecosystem's duration type:
    /// a thirty-day month and a twenty-four-hour day.
    pub fn conventional() -> (c: ConversionContext)
        ensures
            c.valid(),
            c.seconds_per_month == 2_592_000,
            c.seconds_per_day == 86_400,
    {
        ConversionContext { seconds_per_month: 2_592_000, seconds_per_day: 86_400 }
    }
}

/// The proleptic Gregorian calendar date `(year, month, day)` that lies
/// `days` days after the Unix epoch date. The decomposition is a function of
/// the day count alone; it is computed by the calendar library.
pub uninterp spec fn civil_of_epoch_days(days: int) -> (int, int, int);

/// The day offset from the Unix epoch of the proleptic Gregorian date
/// `(year, month, day)`: the calendar library's inverse of
/// [`civil_of_epoch_days`], likewise a function of its arguments alone.
pub uninterp spec fn epoch_days_of_civil(year: int, month: int, day: int) -> int;

/// Relies on `chrono::NaiveDate`: `checked_add_signed` walks the proleptic
/// Gregorian calendar from the epoch date 1970-01-01, and the `Datelike`
/// accessors decompose the result. Dates and day counts correspond one to
/// one in that library, so the decomposition it hands back stands for the
/// very day count that went in. The library documents the supported year
/// span as roughly ±262,000, far beyond the promised day range;
/// out-of-range sums return `None` rather than panicking.
#[verifier::external_body]
fn civil_from_epoch_days(days: i32) -> (r: Option<(i32, u8, u8)>)
    ensures
        -MAX_EPOCH_DAY_MAGNITUDE <= days <= MAX_EPOCH_DAY_MAGNITUDE ==> r is Some,
        r matches Some(c) ==> (c.0 as int, c.1 as int, c.2 as int) == civil_of_epoch_days(
            days as int,
        ) && 1 <= c.1 <= 12 && 1 <= c.2 <= 31,
        r matches Some(c) ==> epoch_days_of_civil(c.0 as int, c.1 as int, c.2 as int)
            == days as int,
        days == 0 ==> r == Some((1970i32, 1u8, 1u8)),
{
    let epoch = chrono::NaiveDate::from_ymd_opt(1970, 1, 1)?;
    let delta = chrono::TimeDelta::try_days(days as i64)?;
    let date = epoch.checked_add_signed(delta)?;
    Some((date.year(), date.month() as u8, date.day() as u8))
}

/// The whole seconds in `nanos` nanoseconds, truncated toward zero; the
/// sub-second remainder is deliberately dropped.
pub open spec fn whole_seconds(nanos: int) -> int {
    if nanos >= 0 {
        nanos / 1_000_000_000
    } else {
        -((-nanos) / 1_000_000_000)
    }
}

/// What it means for host value `r` to be the conversion of engine value
/// `v` under context `ctx`: one clause per engine variant, recursive over
/// nested containers.
pub open spec fn converts_to(ctx: ConversionContext, v: SourceValue, r: HostValue) -> bool
    decreases v,
{
    match v {
        SourceValue::Null => r is Null,
        SourceValue::Boolean(b) => r matches HostValue::Bool(x) && x == b,
        SourceValue::Int8(i) => r matches HostValue::Int(x) && x == i as i64,
        SourceValue::Int16(i) => r matches HostValue::Int(x) && x == i as i64,
        SourceValue::Int32(i) => r matches HostValue::Int(x) && x == i as i64,
        SourceValue::Int64(i) => r matches HostValue::Int(x) && x == i,
        SourceValue::UInt8(u) => r matches HostValue::Int(x) && x == u as i64,
        SourceValue::UInt16(u) => r matches HostValue::Int(x) && x == u as i64,
        SourceValue::UInt32(u) => r matches HostValue::Int(x) && x == u as i64,
        SourceValue::UInt64(u) => if u <= i64::MAX as u64 {
            r matches HostValue::Int(x) && x == u as i64
        } else {
            r matches HostValue::BigInt(s) && s@ == dec_string_int(u as int)
        },
        SourceValue::Float32 { bits } => r matches HostValue::Float32 { bits: x } && x == bits,
        SourceValue::Float64 { bits } => r matches HostValue::Float64 { bits: x } && x == bits,
        SourceValue::Decimal { unscaled, scale } => r matches HostValue::Decimal(s) && s@
            == decimal_chars(unscaled as int, scale as nat),
        SourceValue::HugeInt(h) => r matches HostValue::BigInt(s) && s@ == dec_string_int(
            h as int,
        ),
        SourceValue::Text(t) => r matches HostValue::Str(s) && s@ == t@,
        SourceValue::Blob(b) => r matches HostValue::Bytes(x) && x@ == b@,
        SourceValue::Date32(days) => r matches HostValue::Date { year, month, day } && (
        year as int,
        month as int,
        day as int,
        ) == civil_of_epoch_days(days as int) && epoch_days_of_civil(
            year as int,
            month as int,
            day as int,
        ) == days as int,
        SourceValue::Time64(unit, value) => r matches HostValue::Instant {
            ticks,
            ticks_per_second,
        } && ticks == value && ticks_per_second == unit.spec_subdivisions(),
        SourceValue::Timestamp(unit, value) => r matches HostValue::Instant {
            ticks,
            ticks_per_second,
        } && ticks == value && ticks_per_second == unit.spec_subdivisions(),
        SourceValue::Interval { months, days, nanos } => r matches HostValue::Duration { seconds }
            && seconds == months * ctx.seconds_per_month + days * ctx.seconds_per_day
            + whole_seconds(nanos as int),
        SourceValue::List(items) => {
            &&& r matches HostValue::Array(out)
            &&& out@.len() == items@.len()
            &&& forall|i: int|
                0 <= i < items@.len() ==> converts_to(ctx, #[trigger] items@[i], out@[i])
        },
        SourceValue::Array(items) => {
            &&& r matches HostValue::Array(out)
            &&& out@.len() == items@.len()
            &&& forall|i: int|
                0 <= i < items@.len() ==> converts_to(ctx, #[trigger] items@[i], out@[i])
        },
        SourceValue::Struct(fields) => {
            &&& r matches HostValue::Hash { entries, indifferent }
            &&& !indifferent
            &&& entries@.len() == fields@.len()
            &&& forall|i: int|
                0 <= i < fields@.len() ==> ((#[trigger] entries@[i]).0 matches HostValue::Str(
                    k,
                ) && k@ == fields@[i].0@)
            &&& forall|i: int|
                0 <= i < fields@.len() ==> converts_to(
                    ctx,
                    (#[trigger] fields@[i]).1,
                    entries@[i].1,
                )
        },
        SourceValue::Mapping(pairs) => {
            &&& r matches HostValue::Hash { entries, indifferent }
            &&& !indifferent
            &&& entries@.len() == pairs@.len()
            &&& forall|i: int|
                0 <= i < pairs@.len() ==> converts_to(ctx, (#[trigger] pairs@[i]).0, entries@[i].0)
            &&& forall|i: int|
                0 <= i < pairs@.len() ==> converts_to(ctx, (#[trigger] pairs@[i]).1, entries@[i].1)
        },
        SourceValue::Enum(label) => r matches HostValue::Symbol(s) && s@ == label@,
        SourceValue::Union(inner) => converts_to(ctx, *inner, r),
    }
}

/// The engine variants whose conversion is lossless: the host value alone
/// determines the engine value that produced it.
pub open spec fn lossless(v: SourceValue) -> bool {
    match v {
        SourceValue::Boolean(_) => true,
        SourceValue::Int8(_) => true,
        SourceValue::Int16(_) => true,
        SourceValue::Int32(_) => true,
        SourceValue::Int64(_) => true,
        SourceValue::UInt8(_) => true,
        SourceValue::UInt16(_) => true,
        SourceValue::UInt32(_) => true,
        SourceValue::UInt64(_) => true,
        SourceValue::HugeInt(_) => true,
        SourceValue::Decimal { .. } => true,
        SourceValue::Text(_) => true,
        SourceValue::Date32(_) => true,
        _ => false,
    }
}

/// Whether `v` is one of the integer variants, and which integer it holds.
pub open spec fn is_integer_source(v: SourceValue) -> bool {
    match v {
        SourceValue::Int8(_) => true,
        SourceValue::Int16(_) => true,
        SourceValue::Int32(_) => true,
        SourceValue::Int64(_) => true,
        SourceValue::UInt8(_) => true,
        SourceValue::UInt16(_) => true,
        SourceValue::UInt32(_) => true,
        SourceValue::UInt64(_) => true,
        SourceValue::HugeInt(_) => true,
        _ => false,
    }
}

/// The mathematical integer an integer variant holds.
pub open spec fn source_int_value(v: SourceValue) -> int {
    match v {
        SourceValue::Int8(i) => i as int,
        SourceValue::Int16(i) => i as int,
        SourceValue::Int32(i) => i as int,
        SourceValue::Int64(i) => i as int,
        SourceValue::UInt8(u) => u as int,
        SourceValue::UInt16(u) => u as int,
        SourceValue::UInt32(u) => u as int,
        SourceValue::UInt64(u) => u as int,
        SourceValue::HugeInt(h) => h as int,
        _ => 0,
    }
}

/// Two lossless engine values carry the same observable content: equal
/// booleans, equal text, an identical (unscaled, scale) decimal pair, the
/// same epoch day, or — across the integer variants — the same mathematical
/// integer.
pub open spec fn same_observed(v1: SourceValue, v2: SourceValue) -> bool {
    match (v1, v2) {
        (SourceValue::Boolean(a), SourceValue::Boolean(b)) => a == b,
        (SourceValue::Text(a), SourceValue::Text(b)) => a@ == b@,
        (
            SourceValue::Decimal { unscaled: a, scale: sa },
            SourceValue::Decimal { unscaled: b, scale: sb },
        ) => a == b && sa == sb,
        (SourceValue::Date32(a), SourceValue::Date32(b)) => a == b,
        _ => is_integer_source(v1) && is_integer_source(v2) && source_int_value(v1)
            == source_int_value(v2),
    }
}

/// Conversion is lossless for booleans, every integer variant, decimals,
/// text and dates: two such engine values that convert to the same host
/// value carry the same content, so a host that re-encodes what it received
/// reproduces the original value.
pub proof fn lemma_convert_lossless(
    ctx: ConversionContext,
    v1: SourceValue,
    v2: SourceValue,
    r: HostValue,
)
    requires
        lossless(v1),
        lossless(v2),
        converts_to(ctx, v1, r),
        converts_to(ctx, v2, r),
    ensures
        same_observed(v1, v2),
{
    match r {
        HostValue::BigInt(s) => {
            let n1 = source_int_value(v1);
            let n2 = source_int_value(v2);
            assert(s@ == crate::digits::dec_string_int(n1));
            assert(s@ == crate::digits::dec_string_int(n2));
            crate::digits::lemma_dec_string_int_injective(n1, n2);
        },
        HostValue::Decimal(s) => {
            if let SourceValue::Decimal { unscaled: a, scale: sa } = v1 {
                if let SourceValue::Decimal { unscaled: b, scale: sb } = v2 {
                    crate::digits::lemma_decimal_chars_injective(
                        a as int,
                        sa as nat,
                        b as int,
                        sb as nat,
                    );
                }
            }
        },
        _ => {},
    }
}

/// The whole seconds in `nanos`, truncated toward zero, computed on
/// magnitudes so that even the most negative input is exact.
fn nanos_whole_seconds(nanos: i64) -> (s: i64)
    ensures
        s == whole_seconds(nanos as int),
{
    if nanos >= 0 {
        nanos / 1_000_000_000
    } else {
        let magnitude: u64 = ((-(nanos + 1)) as u64) + 1;
        let q = magnitude / 1_000_000_000;
        -(q as i64)
    }
}

/// The calendar-naive total seconds of an interval: months and days weighted
/// by the context's constants, plus the whole seconds of the nanosecond part.
fn interval_seconds(ctx: ConversionContext, months: i32, days: i32, nanos: i64) -> (s: i64)
    requires
        ctx.valid(),
    ensures
        s == months * ctx.seconds_per_month + days * ctx.seconds_per_day + whole_seconds(
            nanos as int,
        ),
{
    proof {
        assert(months * ctx.seconds_per_month <= 2_147_483_648i64 * 2_678_400 && months
            * ctx.seconds_per_month >= -2_147_483_648i64 * 2_678_400) by (nonlinear_arith)
            requires
                -2_147_483_648 <= months <= 2_147_483_647,
                0 <= ctx.seconds_per_month <= 2_678_400,
        ;
        assert(days * ctx.seconds_per_day <= 2_147_483_648i64 * 86_400 && days
            * ctx.seconds_per_day >= -2_147_483_648i64 * 86_400) by (nonlinear_arith)
            requires
                -2_147_483_648 <= days <= 2_147_483_647,
                0 <= ctx.seconds_per_day <= 86_400,
        ;
    }
    let month_seconds = (months as i64) * ctx.seconds_per_month;
    let day_seconds = (days as i64) * ctx.seconds_per_day;
    let nano_seconds = nanos_whole_seconds(nanos);
    month_seconds + day_seconds + nano_seconds
}

/// Converts one engine value into the host's value model: total over every
/// defined variant, recursive over nested containers, and free of panics.
pub fn convert(ctx: ConversionContext, v: &SourceValue) -> (r: HostValue)
    requires
        ctx.valid(),
        dates_in_range(*v),
    ensures
        converts_to(ctx, *v, r),
    decreases *v,
{
    match v {
        SourceValue::Null => HostValue::Null,
        SourceValue::Boolean(b) => HostValue::Bool(*b),
        SourceValue::Int8(i) => HostValue::Int(*i as i64),
        SourceValue::Int16(i) => HostValue::Int(*i as i64),
        SourceValue::Int32(i) => HostValue::Int(*i as i64),
        SourceValue::Int64(i) => HostValue::Int(*i),
        SourceValue::UInt8(u) => HostValue::Int(*u as i64),
        SourceValue::UInt16(u) => HostValue::Int(*u as i64),
        SourceValue::UInt32(u) => HostValue::Int(*u as i64),
        SourceValue::UInt64(u) => {
            if *u <= i64::MAX as u64 {
                HostValue::Int(*u as i64)
            } else {
                HostValue::BigInt(integer_string(*u as i128))
            }
        },
        SourceValue::Float32 { bits } => HostValue::Float32 { bits: *bits },
        SourceValue::Float64 { bits } => HostValue::Float64 { bits: *bits },
        SourceValue::Decimal { unscaled, scale } => HostValue::Decimal(
            decimal_string(*unscaled, *scale),
        ),
        SourceValue::HugeInt(h) => HostValue::BigInt(integer_string(*h)),
        SourceValue::Text(t) => HostValue::Str(t.clone()),
        SourceValue::Blob(b) => HostValue::Bytes(b.clone()),
        SourceValue::Date32(days) => {
            let c = civil_from_epoch_days(*days).unwrap();
            HostValue::Date { year: c.0, month: c.1, day: c.2 }
        },
        SourceValue::Time64(unit, value) => HostValue::Instant {
            ticks: *value,
            ticks_per_second: unit.subdivisions(),
        },
        SourceValue::Timestamp(unit, value) => HostValue::Instant {
            ticks: *value,
            ticks_per_second: unit.subdivisions(),
        },
        SourceValue::Interval { months, days, nanos } => HostValue::Duration {
            seconds: interval_seconds(ctx, *months, *days, *nanos),
        },
        SourceValue::List(items) => HostValue::Array(convert_sequence(ctx, items)),
        SourceValue::Array(items) => HostValue::Array(convert_sequence(ctx, items)),
        SourceValue::Struct(fields) => HostValue::Hash {
            entries: convert_struct_fields(ctx, fields),
            indifferent: false,
        },
        SourceValue::Mapping(pairs) => HostValue::Hash {
            entries: convert_mapping_pairs(ctx, pairs),
            indifferent: false,
        },
        SourceValue::Enum(label) => HostValue::Symbol(label.clone()),
        SourceValue::Union(inner) => convert(ctx, inner),
    }
}

/// Converts the elements of a list or fixed-length array in order.
fn convert_sequence(ctx: ConversionContext, items: &Vec<SourceValue>) -> (out: Vec<HostValue>)
    requires
        ctx.valid(),
        forall|i: int| 0 <= i < items@.len() ==> dates_in_range(#[trigger] items@[i]),
    ensures
        out@.len() == items@.len(),
        forall|i: int| 0 <= i < items@.len() ==> converts_to(ctx, #[trigger] items@[i], out@[i]),
    decreases *items,
{
    let mut out: Vec<HostValue> = Vec::new();
    let mut i: usize = 0;
    while i < items.len()
        invariant
            ctx.valid(),
            forall|j: int| 0 <= j < items@.len() ==> dates_in_range(#[trigger] items@[j]),
            i <= items@.len(),
            out@.len() == i,
            forall|j: int| 0 <= j < i ==> converts_to(ctx, #[trigger] items@[j], out@[j]),
        decreases items@.len() - i,
    {
        proof {
            assert(decreases_to!(*items => items@[i as int]));
        }
        out.push(convert(ctx, &items[i]));
        i = i + 1;
    }
    out
}

/// Converts a struct's ordered fields: each name becomes a string key, each
/// value is converted, and the (possibly duplicate) names keep their order.
fn convert_struct_fields(ctx: ConversionContext, fields: &Vec<(String, SourceValue)>) -> (out: Vec<
    (HostValue, HostValue),
>)
    requires
        ctx.valid(),
        forall|i: int| 0 <= i < fields@.len() ==> dates_in_range((#[trigger] fields@[i]).1),
    ensures
        out@.len() == fields@.len(),
        forall|i: int|
            0 <= i < fields@.len() ==> ((#[trigger] out@[i]).0 matches HostValue::Str(k) && k@
                == fields@[i].0@),
        forall|i: int|
            0 <= i < fields@.len() ==> converts_to(ctx, (#[trigger] fields@[i]).1, out@[i].1),
    decreases *fields,
{
    let mut out: Vec<(HostValue, HostValue)> = Vec::new();
    let mut i: usize = 0;
    while i < fields.len()
        invariant
            ctx.valid(),
            forall|j: int| 0 <= j < fields@.len() ==> dates_in_range((#[trigger] fields@[j]).1),
            i <= fields@.len(),
            out@.len() == i,
            forall|j: int|
                0 <= j < i ==> ((#[trigger] out@[j]).0 matches HostValue::Str(k) && k@
                    == fields@[j].0@),
            forall|j: int|
                0 <= j < i ==> converts_to(ctx, (#[trigger] fields@[j]).1, out@[j].1),
        decreases fields@.len() - i,
    {
        proof {
            assert(decreases_to!(*fields => fields@[i as int]));
            assert(decreases_to!(fields@[i as int] => fields@[i as int].1));
        }
        let key = HostValue::Str(fields[i].0.clone());
        let val = convert(ctx, &fields[i].1);
        out.push((key, val));
        i = i + 1;
    }
    out
}

/// Converts a map's ordered pairs, converting both the key and the value;
/// keys are not restricted to strings.
fn convert_mapping_pairs(ctx: ConversionContext, pairs: &Vec<(SourceValue, SourceValue)>) -> (out:
    Vec<(HostValue, HostValue)>)
    requires
        ctx.valid(),
        forall|i: int|
            0 <= i < pairs@.len() ==> dates_in_range((#[trigger] pairs@[i]).0) && dates_in_range(
                pairs@[i].1,
            ),
    ensures
        out@.len() == pairs@.len(),
        forall|i: int|
            0 <= i < pairs@.len() ==> converts_to(ctx, (#[trigger] pairs@[i]).0, out@[i].0),
        forall|i: int|
            0 <= i < pairs@.len() ==> converts_to(ctx, (#[trigger] pairs@[i]).1, out@[i].1),
    decreases *pairs,
{
    let mut out: Vec<(HostValue, HostValue)> = Vec::new();
    let mut i: usize = 0;
    while i < pairs.len()
        invariant
            ctx.valid(),
            forall|j: int|
                0 <= j < pairs@.len() ==> dates_in_range((#[trigger] pairs@[j]).0)
                    && dates_in_range(pairs@[j].1),
            i <= pairs@.len(),
            out@.len() == i,
            forall|j: int|
                0 <= j < i ==> converts_to(ctx, (#[trigger] pairs@[j]).0, out@[j].0),
            forall|j: int|
                0 <= j < i ==> converts_to(ctx, (#[trigger] pairs@[j]).1, out@[j].1),
        decreases pairs@.len() - i,
    {
        proof {
            assert(decreases_to!(*pairs => pairs@[i as int]));
            assert(decreases_to!(pairs@[i as int] => pairs@[i as int].0));
            assert(decreases_to!(pairs@[i as int] => pairs@[i as int].1));
        }
        let key = convert(ctx, &pairs[i].0);
        let val = convert(ctx, &pairs[i].1);
        out.push((key, val));
        i = i + 1;
    }
    out
}

} // verus!
