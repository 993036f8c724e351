//! Time-derived segments: a granularity unit converting between nanosecond
//! counts and coarser ticks, and a segment encoding the whole ticks elapsed
//! since a configured epoch. Absolute instants are carried as nanoseconds
//! since the Unix epoch.

use vstd::prelude::*;
use vstd::arithmetic::div_mod::{lemma_div_is_ordered, lemma_div_nonincreasing, lemma_div_pos_is_pos};
use vstd::arithmetic::mul::{lemma_mul_inequality, lemma_mul_nonnegative};
use crate::fields::{low_mask, seg_max, lemma_seg_max_fits};
use crate::segment::SpecSegment;
use crate::Error;
use time::Date;

verus! {

/// Every instant handled by this library, as nanoseconds since the Unix
/// epoch, stays strictly within this bound: the `time` crate's dates and
/// datetimes are confined to the calendar years -9999 through 9999, less
/// than 320 000 000 000 000 000 000 nanoseconds away from 1970.
pub const INSTANT_NANOS_BOUND: i128 = 400_000_000_000_000_000_000;

/// The resolution at which a timestamp segment counts elapsed time.
#[derive(Debug, Clone, Copy, PartialEq, Eq)]
pub enum TimestampUnit {
    Seconds,
    Milliseconds,
    Microseconds,
    Nanoseconds,
}

/// Signed division truncating toward zero, the rounding that elapsed-time
/// conversion uses.
pub open spec fn div_trunc(a: int, d: int) -> int {
    if a >= 0 {
        a / d
    } else {
        -((-a) / d)
    }
}

impl TimestampUnit {
    /// How many nanoseconds one tick of this unit spans.
    pub open spec fn spec_nanos_per_tick(&self) -> int {
        match self {
            TimestampUnit::Seconds => 1_000_000_000,
            TimestampUnit::Milliseconds => 1_000_000,
            TimestampUnit::Microseconds => 1_000,
            TimestampUnit::Nanoseconds => 1,
        }
    }

    /// How many nanoseconds one tick of this unit spans.
    pub fn nanos_per_tick(&self) -> (r: i128)
        ensures
            r == self.spec_nanos_per_tick(),
            1 <= r <= 1_000_000_000,
    {
        match self {
            TimestampUnit::Seconds => 1_000_000_000,
            TimestampUnit::Milliseconds => 1_000_000,
            TimestampUnit::Microseconds => 1_000,
            TimestampUnit::Nanoseconds => 1,
        }
    }

    /// Convert a nanosecond count to whole ticks of this unit, truncating
    /// toward zero.
    pub fn from_nano(&self, nanos: i128) -> (r: i128)
        requires
            nanos != i128::MIN,
        ensures
            r == div_trunc(nanos as int, self.spec_nanos_per_tick()),
    {
        let d = self.nanos_per_tick();
        nanos / d
    }

    /// Convert a tick count of this unit to nanoseconds.
    pub fn to_nano(&self, value: i128) -> (r: i128)
        requires
            i128::MIN <= value as int * self.spec_nanos_per_tick() <= i128::MAX,
        ensures
            r == value as int * self.spec_nanos_per_tick(),
    {
        let d = self.nanos_per_tick();
        value * d
    }
}

/// A time-derived bit-field: the number of whole ticks of `unit` elapsed
/// between the `since_nanos` epoch and the moment `encode` is called.
pub struct TimestampSegment {
    /// The declared width in bits.
    pub size: u8,
    /// The granularity at which elapsed time is truncated to ticks.
    pub unit: TimestampUnit,
    /// The epoch origin, as nanoseconds since the Unix epoch.
    pub since_nanos: i128,
}

impl TimestampSegment {
    /// A timestamp segment measuring elapsed time from midnight UTC at the
    /// start of the day `since`.
    pub fn new_with_utc_midnight(size: u8, unit: TimestampUnit, since: Date) -> (r: Self)
        requires
            1 <= size <= 128,
        ensures
            r.size == size,
            r.unit == unit,
            r.wf(),
    {
        let since_nanos = date_utc_midnight_nanos(since);
        TimestampSegment { size, unit, since_nanos }
    }

    /// The instant, as nanoseconds since the Unix epoch, that lies `ticks`
    /// ticks of this segment's unit after its epoch.
    pub open spec fn spec_instant(&self, ticks: int) -> int {
        self.since_nanos + ticks * self.unit.spec_nanos_per_tick()
    }

    /// The tick count this segment encodes when the clock reads
    /// `now_nanos`: the whole elapsed ticks since the epoch.
    pub open spec fn spec_ticks(&self, now_nanos: i128) -> int {
        (now_nanos - self.since_nanos) / self.unit.spec_nanos_per_tick()
    }

    /// Encode against a given clock reading: the whole ticks elapsed since
    /// the epoch, if the reading is not before the epoch and the tick count
    /// fits the declared width; the overflow error otherwise.
    pub fn encode_at(&self, now_nanos: i128) -> (r: Result<u128, Error>)
        requires
            self.wf(),
            -INSTANT_NANOS_BOUND < now_nanos < INSTANT_NANOS_BOUND,
        ensures
            r is Ok <==> self.since_nanos <= now_nanos && self.spec_ticks(now_nanos) <= seg_max(
                self.size as int,
            ),
            r matches Ok(v) ==> v as int == self.spec_ticks(now_nanos),
    {
        if now_nanos < self.since_nanos {
            return Err(Error::OverflowError);
        }
        let elapsed = now_nanos - self.since_nanos;
        let ticks = self.unit.from_nano(elapsed);
        proof {
            let d = self.unit.spec_nanos_per_tick();
            lemma_div_pos_is_pos(elapsed as int, d);
            lemma_div_nonincreasing(elapsed as int, d);
            lemma_seg_max_fits(self.size as int);
        }
        let ub = low_mask(self.size);
        if (ticks as u128) <= ub {
            Ok(ticks as u128)
        } else {
            Err(Error::OverflowError)
        }
    }
}

impl SpecSegment for TimestampSegment {
    type Decoded = i128;

    open spec fn spec_width(&self) -> u8 {
        self.size
    }

    open spec fn wf(&self) -> bool {
        &&& 1 <= self.size <= 128
        &&& -INSTANT_NANOS_BOUND < self.since_nanos < INSTANT_NANOS_BOUND
    }

    /// The clock decides the exact tick count; every outcome fits the
    /// declared width.
    open spec fn encode_ok(&self, raw: u128) -> bool {
        raw as int <= seg_max(self.size as int)
    }

    /// Encoding fails whenever the elapsed duration overflows the width, so
    /// with an unfortunate clock it can always fail.
    open spec fn encode_can_fail(&self) -> bool {
        true
    }

    /// No configuration alone forces a failure; it depends on the clock.
    open spec fn encode_must_fail(&self) -> bool {
        false
    }

    /// Decoding is defined where the decoded instant is representable in
    /// nanoseconds: the tick count converted to nanoseconds, and the
    /// resulting instant, must both fit the signed 128-bit range.
    open spec fn decode_ok(&self, raw: u128) -> bool {
        &&& raw as int * self.unit.spec_nanos_per_tick() <= i128::MAX
        &&& self.since_nanos + raw as int * self.unit.spec_nanos_per_tick() <= i128::MAX
    }

    /// The absolute instant `raw` ticks after the epoch.
    open spec fn spec_decode(&self, raw: u128) -> i128 {
        self.spec_instant(raw as int) as i128
    }

    open spec fn spec_upper_bound_ok(&self) -> bool {
        self.decode_ok(seg_max(self.size as int) as u128)
    }

    /// The latest instant representable: the decoded image of the largest
    /// raw value the width allows.
    open spec fn spec_upper_bound(&self) -> i128 {
        self.spec_decode(seg_max(self.size as int) as u128)
    }

    proof fn lemma_width(&self) {
    }

    fn size(&self) -> u8 {
        self.size
    }

    fn upper_bound(&self) -> (r: i128) {
        proof {
            lemma_seg_max_fits(self.size as int);
        }
        let raw = low_mask(self.size);
        self.decode(raw)
    }

    fn encode(&self) -> (r: Result<u128, Error>) {
        let now = now_unix_nanos();
        self.encode_at(now)
    }

    fn decode(&self, encoded: u128) -> (r: i128) {
        proof {
            let npt = self.unit.spec_nanos_per_tick();
            lemma_mul_inequality(1, npt, encoded as int);
            lemma_mul_nonnegative(encoded as int, npt);
        }
        let ticks = encoded as i128;
        let offset = self.unit.to_nano(ticks);
        self.since_nanos + offset
    }
}

/// Relies on time::OffsetDateTime::now_utc and unix_timestamp_nanos: the
/// current wall-clock instant, as nanoseconds since the Unix epoch. Every
/// time::OffsetDateTime lies within the calendar years -9999 to 9999, so
/// the magnitude stays below the instant bound.
#[verifier::external_body]
fn now_unix_nanos() -> (r: i128)
    ensures
        -INSTANT_NANOS_BOUND < r < INSTANT_NANOS_BOUND,
{
    time::OffsetDateTime::now_utc().unix_timestamp_nanos()
}

/// Relies on time::Date::midnight, assume_utc and unix_timestamp_nanos: the
/// nanoseconds since the Unix epoch at midnight UTC of the given date.
/// Every time::Date lies within the calendar years -9999 to 9999, so the
/// magnitude stays below the instant bound.
#[verifier::external_body]
fn date_utc_midnight_nanos(since: Date) -> (r: i128)
    ensures
        -INSTANT_NANOS_BOUND < r < INSTANT_NANOS_BOUND,
{
    since.midnight().assume_utc().unix_timestamp_nanos()
}

#[verifier::external_type_specification]
#[verifier::external_body]
pub struct ExDate(Date);

/// Law: under a clock that never runs backwards, successive identifiers of
/// a timestamp segment decode to non-decreasing instants. If a first clock
/// reading is at most a second one, the first tick count is at most the
/// second, and the instant decoded from the first is at most the instant
/// decoded from the second.
pub proof fn lemma_timestamp_monotonic(seg: TimestampSegment, now1: i128, now2: i128)
    requires
        seg.wf(),
        seg.since_nanos <= now1 <= now2,
    ensures
        seg.spec_ticks(now1) <= seg.spec_ticks(now2),
        seg.spec_instant(seg.spec_ticks(now1)) <= seg.spec_instant(seg.spec_ticks(now2)),
{
    let d = seg.unit.spec_nanos_per_tick();
    lemma_div_is_ordered(now1 - seg.since_nanos, now2 - seg.since_nanos, d);
    lemma_mul_inequality(seg.spec_ticks(now1), seg.spec_ticks(now2), d);
}

} // verus!
