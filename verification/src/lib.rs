//! Composition of fixed-width integer identifiers out of ordered bit-field
//! segments (timestamp-derived, random, or constant), in the style of
//! Snowflake identifiers: `generate` packs one raw value per segment into a
//! single 128-bit integer, and `decompose` recovers the per-segment values.
//!
//! Segment widths span 1 to 128 bits, and a segment's upper bound is always
//! the true unsigned maximum of its width, `2^width - 1`: at the full
//! container width that is `u128::MAX`, not a signed maximum.

use vstd::prelude::*;

pub mod composer;
pub mod fields;
pub mod laws;
pub mod segment;
pub mod timestamp;

pub use composer::{Spec, Spec2, Spec3, Spec4};
pub use segment::{ConstantSegment, RandomSegment, SpecSegment};
pub use timestamp::{TimestampSegment, TimestampUnit};

verus! {

/// The single failure kind of this library: a value does not fit within the
/// bits reserved for it (a constant larger than its segment's upper bound, or
/// an elapsed duration too long for a timestamp segment's width).
#[derive(Debug, PartialEq, Eq)]
pub enum Error {
    OverflowError,
}

} // verus!
