//! The segment abstraction: one bit-field of a composed identifier, with a
//! declared width, an encode operation producing a raw value that fits that
//! width, and a decode operation mapping a raw value back to a domain value.

use vstd::prelude::*;
use crate::fields::{low_mask, seg_max, lemma_seg_max_fits};
use crate::Error;
use rand::Rng;

verus! {

/// One bit-field within a composed identifier.
///
/// An implementation fixes a width of 1 to 128 bits and a derived upper
/// bound, produces (`encode`) a fresh raw value fitting that width, and maps
/// (`decode`) a raw value back to its domain. The specification functions
/// describe, per implementation, which raw values an encode can yield, when
/// encoding can or must fail, and what decoding returns, so that a composer
/// holding arbitrary segments can be reasoned about exactly.
pub trait SpecSegment: Sized {
    /// The domain type that `decode` recovers from a raw field value.
    type Decoded;

    /// The declared bit width.
    spec fn spec_width(&self) -> u8;

    /// The segment's configuration is internally consistent; in particular
    /// the width lies in [1, 128].
    spec fn wf(&self) -> bool;

    /// Which raw values `encode` may produce.
    spec fn encode_ok(&self, raw: u128) -> bool;

    /// Whether `encode` may fail at all. A segment whose source cannot
    /// overflow its width never reports an error.
    spec fn encode_can_fail(&self) -> bool;

    /// Whether `encode` must fail: the configuration itself violates the
    /// declared width, whatever any outside source does.
    spec fn encode_must_fail(&self) -> bool;

    /// The raw values on which `decode` is defined (for which the decoded
    /// domain value is representable).
    spec fn decode_ok(&self, raw: u128) -> bool;

    /// The value `decode` returns for a raw field value.
    spec fn spec_decode(&self, raw: u128) -> Self::Decoded;

    /// Whether the decoded image of the largest raw value is representable,
    /// so that `upper_bound` can return it.
    spec fn spec_upper_bound_ok(&self) -> bool;

    /// The decoded image of the largest raw value the width allows.
    spec fn spec_upper_bound(&self) -> Self::Decoded;

    /// A well-formed segment's width lies in [1, 128].
    proof fn lemma_width(&self)
        requires
            self.wf(),
        ensures
            1 <= self.spec_width() <= 128,
    ;

    /// The declared bit width.
    fn size(&self) -> (r: u8)
        ensures
            r == self.spec_width(),
    ;

    /// The largest domain value this segment can represent: the decoded
    /// image of `2^width - 1`.
    fn upper_bound(&self) -> (r: Self::Decoded)
        requires
            self.wf(),
            self.spec_upper_bound_ok(),
        ensures
            r == self.spec_upper_bound(),
    ;

    /// Produce a raw value for this call, or report that the segment's
    /// source or configuration overflows the declared width. A raw value is
    /// always within the width's maximum; a segment that cannot fail
    /// succeeds; one whose configuration already violates the width fails.
    fn encode(&self) -> (r: Result<u128, Error>)
        requires
            self.wf(),
        ensures
            r matches Ok(v) ==> self.encode_ok(v) && v as int <= seg_max(
                self.spec_width() as int,
            ),
            self.encode_must_fail() ==> r is Err,
            r is Err ==> self.encode_can_fail(),
    ;

    /// Map a raw field value back to its domain value.
    fn decode(&self, encoded: u128) -> (r: Self::Decoded)
        requires
            self.wf(),
            self.decode_ok(encoded),
        ensures
            r == self.spec_decode(encoded),
    ;
}

/// A fixed bit-field: every identifier built from the layout carries the
/// configured value, e.g. a node or shard number baked into the layout.
pub struct ConstantSegment {
    /// The declared width in bits.
    pub size: u8,
    /// The configured value; `encode` rejects it if it exceeds the width's
    /// upper bound.
    pub value: u128,
}

impl ConstantSegment {
    /// A constant segment of `size` bits holding `value`.
    pub fn new(size: u8, value: u128) -> (r: Self)
        requires
            1 <= size <= 128,
        ensures
            r == (ConstantSegment { size, value }),
            r.wf(),
    {
        ConstantSegment { size, value }
    }
}

impl SpecSegment for ConstantSegment {
    type Decoded = u128;

    open spec fn spec_width(&self) -> u8 {
        self.size
    }

    open spec fn wf(&self) -> bool {
        1 <= self.size <= 128
    }

    /// A constant segment only ever encodes its configured value.
    open spec fn encode_ok(&self, raw: u128) -> bool {
        raw == self.value
    }

    open spec fn encode_can_fail(&self) -> bool {
        self.value as int > seg_max(self.size as int)
    }

    open spec fn encode_must_fail(&self) -> bool {
        self.value as int > seg_max(self.size as int)
    }

    open spec fn decode_ok(&self, raw: u128) -> bool {
        true
    }

    /// Decoding is the identity: the raw integer is itself the value.
    open spec fn spec_decode(&self, raw: u128) -> u128 {
        raw
    }

    open spec fn spec_upper_bound_ok(&self) -> bool {
        true
    }

    /// The true unsigned maximum of the width, `2^width - 1`; for the full
    /// 128-bit container this is `u128::MAX`.
    open spec fn spec_upper_bound(&self) -> u128 {
        seg_max(self.size as int) as u128
    }

    proof fn lemma_width(&self) {
    }

    fn size(&self) -> u8 {
        self.size
    }

    fn upper_bound(&self) -> (r: u128) {
        proof {
            lemma_seg_max_fits(self.size as int);
        }
        low_mask(self.size)
    }

    fn encode(&self) -> (r: Result<u128, Error>) {
        let ub = low_mask(self.size);
        if self.value <= ub {
            Ok(self.value)
        } else {
            Err(Error::OverflowError)
        }
    }

    fn decode(&self, encoded: u128) -> (r: u128) {
        encoded
    }
}

/// A random bit-field: each `encode` draws a fresh value uniformly from
/// `[0, 2^width - 1]`; it cannot fail.
pub struct RandomSegment {
    /// The declared width in bits.
    pub size: u8,
}

impl RandomSegment {
    /// A random segment of `size` bits.
    pub fn new(size: u8) -> (r: Self)
        requires
            1 <= size <= 128,
        ensures
            r == (RandomSegment { size }),
            r.wf(),
    {
        RandomSegment { size }
    }
}

impl SpecSegment for RandomSegment {
    type Decoded = u128;

    open spec fn spec_width(&self) -> u8 {
        self.size
    }

    open spec fn wf(&self) -> bool {
        1 <= self.size <= 128
    }

    /// Any value within the width's maximum may be drawn.
    open spec fn encode_ok(&self, raw: u128) -> bool {
        raw as int <= seg_max(self.size as int)
    }

    open spec fn encode_can_fail(&self) -> bool {
        false
    }

    open spec fn encode_must_fail(&self) -> bool {
        false
    }

    open spec fn decode_ok(&self, raw: u128) -> bool {
        true
    }

    /// Decoding is the identity: the raw integer is itself the value.
    open spec fn spec_decode(&self, raw: u128) -> u128 {
        raw
    }

    open spec fn spec_upper_bound_ok(&self) -> bool {
        true
    }

    /// The true unsigned maximum of the width, `2^width - 1`; for the full
    /// 128-bit container this is `u128::MAX`.
    open spec fn spec_upper_bound(&self) -> u128 {
        seg_max(self.size as int) as u128
    }

    proof fn lemma_width(&self) {
    }

    fn size(&self) -> u8 {
        self.size
    }

    fn upper_bound(&self) -> (r: u128) {
        proof {
            lemma_seg_max_fits(self.size as int);
        }
        low_mask(self.size)
    }

    fn encode(&self) -> (r: Result<u128, Error>) {
        let ub = low_mask(self.size);
        Ok(random_up_to(ub))
    }

    fn decode(&self, encoded: u128) -> (r: u128) {
        encoded
    }
}

/// Relies on rand::Rng::gen_range over the inclusive range `0..=max`, with
/// rand::thread_rng as the source: the sample is drawn uniformly from that
/// range, so it is at most `max`; the range is never empty, so the call does
/// not panic.
#[verifier::external_body]
fn random_up_to(max: u128) -> (r: u128)
    ensures
        r <= max,
{
    rand::thread_rng().gen_range(0..=max)
}

} // verus!
