//! The composers: ordered identifier layouts of one to four segments, most
//! significant first. `generate` packs one freshly encoded raw value per
//! segment into a single 128-bit integer, failing fast if any segment
//! overflows; `decompose` recovers the per-segment values by masking and
//! shifting, least-significant segment first.

use vstd::prelude::*;
use crate::fields::{
    combine, drop_low, lemma_drop_low_bound, lemma_pack_fits, lemma_seg_max_monotone, seg_max,
    split_high, split_low, take_low,
};
use crate::segment::SpecSegment;
use crate::Error;

verus! {

/// A one-segment identifier layout: the identifier is the segment's raw
/// value itself.
pub struct Spec<S> {
    /// The single segment.
    pub segment: S,
}

impl<S: SpecSegment> Spec<S> {
    /// The layout is usable: its segment is well formed. A single segment
    /// never exceeds the 128-bit container.
    pub open spec fn wf(&self) -> bool {
        self.segment.wf()
    }

    /// Pack a fresh identifier: the segment's encoded raw value.
    pub fn generate(&self) -> (r: Result<u128, Error>)
        requires
            self.wf(),
        ensures
            r matches Ok(v) ==> self.segment.encode_ok(v) && v as int <= seg_max(
                self.segment.spec_width() as int,
            ),
            self.segment.encode_must_fail() ==> r is Err,
            r is Err ==> self.segment.encode_can_fail(),
    {
        self.segment.encode()
    }

    /// Recover the segment's decoded value from an identifier.
    pub fn decompose(&self, generated: u128) -> (r: Result<S::Decoded, Error>)
        requires
            self.wf(),
            self.segment.decode_ok(generated),
        ensures
            r is Ok,
            r matches Ok(d) ==> d == self.segment.spec_decode(generated),
    {
        Ok(self.segment.decode(generated))
    }
}

/// A two-segment identifier layout, most-significant segment first.
pub struct Spec2<S0, S1> {
    /// The segments, most significant first.
    pub segments: (S0, S1),
}

impl<S0: SpecSegment, S1: SpecSegment> Spec2<S0, S1> {
    /// The layout is usable: both segments are well formed and the summed
    /// widths fit the 128-bit container.
    pub open spec fn wf(&self) -> bool {
        &&& self.segments.0.wf()
        &&& self.segments.1.wf()
        &&& self.segments.0.spec_width() + self.segments.1.spec_width() <= 128
    }

    /// Pack a fresh identifier: segment 1's raw value in the low bits,
    /// segment 0's above them. Fails fast on the first segment overflow,
    /// producing no partial identifier.
    pub fn generate(&self) -> (r: Result<u128, Error>)
        requires
            self.wf(),
        ensures
            r matches Ok(v) ==> ({
                let w1 = self.segments.1.spec_width();
                &&& self.segments.0.encode_ok(drop_low(v, w1))
                &&& self.segments.1.encode_ok(take_low(v, w1))
                &&& v as int <= seg_max(
                    self.segments.0.spec_width() + self.segments.1.spec_width(),
                )
            }),
            (self.segments.0.encode_must_fail() || self.segments.1.encode_must_fail())
                ==> r is Err,
            r is Err ==> (self.segments.0.encode_can_fail() || self.segments.1.encode_can_fail()),
    {
        let low = self.segments.1.encode()?;
        let high = self.segments.0.encode()?;
        let w1 = self.segments.1.size();
        proof {
            self.segments.0.lemma_width();
            self.segments.1.lemma_width();
            let w0 = self.segments.0.spec_width() as int;
            lemma_seg_max_monotone(w0, 128 - w1 as int);
            lemma_pack_fits(high as int, low as int, w0, w1 as int);
        }
        Ok(combine(high, low, w1))
    }

    /// Recover both decoded values from an identifier: the low bits decode
    /// through segment 1, the bits above them through segment 0. A value
    /// that fits the summed widths yields per-segment raw values within
    /// each segment's upper bound.
    pub fn decompose(&self, generated: u128) -> (r: Result<(S0::Decoded, S1::Decoded), Error>)
        requires
            self.wf(),
            self.segments.0.decode_ok(drop_low(generated, self.segments.1.spec_width())),
            self.segments.1.decode_ok(take_low(generated, self.segments.1.spec_width())),
        ensures
            r is Ok,
            r matches Ok(t) ==> ({
                let w0 = self.segments.0.spec_width();
                let w1 = self.segments.1.spec_width();
                &&& t.0 == self.segments.0.spec_decode(drop_low(generated, w1))
                &&& t.1 == self.segments.1.spec_decode(take_low(generated, w1))
                &&& take_low(generated, w1) as int <= seg_max(w1 as int)
                &&& generated as int <= seg_max(w0 + w1) ==> drop_low(generated, w1) as int
                    <= seg_max(w0 as int)
            }),
    {
        let w1 = self.segments.1.size();
        proof {
            self.segments.0.lemma_width();
            self.segments.1.lemma_width();
            let w0 = self.segments.0.spec_width() as int;
            if generated as int <= seg_max(w0 + w1 as int) {
                lemma_drop_low_bound(generated, w1, w0 + w1 as int);
            }
        }
        let second_raw = split_low(generated, w1);
        let first_raw = split_high(generated, w1);
        let first = self.segments.0.decode(first_raw);
        let second = self.segments.1.decode(second_raw);
        Ok((first, second))
    }
}

/// A three-segment identifier layout, most-significant segment first.
pub struct Spec3<S0, S1, S2> {
    /// The segments, most significant first.
    pub segments: (S0, S1, S2),
}

impl<S0: SpecSegment, S1: SpecSegment, S2: SpecSegment> Spec3<S0, S1, S2> {
    /// The layout is usable: all segments are well formed and the summed
    /// widths fit the 128-bit container.
    pub open spec fn wf(&self) -> bool {
        &&& self.segments.0.wf()
        &&& self.segments.1.wf()
        &&& self.segments.2.wf()
        &&& self.segments.0.spec_width() + self.segments.1.spec_width()
            + self.segments.2.spec_width() <= 128
    }

    /// Pack a fresh identifier: segment 2's raw value in the low bits, then
    /// segment 1's, then segment 0's at the top. Fails fast on the first
    /// segment overflow, producing no partial identifier.
    pub fn generate(&self) -> (r: Result<u128, Error>)
        requires
            self.wf(),
        ensures
            r matches Ok(v) ==> ({
                let w1 = self.segments.1.spec_width();
                let w2 = self.segments.2.spec_width();
                &&& self.segments.0.encode_ok(drop_low(drop_low(v, w2), w1))
                &&& self.segments.1.encode_ok(take_low(drop_low(v, w2), w1))
                &&& self.segments.2.encode_ok(take_low(v, w2))
                &&& v as int <= seg_max(
                    self.segments.0.spec_width() + self.segments.1.spec_width()
                        + self.segments.2.spec_width(),
                )
            }),
            (self.segments.0.encode_must_fail() || self.segments.1.encode_must_fail()
                || self.segments.2.encode_must_fail()) ==> r is Err,
            r is Err ==> (self.segments.0.encode_can_fail() || self.segments.1.encode_can_fail()
                || self.segments.2.encode_can_fail()),
    {
        let v2 = self.segments.2.encode()?;
        let v1 = self.segments.1.encode()?;
        let v0 = self.segments.0.encode()?;
        let w1 = self.segments.1.size();
        let w2 = self.segments.2.size();
        proof {
            self.segments.0.lemma_width();
            self.segments.1.lemma_width();
            self.segments.2.lemma_width();
            let w0 = self.segments.0.spec_width() as int;
            lemma_seg_max_monotone(w0, 128 - w1 as int);
            lemma_pack_fits(v0 as int, v1 as int, w0, w1 as int);
            lemma_seg_max_monotone(w0 + w1 as int, 128 - w2 as int);
        }
        let inner = combine(v0, v1, w1);
        proof {
            lemma_pack_fits(inner as int, v2 as int,
                self.segments.0.spec_width() + self.segments.1.spec_width(), w2 as int);
        }
        Ok(combine(inner, v2, w2))
    }

    /// Recover the three decoded values from an identifier, low bits
    /// through segment 2 first, mirroring `generate`.
    pub fn decompose(&self, generated: u128) -> (r: Result<
        (S0::Decoded, S1::Decoded, S2::Decoded),
        Error,
    >)
        requires
            self.wf(),
            self.segments.0.decode_ok(
                drop_low(drop_low(generated, self.segments.2.spec_width()),
                    self.segments.1.spec_width()),
            ),
            self.segments.1.decode_ok(
                take_low(drop_low(generated, self.segments.2.spec_width()),
                    self.segments.1.spec_width()),
            ),
            self.segments.2.decode_ok(take_low(generated, self.segments.2.spec_width())),
        ensures
            r is Ok,
            r matches Ok(t) ==> ({
                let w0 = self.segments.0.spec_width();
                let w1 = self.segments.1.spec_width();
                let w2 = self.segments.2.spec_width();
                &&& t.0 == self.segments.0.spec_decode(drop_low(drop_low(generated, w2), w1))
                &&& t.1 == self.segments.1.spec_decode(take_low(drop_low(generated, w2), w1))
                &&& t.2 == self.segments.2.spec_decode(take_low(generated, w2))
                &&& take_low(drop_low(generated, w2), w1) as int <= seg_max(w1 as int)
                &&& take_low(generated, w2) as int <= seg_max(w2 as int)
                &&& generated as int <= seg_max(w0 + w1 + w2) ==> drop_low(
                    drop_low(generated, w2),
                    w1,
                ) as int <= seg_max(w0 as int)
            }),
    {
        let w1 = self.segments.1.size();
        let w2 = self.segments.2.size();
        proof {
            self.segments.0.lemma_width();
            self.segments.1.lemma_width();
            self.segments.2.lemma_width();
        }
        let third_raw = split_low(generated, w2);
        let rest = split_high(generated, w2);
        proof {
            let w0 = self.segments.0.spec_width() as int;
            if generated as int <= seg_max(w0 + w1 as int + w2 as int) {
                lemma_drop_low_bound(generated, w2, w0 + w1 as int + w2 as int);
                lemma_drop_low_bound(rest, w1, w0 + w1 as int);
            }
        }
        let second_raw = split_low(rest, w1);
        let first_raw = split_high(rest, w1);
        let first = self.segments.0.decode(first_raw);
        let second = self.segments.1.decode(second_raw);
        let third = self.segments.2.decode(third_raw);
        Ok((first, second, third))
    }
}

/// A four-segment identifier layout, most-significant segment first.
pub struct Spec4<S0, S1, S2, S3> {
    /// The segments, most significant first.
    pub segments: (S0, S1, S2, S3),
}

impl<S0: SpecSegment, S1: SpecSegment, S2: SpecSegment, S3: SpecSegment> Spec4<S0, S1, S2, S3> {
    /// The layout is usable: all segments are well formed and the summed
    /// widths fit the 128-bit container.
    pub open spec fn wf(&self) -> bool {
        &&& self.segments.0.wf()
        &&& self.segments.1.wf()
        &&& self.segments.2.wf()
        &&& self.segments.3.wf()
        &&& self.segments.0.spec_width() + self.segments.1.spec_width()
            + self.segments.2.spec_width() + self.segments.3.spec_width() <= 128
    }

    /// Pack a fresh identifier: segment 3's raw value in the low bits, then
    /// segment 2's, segment 1's, and segment 0's at the top. Fails fast on
    /// the first segment overflow, producing no partial identifier.
    pub fn generate(&self) -> (r: Result<u128, Error>)
        requires
            self.wf(),
        ensures
            r matches Ok(v) ==> ({
                let w1 = self.segments.1.spec_width();
                let w2 = self.segments.2.spec_width();
                let w3 = self.segments.3.spec_width();
                &&& self.segments.0.encode_ok(
                    drop_low(drop_low(drop_low(v, w3), w2), w1),
                )
                &&& self.segments.1.encode_ok(
                    take_low(drop_low(drop_low(v, w3), w2), w1),
                )
                &&& self.segments.2.encode_ok(take_low(drop_low(v, w3), w2))
                &&& self.segments.3.encode_ok(take_low(v, w3))
                &&& v as int <= seg_max(
                    self.segments.0.spec_width() + self.segments.1.spec_width()
                        + self.segments.2.spec_width() + self.segments.3.spec_width(),
                )
            }),
            (self.segments.0.encode_must_fail() || self.segments.1.encode_must_fail()
                || self.segments.2.encode_must_fail() || self.segments.3.encode_must_fail())
                ==> r is Err,
            r is Err ==> (self.segments.0.encode_can_fail() || self.segments.1.encode_can_fail()
                || self.segments.2.encode_can_fail() || self.segments.3.encode_can_fail()),
    {
        let v3 = self.segments.3.encode()?;
        let v2 = self.segments.2.encode()?;
        let v1 = self.segments.1.encode()?;
        let v0 = self.segments.0.encode()?;
        let w1 = self.segments.1.size();
        let w2 = self.segments.2.size();
        let w3 = self.segments.3.size();
        proof {
            self.segments.0.lemma_width();
            self.segments.1.lemma_width();
            self.segments.2.lemma_width();
            self.segments.3.lemma_width();
            let w0 = self.segments.0.spec_width() as int;
            lemma_seg_max_monotone(w0, 128 - w1 as int);
            lemma_pack_fits(v0 as int, v1 as int, w0, w1 as int);
            lemma_seg_max_monotone(w0 + w1 as int, 128 - w2 as int);
        }
        let a = combine(v0, v1, w1);
        proof {
            lemma_pack_fits(a as int, v2 as int,
                self.segments.0.spec_width() + self.segments.1.spec_width(), w2 as int);
            lemma_seg_max_monotone(
                self.segments.0.spec_width() + self.segments.1.spec_width()
                    + self.segments.2.spec_width(),
                128 - w3 as int,
            );
        }
        let b = combine(a, v2, w2);
        proof {
            lemma_pack_fits(b as int, v3 as int,
                self.segments.0.spec_width() + self.segments.1.spec_width()
                    + self.segments.2.spec_width(), w3 as int);
        }
        Ok(combine(b, v3, w3))
    }

    /// Recover the four decoded values from an identifier, low bits through
    /// segment 3 first, mirroring `generate`.
    pub fn decompose(&self, generated: u128) -> (r: Result<
        (S0::Decoded, S1::Decoded, S2::Decoded, S3::Decoded),
        Error,
    >)
        requires
            self.wf(),
            self.segments.0.decode_ok(
                drop_low(drop_low(drop_low(generated, self.segments.3.spec_width()),
                    self.segments.2.spec_width()), self.segments.1.spec_width()),
            ),
            self.segments.1.decode_ok(
                take_low(drop_low(drop_low(generated, self.segments.3.spec_width()),
                    self.segments.2.spec_width()), self.segments.1.spec_width()),
            ),
            self.segments.2.decode_ok(
                take_low(drop_low(generated, self.segments.3.spec_width()),
                    self.segments.2.spec_width()),
            ),
            self.segments.3.decode_ok(take_low(generated, self.segments.3.spec_width())),
        ensures
            r is Ok,
            r matches Ok(t) ==> ({
                let w0 = self.segments.0.spec_width();
                let w1 = self.segments.1.spec_width();
                let w2 = self.segments.2.spec_width();
                let w3 = self.segments.3.spec_width();
                &&& t.0 == self.segments.0.spec_decode(
                    drop_low(drop_low(drop_low(generated, w3), w2), w1),
                )
                &&& t.1 == self.segments.1.spec_decode(
                    take_low(drop_low(drop_low(generated, w3), w2), w1),
                )
                &&& t.2 == self.segments.2.spec_decode(take_low(drop_low(generated, w3), w2))
                &&& t.3 == self.segments.3.spec_decode(take_low(generated, w3))
                &&& take_low(drop_low(drop_low(generated, w3), w2), w1) as int <= seg_max(
                    w1 as int,
                )
                &&& take_low(drop_low(generated, w3), w2) as int <= seg_max(w2 as int)
                &&& take_low(generated, w3) as int <= seg_max(w3 as int)
                &&& generated as int <= seg_max(w0 + w1 + w2 + w3) ==> drop_low(
                    drop_low(drop_low(generated, w3), w2),
                    w1,
                ) as int <= seg_max(w0 as int)
            }),
    {
        let w1 = self.segments.1.size();
        let w2 = self.segments.2.size();
        let w3 = self.segments.3.size();
        proof {
            self.segments.0.lemma_width();
            self.segments.1.lemma_width();
            self.segments.2.lemma_width();
            self.segments.3.lemma_width();
        }
        let fourth_raw = split_low(generated, w3);
        let rest2 = split_high(generated, w3);
        let third_raw = split_low(rest2, w2);
        let rest1 = split_high(rest2, w2);
        proof {
            let w0 = self.segments.0.spec_width() as int;
            let total = w0 + w1 as int + w2 as int + w3 as int;
            if generated as int <= seg_max(total) {
                lemma_drop_low_bound(generated, w3, total);
                lemma_drop_low_bound(rest2, w2, w0 + w1 as int + w2 as int);
                lemma_drop_low_bound(rest1, w1, w0 + w1 as int);
            }
        }
        let second_raw = split_low(rest1, w1);
        let first_raw = split_high(rest1, w1);
        let first = self.segments.0.decode(first_raw);
        let second = self.segments.1.decode(second_raw);
        let third = self.segments.2.decode(third_raw);
        let fourth = self.segments.3.decode(fourth_raw);
        Ok((first, second, third, fourth))
    }
}

} // verus!
