//! The laws of composition, stated over layouts of any number of segments:
//! an ordered list of widths (most significant first) and one raw value per
//! segment. `pack_fields` is the identifier such a layout generates and
//! `split_fields` the raw values decomposing recovers, in the same
//! `take_low` / `drop_low` vocabulary that the composers' contracts use.

use vstd::prelude::*;
use vstd::arithmetic::power2::{pow2, lemma_pow2_pos, lemma2_to64};
use vstd::arithmetic::div_mod::lemma_fundamental_div_mod_converse;
use crate::fields::{
    drop_low, lemma_pack_fits, lemma_seg_max_fits, lemma_seg_max_monotone, lemma_take_low_bound,
    seg_max, take_low,
};

verus! {

/// The total bit width of a layout.
pub open spec fn width_sum(widths: Seq<u8>) -> int
    decreases widths.len(),
{
    if widths.len() == 0 {
        0
    } else {
        width_sum(widths.drop_last()) + widths.last()
    }
}

/// Each raw value fits its segment's width.
pub open spec fn values_fit(vals: Seq<u128>, widths: Seq<u8>) -> bool {
    &&& vals.len() == widths.len()
    &&& forall|i: int|
        0 <= i < vals.len() ==> #[trigger] vals[i] as int <= seg_max(widths[i] as int)
}

/// The identifier that packs `vals` under `widths`, most significant first:
/// each raw value is shifted above the summed widths of all later segments.
pub open spec fn pack_fields(vals: Seq<u128>, widths: Seq<u8>) -> int
    decreases vals.len(),
{
    if vals.len() == 0 {
        0
    } else {
        pack_fields(vals.drop_last(), widths.drop_last()) * pow2(widths.last() as nat) as int
            + vals.last() as int
    }
}

/// The raw values recovered from an identifier under `widths`: the low bits
/// of the last segment first, then the bits above them, as `decompose`
/// extracts them.
pub open spec fn split_fields(v: u128, widths: Seq<u8>) -> Seq<u128>
    decreases widths.len(),
{
    if widths.len() == 0 {
        Seq::empty()
    } else {
        split_fields(drop_low(v, widths.last()), widths.drop_last()).push(
            take_low(v, widths.last()),
        )
    }
}

/// A layout's total width is never negative.
pub proof fn lemma_width_sum_nonneg(widths: Seq<u8>)
    ensures
        width_sum(widths) >= 0,
    decreases widths.len(),
{
    if widths.len() > 0 {
        lemma_width_sum_nonneg(widths.drop_last());
    }
}

/// Decomposing yields one raw value per segment.
pub proof fn lemma_split_fields_len(v: u128, widths: Seq<u8>)
    ensures
        split_fields(v, widths).len() == widths.len(),
    decreases widths.len(),
{
    if widths.len() > 0 {
        lemma_split_fields_len(drop_low(v, widths.last()), widths.drop_last());
    }
}

/// Law (width conservation): an identifier never needs more bits than the
/// sum of the declared segment widths.
pub proof fn lemma_width_conservation(vals: Seq<u128>, widths: Seq<u8>)
    requires
        values_fit(vals, widths),
    ensures
        0 <= pack_fields(vals, widths) <= seg_max(width_sum(widths)),
    decreases vals.len(),
{
    if vals.len() == 0 {
        lemma2_to64();
    } else {
        let vf = vals.drop_last();
        let wf = widths.drop_last();
        assert(values_fit(vf, wf)) by {
            assert forall|i: int| 0 <= i < vf.len() implies #[trigger] vf[i] as int <= seg_max(
                wf[i] as int,
            ) by {
                assert(vf[i] == vals[i]);
                assert(wf[i] == widths[i]);
            }
        }
        lemma_width_conservation(vf, wf);
        lemma_width_sum_nonneg(wf);
        lemma_pack_fits(
            pack_fields(vf, wf),
            vals.last() as int,
            width_sum(wf),
            widths.last() as int,
        );
    }
}

/// Law (round trip): decomposing a generated identifier recovers exactly
/// the raw values that were packed, for every layout that fits the 128-bit
/// container and all values in range.
pub proof fn lemma_round_trip(vals: Seq<u128>, widths: Seq<u8>)
    requires
        values_fit(vals, widths),
        width_sum(widths) <= 128,
    ensures
        split_fields(pack_fields(vals, widths) as u128, widths) == vals,
    decreases vals.len(),
{
    lemma_width_conservation(vals, widths);
    lemma_width_sum_nonneg(widths);
    lemma_seg_max_monotone(width_sum(widths), 128);
    lemma_seg_max_fits(128);
    if vals.len() == 0 {
        assert(split_fields(0u128, widths) =~= vals);
    } else {
        let vf = vals.drop_last();
        let wf = widths.drop_last();
        let wl = widths.last();
        assert(values_fit(vf, wf)) by {
            assert forall|i: int| 0 <= i < vf.len() implies #[trigger] vf[i] as int <= seg_max(
                wf[i] as int,
            ) by {
                assert(vf[i] == vals[i]);
                assert(wf[i] == widths[i]);
            }
        }
        lemma_width_conservation(vf, wf);
        let front = pack_fields(vf, wf);
        let p = pack_fields(vals, widths);
        lemma_pow2_pos(wl as nat);
        lemma_fundamental_div_mod_converse(
            p,
            pow2(wl as nat) as int,
            front,
            vals.last() as int,
        );
        assert(take_low(p as u128, wl) == vals.last());
        assert(drop_low(p as u128, wl) as int == front);
        lemma_round_trip(vf, wf);
        assert(split_fields(p as u128, widths) =~= vals);
    }
}

/// Law (per-segment bound): every raw value recovered from an identifier
/// lies within its own segment's upper bound.
pub proof fn lemma_field_bounds(v: u128, widths: Seq<u8>, i: int)
    requires
        0 <= i < widths.len(),
    ensures
        split_fields(v, widths)[i] as int <= seg_max(widths[i] as int),
    decreases widths.len(),
{
    let wl = widths.last();
    lemma_split_fields_len(drop_low(v, wl), widths.drop_last());
    if i == widths.len() - 1 {
        lemma_take_low_bound(v, wl);
    } else {
        lemma_field_bounds(drop_low(v, wl), widths.drop_last(), i);
        assert(widths.drop_last()[i] == widths[i]);
    }
}

} // verus!
