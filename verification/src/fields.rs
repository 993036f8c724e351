//! The packing arithmetic shared by every composition: positional bit-field
//! layout expressed as multiplication, division and remainder by powers of
//! two, together with the facts that make `decompose` the inverse of
//! `generate`.

use vstd::prelude::*;
use vstd::arithmetic::power2::{
    pow2, lemma_pow2_adds, lemma_pow2_pos, lemma_pow2_strictly_increases, lemma_pow2_unfold,
    lemma2_to64,
};
use vstd::arithmetic::div_mod::{
    lemma_div_is_ordered, lemma_div_nonincreasing, lemma_div_pos_is_pos,
    lemma_fundamental_div_mod_converse, lemma_mod_division_less_than_divisor, lemma_small_mod,
};
use vstd::arithmetic::mul::{
    lemma_mul_inequality, lemma_mul_is_distributive_sub_other_way, lemma_mul_nonnegative,
};

verus! {

/// The largest raw value a field of `w` bits can hold: `2^w - 1`.
pub open spec fn seg_max(w: int) -> int {
    pow2(w as nat) - 1
}

/// The low `w` bits of `v`, read as a value.
pub open spec fn take_low(v: u128, w: u8) -> u128 {
    (v as int % pow2(w as nat) as int) as u128
}

/// `v` with its low `w` bits removed: the bits at position `w` and above.
pub open spec fn drop_low(v: u128, w: u8) -> u128 {
    (v as int / pow2(w as nat) as int) as u128
}

/// `2^128` written out, for bounds on the 128-bit container.
pub proof fn lemma_pow2_128()
    ensures
        pow2(128) == 0x1_0000_0000_0000_0000_0000_0000_0000_0000,
{
    lemma2_to64();
    lemma_pow2_adds(64, 64);
}

/// A field maximum fits the 128-bit container whenever its width does.
pub proof fn lemma_seg_max_fits(w: int)
    requires
        0 <= w <= 128,
    ensures
        0 <= seg_max(w) <= u128::MAX,
{
    lemma_pow2_128();
    lemma_pow2_pos(w as nat);
    if w < 128 {
        lemma_pow2_strictly_increases(w as nat, 128);
    }
}

/// A wider field admits at least the values of a narrower one.
pub proof fn lemma_seg_max_monotone(a: int, b: int)
    requires
        0 <= a <= b,
    ensures
        seg_max(a) <= seg_max(b),
{
    if a < b {
        lemma_pow2_strictly_increases(a as nat, b as nat);
    }
}

/// `take_low` is the remainder by `2^w`, and lies within the field maximum.
pub proof fn lemma_take_low_bound(v: u128, w: u8)
    ensures
        take_low(v, w) as int == v as int % pow2(w as nat) as int,
        0 <= take_low(v, w) as int <= seg_max(w as int),
{
    let p = pow2(w as nat) as int;
    lemma_pow2_pos(w as nat);
    lemma_mod_division_less_than_divisor(v as int, p);
    if (v as int) < p {
        lemma_small_mod(v as nat, pow2(w as nat));
    }
}

/// `drop_low` is the quotient by `2^w`, and never exceeds the value itself.
pub proof fn lemma_drop_low_div(v: u128, w: u8)
    ensures
        drop_low(v, w) as int == v as int / pow2(w as nat) as int,
        0 <= drop_low(v, w) <= v,
{
    lemma_pow2_pos(w as nat);
    lemma_div_pos_is_pos(v as int, pow2(w as nat) as int);
    lemma_div_nonincreasing(v as int, pow2(w as nat) as int);
}

/// Two stacked fields fit the width that is the sum of their widths.
pub proof fn lemma_pack_fits(hi: int, lo: int, hw: int, lw: int)
    requires
        0 <= hw,
        0 <= lw,
        0 <= hi <= seg_max(hw),
        0 <= lo <= seg_max(lw),
    ensures
        0 <= hi * pow2(lw as nat) + lo <= seg_max(hw + lw),
{
    let p = pow2(lw as nat) as int;
    lemma_pow2_pos(lw as nat);
    lemma_pow2_pos(hw as nat);
    lemma_mul_nonnegative(hi, p);
    lemma_mul_inequality(hi, seg_max(hw), p);
    lemma_mul_is_distributive_sub_other_way(p, pow2(hw as nat) as int, 1);
    lemma_pow2_adds(hw as nat, lw as nat);
}

/// Removing the low `w` bits of a value that fits `t` bits leaves a value
/// that fits `t - w` bits.
pub proof fn lemma_drop_low_bound(v: u128, w: u8, t: int)
    requires
        w as int <= t <= 128,
        v as int <= seg_max(t),
    ensures
        drop_low(v, w) as int <= seg_max(t - w as int),
{
    let d = pow2(w as nat) as int;
    let q = pow2((t - w as int) as nat) as int;
    lemma_pow2_pos(w as nat);
    lemma_pow2_pos((t - w as int) as nat);
    lemma_pow2_adds((t - w as int) as nat, w as nat);
    lemma_div_is_ordered(v as int, seg_max(t), d);
    // seg_max(t) == (q - 1) * d + (d - 1), so its quotient by d is q - 1.
    lemma_mul_is_distributive_sub_other_way(d, q, 1);
    lemma_fundamental_div_mod_converse(seg_max(t), d, q - 1, d - 1);
    lemma_drop_low_div(v, w);
}

/// The mask of the low `w` bits: `2^w - 1`, representable for any `w` up to
/// the container's full 128 bits.
pub fn low_mask(w: u8) -> (r: u128)
    requires
        w <= 128,
    ensures
        r as int == seg_max(w as int),
{
    let mut i: u8 = 0;
    let mut m: u128 = 0;
    proof {
        lemma_pow2_128();
        lemma2_to64();
    }
    while i < w
        invariant
            i <= w <= 128,
            m as int == seg_max(i as int),
            pow2(128) == 0x1_0000_0000_0000_0000_0000_0000_0000_0000,
        decreases w - i,
    {
        proof {
            lemma_pow2_unfold((i + 1) as nat);
            if i + 1 < 128 {
                lemma_pow2_strictly_increases((i + 1) as nat, 128);
            }
        }
        m = 2 * m + 1;
        i = i + 1;
    }
    m
}

/// `2^w` as a container value; defined for widths short of the full
/// container, where the power itself still fits.
pub fn pow2_u128(w: u8) -> (r: u128)
    requires
        w < 128,
    ensures
        r as int == pow2(w as nat),
        r >= 1,
{
    proof {
        lemma_pow2_128();
        lemma_pow2_strictly_increases(w as nat, 128);
        lemma_pow2_pos(w as nat);
    }
    low_mask(w) + 1
}

/// Pack `hi` into the bits at position `w` and above, and `lo` into the low
/// `w` bits. `drop_low` and `take_low` read the two fields back.
pub(crate) fn combine(hi: u128, lo: u128, w: u8) -> (r: u128)
    requires
        w < 128,
        lo as int <= seg_max(w as int),
        hi as int <= seg_max(128 - w as int),
    ensures
        r as int == hi as int * pow2(w as nat) + lo as int,
        drop_low(r, w) == hi,
        take_low(r, w) == lo,
{
    let m = pow2_u128(w);
    proof {
        lemma_pack_fits(hi as int, lo as int, 128 - w as int, w as int);
        lemma_seg_max_fits(128);
        lemma_fundamental_div_mod_converse(
            hi as int * pow2(w as nat) + lo as int,
            pow2(w as nat) as int,
            hi as int,
            lo as int,
        );
    }
    hi * m + lo
}

/// Extract the low `w` bits of `v`.
pub(crate) fn split_low(v: u128, w: u8) -> (r: u128)
    requires
        w < 128,
    ensures
        r == take_low(v, w),
        r as int <= seg_max(w as int),
{
    let m = pow2_u128(w);
    proof {
        lemma_take_low_bound(v, w);
    }
    v % m
}

/// Discard the low `w` bits of `v`, keeping the bits above them.
pub(crate) fn split_high(v: u128, w: u8) -> (r: u128)
    requires
        w < 128,
    ensures
        r == drop_low(v, w),
{
    let m = pow2_u128(w);
    proof {
        lemma_drop_low_div(v, w);
    }
    v / m
}

} // verus!
