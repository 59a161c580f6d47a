//! Two integer weights that blend the stride model with the context-map
//! model, and the rule that moves them after every coded nibble.

use vstd::prelude::*;

verus! {

use crate::bits::{
    bit_length, lemma_bit_length_above, lemma_bit_length_at_most, lemma_bit_length_bounds,
    lemma_bit_length_monotone, lemma_i32_shifts, lemma_i32_shr_is_div, lemma_i64_shifts,
    lemma_i64_shr_is_div, lemma_i64_shr_is_floor, lemma_u32_bit_length, lemma_u64_bit_length,
};
use crate::constants::{BLEND_FIXED_POINT_PRECISION, LOG2_SCALE};
use crate::probability::numeric::{fast_divide_16bit_by_8bit, lemma_divisor8_of, lookup_divisor8};
use vstd::arithmetic::power2::{lemma2_to64, lemma_pow2_adds, lemma_pow2_pos, pow2};

/// A frequency on the scale of `1 << LOG2_SCALE`.
pub type Prob = i16;

/// Weights are kept below `2^MAX_WEIGHT_LOG`.
pub const MAX_WEIGHT_LOG: u32 = 24;

/// The larger of two integers.
pub open spec fn max_int(a: int, b: int) -> int {
    if a >= b {
        a
    } else {
        b
    }
}

/// Number of bits by which both weights are shifted down so that the
/// larger one fits in `MAX_WEIGHT_LOG` bits.
pub open spec fn weight_shift(w0: int, w1: int) -> nat {
    let ilog = bit_length(max_int(w0, w1) as nat);
    if ilog >= 24 {
        (ilog - 24) as nat
    } else {
        0
    }
}

/// A weight after normalization next to its partner.
pub open spec fn normalized_weight(w: int, w0: int, w1: int) -> int {
    w / (pow2(weight_shift(w0, w1)) as int)
}

/// After the shift both weights are below `2^24`.
pub proof fn lemma_normalized_weight_bound(w: int, w0: int, w1: int)
    requires
        0 <= w0,
        0 <= w1,
        w == w0 || w == w1,
    ensures
        0 <= normalized_weight(w, w0, w1) < 0x100_0000,
        normalized_weight(w, w0, w1) <= w,
{
    let m = max_int(w0, w1);
    let k = weight_shift(w0, w1);
    let p = pow2(k) as int;
    lemma_pow2_pos(k);
    lemma_bit_length_bounds(m as nat);
    lemma2_to64();
    if bit_length(m as nat) >= 24 {
        lemma_pow2_adds(k, 24);
        assert(m < p * 0x100_0000);
    } else {
        vstd::arithmetic::power2::lemma_pow2_strictly_increases(bit_length(m as nat), 24);
    }
    assert(0 <= w < p * 0x100_0000);
    vstd::arithmetic::div_mod::lemma_div_pos_is_pos(w, p);
    vstd::arithmetic::div_mod::lemma_div_nonincreasing(w, p);
    assert(w / p < 0x100_0000) by (nonlinear_arith)
        requires
            0 <= w < p * 0x100_0000,
            p > 0,
    ;
}

/// Shifts both weights down by the same amount until the larger one fits in
/// 24 bits.
pub fn fix_weights(weights: &mut [i32; 2])
    requires
        old(weights)[0] >= 0,
        old(weights)[1] >= 0,
    ensures
        final(weights)[0] == normalized_weight(old(weights)[0] as int, old(weights)[0] as int, old(weights)[1] as int),
        final(weights)[1] == normalized_weight(old(weights)[1] as int, old(weights)[0] as int, old(weights)[1] as int),
{
    let w0 = weights[0];
    let w1 = weights[1];
    let lz0 = (w0 as u32).leading_zeros();
    let lz1 = (w1 as u32).leading_zeros();
    proof {
        lemma_u32_bit_length(w0 as u32);
        lemma_u32_bit_length(w1 as u32);
        lemma_bit_length_monotone(w0 as nat, max_int(w0 as int, w1 as int) as nat);
        lemma_bit_length_monotone(w1 as nat, max_int(w0 as int, w1 as int) as nat);
        lemma_bit_length_bounds(w0 as nat);
        lemma_bit_length_bounds(w1 as nat);
        lemma2_to64();
        if bit_length(max_int(w0 as int, w1 as int) as nat) >= 32 {
            vstd::arithmetic::power2::lemma_pow2_strictly_increases(31, bit_length(max_int(w0 as int, w1 as int) as nat));
        }
    }
    let ilog: u32 = 32 - (if lz0 < lz1 { lz0 } else { lz1 });
    let max_log: u32 = MAX_WEIGHT_LOG;
    if ilog >= max_log {
        proof {
            lemma_i32_shr_is_div(w0, (ilog - max_log) as u8);
            lemma_i32_shr_is_div(w1, (ilog - max_log) as u8);
        }
        let n0 = w0 >> (ilog - max_log);
        let n1 = w1 >> (ilog - max_log);
        *weights = [n0, n1];
        assert(weights[0] == n0 && weights[1] == n1);
    } else {
        assert(w0 as int / pow2(0) as int == w0 && w1 as int / pow2(0) as int == w1);
    }
}

/// The test that `normalize_weights` makes on the bits of both weights.
proof fn lemma_weight_mask(w0: i32, w1: i32)
    by (bit_vector)
    ensures
        0 <= w0 && 0 <= w1 ==> (((w0 | w1) & 0x7f00_0000i32) != 0 <==> (w0 >= 0x100_0000i32 || w1
            >= 0x100_0000i32)),
{
}

/// Brings both weights below `2^24` by one common shift, which keeps their
/// ratio up to rounding. Weights that are already that small stay as they
/// are.
pub fn normalize_weights(weights: &mut [i32; 2])
    requires
        old(weights)[0] >= 0,
        old(weights)[1] >= 0,
    ensures
        final(weights)[0] == normalized_weight(old(weights)[0] as int, old(weights)[0] as int, old(weights)[1] as int),
        final(weights)[1] == normalized_weight(old(weights)[1] as int, old(weights)[0] as int, old(weights)[1] as int),
        0 <= final(weights)[0] < 0x100_0000,
        0 <= final(weights)[1] < 0x100_0000,
        final(weights)[0] <= old(weights)[0],
        final(weights)[1] <= old(weights)[1],
{
    proof {
        lemma_weight_mask(weights[0], weights[1]);
        lemma_normalized_weight_bound(weights[0] as int, weights[0] as int, weights[1] as int);
        lemma_normalized_weight_bound(weights[1] as int, weights[0] as int, weights[1] as int);
    }
    if ((weights[0] | weights[1]) & 0x7f000000) != 0 {
        fix_weights(weights);
    } else {
        proof {
            lemma2_to64();
            lemma_bit_length_at_most(max_int(weights[0] as int, weights[1] as int) as nat, 24);
            assert(weights[0] as int / pow2(0) as int == weights[0] && weights[1] as int / pow2(0) as int
                == weights[1]);
        }
    }
}

/// Bit length of `item`, whose sign bit counts as its 64th digit.
pub fn ilog2(item: i64) -> (r: u32)
    ensures
        item >= 0 ==> r == bit_length(item as nat),
        item < 0 ==> r == 64,
        r <= 64,
{
    let bits = #[verifier::truncate] (item as u64);
    proof {
        lemma_i64_shifts(item, 0);
        lemma_u64_bit_length(bits);
        if item < 0 {
            lemma2_to64();
            vstd::arithmetic::power2::lemma2_to64_rest();
            lemma_bit_length_above(bits as nat, 63);
        }
    }
    64 - bits.leading_zeros()
}

/// How far one coded nibble moves a weight: `prob` is the frequency that
/// the weight's own model gave the nibble and `weighted_prob` the frequency
/// it was coded with. The move is the product of the residual
/// `S - weighted_prob` and the efficacy `S * (prob - weighted_prob)`,
/// divided by the power of two just above `weighted_prob * (S -
/// weighted_prob)` and rounded down, with `S = 2^15`.
pub open spec fn weight_adjustment(prob: int, weighted_prob: int) -> int {
    let err = 0x8000 - weighted_prob;
    let eff = 0x8000 * prob - weighted_prob * 0x8000;
    (err * eff) / (pow2(bit_length((weighted_prob * (0x8000 - weighted_prob)) as nat)) as int)
}

/// The weight after one coded nibble: moved by `weight_adjustment`, cut to
/// 32 bits and held at zero from below.
pub open spec fn new_weight(w: i32, prob: Prob, weighted_prob: Prob) -> i32 {
    let moved = (w + weight_adjustment(prob as int, weighted_prob as int)) as i32;
    if moved > 0 {
        moved
    } else {
        0
    }
}

/// Bounds of the parts of `weight_adjustment` for any two 16-bit inputs of
/// which the second is not negative.
pub proof fn lemma_weight_adjustment_bounds(prob: int, weighted_prob: int)
    requires
        -0x8000 <= prob < 0x8000,
        0 <= weighted_prob < 0x8000,
    ensures
        0 <= weighted_prob * (0x8000 - weighted_prob) < 0x4000_0000,
        bit_length((weighted_prob * (0x8000 - weighted_prob)) as nat) <= 30,
        -0x8000_0000_0000 <= (0x8000 - weighted_prob) * (0x8000 * prob - weighted_prob * 0x8000)
            < 0x8000_0000_0000,
{
    let hit = weighted_prob;
    let miss = 0x8000 - weighted_prob;
    assert(0 <= hit * miss < 0x4000_0000) by (nonlinear_arith)
        requires
            0 <= hit < 0x8000,
            0 < miss <= 0x8000,
    ;
    lemma2_to64();
    lemma_bit_length_at_most((hit * miss) as nat, 30);
    let eff = 0x8000 * prob - weighted_prob * 0x8000;
    assert(-0x8000_0000_0000 <= miss * eff < 0x8000_0000_0000) by (nonlinear_arith)
        requires
            0 < miss <= 0x8000,
            -0x8000_0000 <= eff < 0x8000_0000,
    ;
}

/// Where the inputs are frequencies of a coded nibble and the weight is
/// normalized, the moved weight fits in 32 bits and nothing is cut.
pub proof fn lemma_new_weight_exact(w: i32, prob: Prob, weighted_prob: Prob)
    requires
        0 <= w < 0x200_0000,
        0 <= prob,
        1 <= weighted_prob,
    ensures
        -0x8000 <= weight_adjustment(prob as int, weighted_prob as int) <= 0x4000_0000,
        new_weight(w, prob, weighted_prob) == max_int(0, w + weight_adjustment(prob as int, weighted_prob as int)),
{
    let hit = weighted_prob as int;
    let miss = 0x8000 - hit;
    let n = prob as int;
    let eff = 0x8000 * n - hit * 0x8000;
    let g = hit * miss;
    let b = bit_length(g as nat);
    let d = pow2(b) as int;
    lemma_weight_adjustment_bounds(n, hit);
    lemma_bit_length_bounds(g as nat);
    lemma_pow2_pos(b);
    let x = miss * eff;
    let q = x / d;
    vstd::arithmetic::div_mod::lemma_fundamental_div_mod(x, d);
    assert(g >= miss) by (nonlinear_arith)
        requires
            g == hit * miss,
            hit >= 1,
            miss >= 0,
    ;
    // x lies between -0x8000 * d and 0x4000_0000 * d
    assert(x <= 0x4000_0000 * d) by (nonlinear_arith)
        requires
            x == miss * eff,
            eff <= 0x4000_0000,
            0 <= miss <= g,
            g < d,
    ;
    assert(x >= -0x8000 * d) by (nonlinear_arith)
        requires
            x == miss * eff,
            eff == 0x8000 * (n - hit),
            n >= 0,
            g == hit * miss,
            miss >= 0,
            hit >= 0,
            g < d,
    ;
    assert(-0x8000 <= q <= 0x4000_0000) by (nonlinear_arith)
        requires
            x == d * q + x % d,
            0 <= x % d < d,
            -0x8000 * d <= x <= 0x4000_0000 * d,
            d > 0,
    ;
}

/// Moves the weight that `index_equal_1` selects after a nibble was coded
/// with frequency `weighted_prob`, of which the two models had given it
/// the frequencies `probs`.
pub fn compute_new_weight(
    probs: [Prob; 2],
    weighted_prob: Prob,
    weights: [i32; 2],
    index_equal_1: bool,
    _speed: u8,
) -> (r: i32)
    requires
        weighted_prob >= 0,
    ensures
        r == new_weight(
            weights[if index_equal_1 { 1int } else { 0int }],
            probs[if index_equal_1 { 1int } else { 0int }],
            weighted_prob,
        ),
        r >= 0,
{
    let index: usize = if index_equal_1 { 1 } else { 0 };
    let full_model_sum_p1: i64 = weighted_prob as i64;
    proof {
        lemma_i64_shifts(0, 0);
        lemma_weight_adjustment_bounds(probs[index as int] as int, weighted_prob as int);
    }
    let full_model_total: i64 = 1i64 << LOG2_SCALE;
    let full_model_sum_p0: i64 = full_model_total - full_model_sum_p1;
    let n1i: i64 = probs[index] as i64;
    let ni: i64 = 1i64 << LOG2_SCALE;
    let error: i64 = full_model_total - full_model_sum_p1;
    let wi: i64 = weights[index] as i64;
    let efficacy: i64 = full_model_total * n1i - full_model_sum_p1 * ni;
    let log_geometric_probabilities: u32 = ilog2(full_model_sum_p1 * full_model_sum_p0);
    proof {
        let x = (error * efficacy) as int;
        let d = pow2(log_geometric_probabilities as nat) as int;
        lemma_i64_shr_is_floor((error * efficacy) as i64, log_geometric_probabilities);
        lemma_pow2_pos(log_geometric_probabilities as nat);
        vstd::arithmetic::div_mod::lemma_fundamental_div_mod(x, d);
        assert(-0x8000_0000_0000 <= x / d < 0x8000_0000_0000) by (nonlinear_arith)
            requires
                x == d * (x / d) + x % d,
                0 <= x % d < d,
                -0x8000_0000_0000 <= x < 0x8000_0000_0000,
                d >= 1,
        ;
    }
    let new_weight_adj: i64 = (error * efficacy) >> log_geometric_probabilities;
    let moved: i32 = #[verifier::truncate] ((wi + new_weight_adj) as i32);
    if moved > 0 {
        moved
    } else {
        0
    }
}

/// One update does not lower the share of the context-map weight when the
/// context-map model had given the coded nibble at least the frequency it
/// was coded with and the stride model at most that frequency: the stride
/// weight does not grow, the context-map weight does not shrink, and so
/// `w1 / (w0 + w1)` does not fall (stated without the division).
pub proof fn lemma_update_favours_better_model(
    w0: i32,
    w1: i32,
    stride_prob: Prob,
    cm_prob: Prob,
    weighted_prob: Prob,
)
    requires
        0 <= w0 < 0x100_0000,
        0 <= w1 < 0x100_0000,
        0 <= stride_prob <= weighted_prob <= cm_prob,
        1 <= weighted_prob,
    ensures
        normalized_weight(w0 as int, w0 as int, w1 as int) == w0,
        normalized_weight(w1 as int, w0 as int, w1 as int) == w1,
        0 <= new_weight(w0, stride_prob, weighted_prob) <= w0,
        new_weight(w1, cm_prob, weighted_prob) >= w1,
        new_weight(w1, cm_prob, weighted_prob) * (w0 + w1) >= w1 * (new_weight(
            w0,
            stride_prob,
            weighted_prob,
        ) + new_weight(w1, cm_prob, weighted_prob)),
{
    let hit = weighted_prob as int;
    let miss = 0x8000 - hit;
    let d = pow2(bit_length((hit * miss) as nat)) as int;
    lemma_pow2_pos(bit_length((hit * miss) as nat));
    lemma_new_weight_exact(w0, stride_prob, weighted_prob);
    lemma_new_weight_exact(w1, cm_prob, weighted_prob);
    let x0 = miss * (0x8000 * stride_prob - hit * 0x8000);
    let x1 = miss * (0x8000 * cm_prob - hit * 0x8000);
    assert(x0 <= 0 && x1 >= 0) by (nonlinear_arith)
        requires
            miss > 0,
            x0 == miss * (0x8000 * stride_prob - hit * 0x8000),
            x1 == miss * (0x8000 * cm_prob - hit * 0x8000),
            stride_prob <= hit <= cm_prob,
    ;
    vstd::arithmetic::div_mod::lemma_fundamental_div_mod(x0, d);
    vstd::arithmetic::div_mod::lemma_fundamental_div_mod(x1, d);
    assert(x0 / d <= 0 && x1 / d >= 0) by (nonlinear_arith)
        requires
            x0 == d * (x0 / d) + x0 % d,
            x1 == d * (x1 / d) + x1 % d,
            0 <= x0 % d < d,
            0 <= x1 % d < d,
            x0 <= 0,
            x1 >= 0,
            d > 0,
    ;
    let n0 = new_weight(w0, stride_prob, weighted_prob) as int;
    let n1 = new_weight(w1, cm_prob, weighted_prob) as int;
    assert(n1 * (w0 + w1) >= w1 * (n0 + n1)) by (nonlinear_arith)
        requires
            0 <= n0 <= w0,
            n1 >= w1,
            w1 >= 0,
    ;
    lemma2_to64();
    lemma_bit_length_at_most(max_int(w0 as int, w1 as int) as nat, 24);
    assert(w0 as int / pow2(0) as int == w0 && w1 as int / pow2(0) as int == w1);
}

/// The share of the context-map weight `w1` in `w0 + w1`, as a fixed-point
/// number with `BLEND_FIXED_POINT_PRECISION` fractional bits of which the
/// top eight are significant: both the weight and the total are first cut to
/// the eight leading bits of the total. With both weights at zero the
/// share is zero.
pub open spec fn mixing_weight(w0: int, w1: int) -> int {
    let total = w0 + w1;
    let bl = bit_length(total as nat);
    let sh = if bl > 8 {
        (bl - 8) as nat
    } else {
        0
    };
    let den = total / (pow2(sh) as int);
    let num = (w1 / (pow2(sh) as int)) * 256;
    if den == 0 {
        0
    } else {
        (num / den) * 128
    }
}

/// The weight with which the context-map model enters the blend of the two
/// models.
pub fn compute_mixing_weight(weights: &[i32; 2]) -> (r: i32)
    requires
        weights[0] >= 0,
        weights[1] >= 0,
    ensures
        r == mixing_weight(weights[0] as int, weights[1] as int),
        0 <= r <= 0x8000,
{
    let total: i64 = weights[0] as i64 + weights[1] as i64;
    let leading_zeros: u32 = (total as u64).leading_zeros();
    let ghost bl = bit_length(total as nat);
    proof {
        lemma_i64_shifts(total, 0);
        lemma_u64_bit_length(total as u64);
        lemma_bit_length_bounds(total as nat);
        lemma2_to64();
        lemma_bit_length_at_most(total as nat, 32);
    }
    let shift: u32 = if leading_zeros < 56 {
        56 - leading_zeros
    } else {
        0
    };
    let ghost p = pow2(shift as nat) as int;
    proof {
        lemma_pow2_pos(shift as nat);
        lemma_i64_shr_is_div(total, shift as u8);
        lemma_i32_shr_is_div(weights[1], shift as u8);
        if bl > 8 {
            lemma_pow2_adds(shift as nat, 8);
        } else {
            lemma_bit_length_at_most(total as nat, 8);
            if bl < 8 {
                vstd::arithmetic::power2::lemma_pow2_strictly_increases(bl, 8);
            }
        }
        assert(total < p * 256);
        assert(total as int / p < 256) by (nonlinear_arith)
            requires
                0 <= total < p * 256,
                p > 0,
        ;
        vstd::arithmetic::div_mod::lemma_div_pos_is_pos(total as int, p);
        vstd::arithmetic::div_mod::lemma_div_pos_is_pos(weights[1] as int, p);
        vstd::arithmetic::div_mod::lemma_div_is_ordered(weights[1] as int, total as int, p);
    }
    let total_8bit: i64 = total >> shift;
    let a: i32 = weights[1] >> shift;
    if total_8bit == 0 {
        return 0;
    }
    proof {
        vstd::bits::lemma_u16_shl_is_mul(a as u16, 8u16);
        lemma_divisor8_of(total_8bit as u8);
    }
    let quotient: u16 = fast_divide_16bit_by_8bit((a as u16) << 8, lookup_divisor8(total_8bit as u8));
    proof {
        assert(quotient == (a * 256) / (total_8bit as int));
        assert((a * 256) / (total_8bit as int) <= 256) by (nonlinear_arith)
            requires
                0 <= a <= total_8bit,
                total_8bit > 0,
        ;
        lemma_i32_shifts(quotient as i32, 0);
    }
    (quotient as i32) << (BLEND_FIXED_POINT_PRECISION - 8)
}

} // verus!
