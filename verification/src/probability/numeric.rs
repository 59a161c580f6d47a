//! Division without a divide instruction: a denominator is turned once into
//! a reciprocal and a shift, and every later division by it is a multiply,
//! an add and two shifts.

use vstd::prelude::*;

verus! {

use crate::bits::{
    bit_length, lemma_bit_length_bounds, lemma_i32_shifts, lemma_i64_shifts, lemma_one_shl,
    lemma_u16_bit_length, lemma_u8_bit_length,
};
use vstd::arithmetic::div_mod::{
    lemma_div_denominator, lemma_fundamental_div_mod, lemma_fundamental_div_mod_converse,
};
use vstd::arithmetic::power2::{lemma2_to64, lemma2_to64_rest, lemma_pow2_pos, lemma_pow2_unfold, pow2};

/// A denominator of the wide routine.
pub type DenominatorType = u16;

/// Numerators of the wide routine are below `2^LOG_MAX_NUMERATOR`.
pub const LOG_MAX_NUMERATOR: usize = 31;

/// Numerators of the narrow routine are below `2^LOG_MAX_NUMERATOR8`.
pub const LOG_MAX_NUMERATOR8: usize = 16;

/// The reciprocal of `d` for numerators below `2^log_max`, where `b` is the
/// bit length of `d`: `floor((2^b - d) * 2^log_max / d) + 1`.
pub open spec fn reciprocal(d: int, b: nat, log_max: nat) -> int {
    ((pow2(b) - d) * pow2(log_max)) / d + 1
}

/// What the multiply-and-shift sequence computes from a numerator `n`, a
/// reciprocal `inv` and a shift `sh`.
pub open spec fn reciprocal_quotient(n: int, inv: int, sh: nat, log_max: nat) -> int {
    let t = (inv * n) / (pow2(log_max) as int);
    (t + (n - t) / 2) / (pow2(sh) as int)
}

/// The pair that stands for the 16-bit denominator `d`.
pub open spec fn divisor_of(d: u16) -> (i64, u8) {
    (
        reciprocal(d as int, bit_length(d as nat), LOG_MAX_NUMERATOR as nat) as i64,
        (bit_length(d as nat) - 1) as u8,
    )
}

/// The pair that stands for the 8-bit denominator `d`.
pub open spec fn divisor8_of(d: u8) -> (i32, u8) {
    (
        reciprocal(d as int, bit_length(d as nat), LOG_MAX_NUMERATOR8 as nat) as i32,
        (bit_length(d as nat) - 1) as u8,
    )
}

/// `pair` stands for some non-zero 16-bit denominator.
pub open spec fn is_divisor(pair: (i64, u8)) -> bool {
    exists|d: u16| d != 0 && #[trigger] divisor_of(d) == pair
}

/// `pair` stands for some non-zero 8-bit denominator.
pub open spec fn is_divisor8(pair: (i32, u8)) -> bool {
    exists|d: u8| d != 0 && #[trigger] divisor8_of(d) == pair
}

/// The multiply-and-shift sequence with the reciprocal of `d` gives the
/// exact quotient `n / d` for every numerator below `2^log_max`.
pub proof fn lemma_reciprocal_divides(n: int, d: int, b: nat, log_max: nat)
    requires
        b >= 1,
        pow2((b - 1) as nat) <= d < pow2(b),
        0 <= n < pow2(log_max),
    ensures
        1 <= reciprocal(d, b, log_max) <= pow2(log_max) + 1,
        0 <= (reciprocal(d, b, log_max) * n) / (pow2(log_max) as int) <= n,
        reciprocal_quotient(n, reciprocal(d, b, log_max), (b - 1) as nat, log_max) == n / d,
{
    let p = pow2(log_max) as int;
    let big = pow2(b) as int;
    let half = pow2((b - 1) as nat) as int;
    lemma_pow2_pos(log_max);
    lemma_pow2_pos((b - 1) as nat);
    lemma_pow2_unfold(b);
    assert(big == 2 * half);
    assert(d >= 1);
    let x = big * p;
    let qx = x / d;
    let rx = x % d;
    lemma_fundamental_div_mod(x, d);
    assert(x == d * qx + rx && 0 <= rx < d);
    // the reciprocal is x / d - p + 1
    let a = (big - d) * p;
    assert(a == d * (qx - p) + rx) by (nonlinear_arith)
        requires
            a == (big - d) * p,
            x == big * p,
            x == d * qx + rx,
    ;
    lemma_fundamental_div_mod_converse(a, d, qx - p, rx);
    let inv = reciprocal(d, b, log_max);
    assert(inv == qx - p + 1);
    let m = qx + 1;
    let e = d - rx;
    assert(m * d == x + e) by (nonlinear_arith)
        requires
            m == qx + 1,
            e == d - rx,
            x == d * qx + rx,
    ;
    assert(p <= qx <= 2 * p) by (nonlinear_arith)
        requires
            x == d * qx + rx,
            0 <= rx < d,
            x == big * p,
            big == 2 * half,
            half <= d < big,
            p > 0,
    ;
    // the quotient of m * n by x
    let q = n / d;
    let r = n % d;
    lemma_fundamental_div_mod(n, d);
    let y = q * e + m * r;
    assert(q >= 0) by (nonlinear_arith)
        requires
            n == d * q + r,
            0 <= r < d,
            n >= 0,
    ;
    assert(m * n == x * q + y) by (nonlinear_arith)
        requires
            n == d * q + r,
            m * d == x + e,
            y == q * e + m * r,
    ;
    assert(0 <= y) by (nonlinear_arith)
        requires
            y == q * e + m * r,
            q >= 0,
            e >= 1,
            m >= 1,
            r >= 0,
    ;
    assert(d * y == e * n + x * r) by (nonlinear_arith)
        requires
            y == q * e + m * r,
            m * d == x + e,
            n == d * q + r,
    ;
    assert(e * n < x) by (nonlinear_arith)
        requires
            1 <= e <= d,
            d < big,
            0 <= n < p,
            x == big * p,
    ;
    assert(y < x) by (nonlinear_arith)
        requires
            d * y == e * n + x * r,
            e * n < x,
            0 <= r < d,
            x > 0,
    ;
    assert(x > 0) by (nonlinear_arith)
        requires
            x == big * p,
            big > 0,
            p > 0,
    ;
    lemma_fundamental_div_mod_converse(m * n, x, q, y);
    assert((m * n) / x == q);
    // the first shift
    let t = (inv * n) / p;
    let rt = (inv * n) % p;
    lemma_fundamental_div_mod(inv * n, p);
    assert(m * n == p * (t + n) + rt) by (nonlinear_arith)
        requires
            inv * n == p * t + rt,
            m == inv + p,
    ;
    lemma_fundamental_div_mod_converse(m * n, p, t + n, rt);
    assert(0 <= t <= n) by (nonlinear_arith)
        requires
            inv * n == p * t + rt,
            0 <= rt < p,
            1 <= inv <= p + 1,
            0 <= n < p,
    ;
    assert(m * n >= 0) by (nonlinear_arith)
        requires
            m >= 1,
            n >= 0,
    ;
    lemma_div_denominator(m * n, p, big);
    assert(p * big == x) by (nonlinear_arith)
        requires
            x == big * p,
    ;
    assert((t + n) / big == q);
    // the second and third shift
    assert(t + (n - t) / 2 == (t + n) / 2);
    lemma_div_denominator(t + n, 2, half);
    assert(2 * half == big);
}

/// The two parts of `divisor_of(d)` fit their machine types, so the casts
/// in its definition change nothing.
pub proof fn lemma_divisor_of(d: u16)
    requires
        d != 0,
    ensures
        1 <= bit_length(d as nat) <= 16,
        pow2((bit_length(d as nat) - 1) as nat) <= d < pow2(bit_length(d as nat)),
        divisor_of(d).0 == reciprocal(d as int, bit_length(d as nat), 31),
        1 <= divisor_of(d).0 <= 0x8000_0001,
        divisor_of(d).1 == bit_length(d as nat) - 1,
        is_divisor(divisor_of(d)),
{
    lemma_u16_bit_length(d);
    lemma_bit_length_bounds(d as nat);
    lemma2_to64();
    lemma2_to64_rest();
    lemma_reciprocal_divides(0, d as int, bit_length(d as nat), 31);
}

/// The two parts of `divisor8_of(d)` fit their machine types, so the casts
/// in its definition change nothing.
pub proof fn lemma_divisor8_of(d: u8)
    requires
        d != 0,
    ensures
        1 <= bit_length(d as nat) <= 8,
        pow2((bit_length(d as nat) - 1) as nat) <= d < pow2(bit_length(d as nat)),
        divisor8_of(d).0 == reciprocal(d as int, bit_length(d as nat), 16),
        1 <= divisor8_of(d).0 <= 0x1_0001,
        divisor8_of(d).1 == bit_length(d as nat) - 1,
        is_divisor8(divisor8_of(d)),
{
    lemma_u8_bit_length(d);
    lemma_bit_length_bounds(d as nat);
    lemma2_to64();
    lemma_reciprocal_divides(0, d as int, bit_length(d as nat), 16);
}

/// Only zero has the bits of zero.
proof fn lemma_unsigned_bits(d: i16)
    by (bit_vector)
    ensures
        d != 0 ==> (d as u16) != 0,
{
}

/// Bit length of a 16-bit denominator.
pub fn k16bit_length(d: DenominatorType) -> (r: u8)
    ensures
        r == bit_length(d as nat),
        r <= 16,
{
    proof {
        lemma_u16_bit_length(d);
    }
    (16 - d.leading_zeros()) as u8
}

/// Bit length of an 8-bit denominator.
pub fn k8bit_length(d: u8) -> (r: u8)
    ensures
        r == bit_length(d as nat),
        r <= 8,
{
    proof {
        lemma_u8_bit_length(d);
    }
    (8 - d.leading_zeros()) as u8
}

/// Turns the denominator `d` into its reciprocal and shift.
pub fn compute_divisor(d: DenominatorType) -> (r: (i64, u8))
    requires
        d != 0,
    ensures
        r == divisor_of(d),
        r.0 == reciprocal(d as int, bit_length(d as nat), 31),
        r.1 == bit_length(d as nat) - 1,
        is_divisor(r),
{
    let bit_len = k16bit_length(d);
    let one: i64 = 1i64 << bit_len;
    proof {
        lemma_divisor_of(d);
        lemma_one_shl(bit_len as nat);
        lemma_i64_shifts(0, bit_len);
        assert(one == pow2(bit_len as nat));
        lemma_i64_shifts((one - d as i64) as i64, bit_len);
        lemma2_to64();
        lemma2_to64_rest();
    }
    let scaled: i64 = (one - d as i64) << LOG_MAX_NUMERATOR;
    (scaled / (d as i64) + 1, bit_len - 1)
}

/// The reciprocal and shift of the denominator whose bits `d` holds: the
/// same pair as `compute_divisor` gives for `d` read as unsigned.
pub fn lookup_divisor(d: i16) -> (r: (i64, u8))
    requires
        d != 0,
    ensures
        r == divisor_of(d as u16),
        is_divisor(r),
{
    proof {
        lemma_unsigned_bits(d);
    }
    compute_divisor(#[verifier::truncate] (d as u16))
}

/// Divides a 30-bit numerator by the 16-bit denominator that the pair
/// stands for.
pub fn fast_divide_30bit_by_16bit(num: i32, inv_denom_and_bitlen: (i64, u8)) -> (r: i32)
    requires
        0 <= num < 0x4000_0000,
        is_divisor(inv_denom_and_bitlen),
    ensures
        forall|d: u16| d != 0 && #[trigger] divisor_of(d) == inv_denom_and_bitlen ==> r == num / (d as i32),
        0 <= r <= num,
{
    let ghost d0 = choose|d: u16| d != 0 && #[trigger] divisor_of(d) == inv_denom_and_bitlen;
    proof {
        lemma_divisor_of(d0);
        lemma2_to64();
        lemma_reciprocal_divides(num as int, d0 as int, bit_length(d0 as nat), 31);
        assert(inv_denom_and_bitlen.0 * num <= 0x8000_0001 * 0x4000_0000) by (nonlinear_arith)
            requires
                0 <= inv_denom_and_bitlen.0 <= 0x8000_0001,
                0 <= num <= 0x4000_0000,
        ;
        assert(0 <= inv_denom_and_bitlen.0 * num) by (nonlinear_arith)
            requires
                0 <= inv_denom_and_bitlen.0,
                0 <= num,
        ;
    }
    let idiv_mul_num: i64 = inv_denom_and_bitlen.0 * (num as i64);
    let t: i64 = idiv_mul_num >> LOG_MAX_NUMERATOR;
    proof {
        lemma_i64_shifts(idiv_mul_num, 0);
    }
    let rest: i32 = ((num as i64) - t) as i32;
    proof {
        lemma_i32_shifts(rest, 0);
    }
    let sum: i32 = (t as i32) + (rest >> 1);
    let r = sum >> inv_denom_and_bitlen.1;
    proof {
        lemma_i32_shifts(sum, inv_denom_and_bitlen.1);
        vstd::bits::lemma_u64_shr_is_div(sum as u64, inv_denom_and_bitlen.1 as u64);
        assert(r == reciprocal_quotient(num as int, inv_denom_and_bitlen.0 as int, inv_denom_and_bitlen.1 as nat, 31));
        assert forall|d: u16| d != 0 && #[trigger] divisor_of(d) == inv_denom_and_bitlen implies r == num / (
        d as i32) by {
            lemma_divisor_of(d);
            lemma_reciprocal_divides(num as int, d as int, bit_length(d as nat), 31);
        }
        assert(r == num as int / d0 as int);
        vstd::arithmetic::div_mod::lemma_div_nonincreasing(num as int, d0 as int);
        vstd::arithmetic::div_mod::lemma_div_pos_is_pos(num as int, d0 as int);
    }
    r
}

/// Turns the 8-bit denominator `d` into its reciprocal and shift.
pub fn compute_divisor8(d: u8) -> (r: (i32, u8))
    requires
        d != 0,
    ensures
        r == divisor8_of(d),
        r.0 == reciprocal(d as int, bit_length(d as nat), 16),
        r.1 == bit_length(d as nat) - 1,
        is_divisor8(r),
{
    let bit_len = k8bit_length(d);
    let one: i32 = 1i32 << bit_len;
    proof {
        lemma_divisor8_of(d);
        lemma_one_shl(bit_len as nat);
        lemma_i32_shifts(0, bit_len);
        assert(one == pow2(bit_len as nat));
        lemma_i32_shifts((one - d as i32) as i32, bit_len);
        lemma2_to64();
    }
    let scaled: i32 = (one - d as i32) << LOG_MAX_NUMERATOR8;
    (scaled / (d as i32) + 1, bit_len - 1)
}

/// The reciprocal and shift of the 8-bit denominator `d`.
pub fn lookup_divisor8(d: u8) -> (r: (i32, u8))
    requires
        d != 0,
    ensures
        r == divisor8_of(d),
        is_divisor8(r),
{
    compute_divisor8(d)
}

/// Divides a 16-bit numerator by the 8-bit denominator that the pair
/// stands for.
pub fn fast_divide_16bit_by_8bit(num: u16, inv_denom_and_bitlen: (i32, u8)) -> (r: u16)
    requires
        is_divisor8(inv_denom_and_bitlen),
    ensures
        forall|d: u8| d != 0 && #[trigger] divisor8_of(d) == inv_denom_and_bitlen ==> r == num / (d as u16),
        r <= num,
{
    let ghost d0 = choose|d: u8| d != 0 && #[trigger] divisor8_of(d) == inv_denom_and_bitlen;
    proof {
        lemma_divisor8_of(d0);
        lemma2_to64();
        lemma_reciprocal_divides(num as int, d0 as int, bit_length(d0 as nat), 16);
        assert(inv_denom_and_bitlen.0 * num <= 0x1_0001 * 0x1_0000) by (nonlinear_arith)
            requires
                0 <= inv_denom_and_bitlen.0 <= 0x1_0001,
                0 <= num <= 0x1_0000,
        ;
        assert(0 <= inv_denom_and_bitlen.0 * num) by (nonlinear_arith)
            requires
                0 <= inv_denom_and_bitlen.0,
                0 <= num,
        ;
    }
    let idiv_mul_num: i64 = (inv_denom_and_bitlen.0 as i64) * (num as i64);
    let t: i64 = idiv_mul_num >> LOG_MAX_NUMERATOR8;
    proof {
        lemma_i64_shifts(idiv_mul_num, 0);
    }
    let rest: i32 = ((num as i64) - t) as i32;
    proof {
        lemma_i32_shifts(rest, 0);
    }
    let sum: i32 = (t as i32) + (rest >> 1);
    let r = sum >> inv_denom_and_bitlen.1;
    proof {
        lemma_i32_shifts(sum, inv_denom_and_bitlen.1);
        vstd::bits::lemma_u64_shr_is_div(sum as u64, inv_denom_and_bitlen.1 as u64);
        assert(r == reciprocal_quotient(num as int, inv_denom_and_bitlen.0 as int, inv_denom_and_bitlen.1 as nat, 16));
        assert forall|d: u8| d != 0 && #[trigger] divisor8_of(d) == inv_denom_and_bitlen implies r == num / (
        d as u16) by {
            lemma_divisor8_of(d);
            lemma_reciprocal_divides(num as int, d as int, bit_length(d as nat), 16);
        }
        assert(r == num as int / d0 as int);
        vstd::arithmetic::div_mod::lemma_div_nonincreasing(num as int, d0 as int);
        vstd::arithmetic::div_mod::lemma_div_pos_is_pos(num as int, d0 as int);
    }
    r as u16
}

} // verus!
