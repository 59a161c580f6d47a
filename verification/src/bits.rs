//! Bit lengths of machine integers.

use vstd::prelude::*;

verus! {

use vstd::arithmetic::power2::{pow2, lemma_pow2_pos, lemma_pow2_unfold};
use vstd::std_specs::bits::{
    axiom_u16_leading_zeros, axiom_u32_leading_zeros, axiom_u8_leading_zeros, u16_leading_zeros,
    u32_leading_zeros, u64_leading_zeros, u8_leading_zeros,
};

/// Number of binary digits of `n`: 0 for 0, otherwise one more than the
/// position of the highest set bit.
pub open spec fn bit_length(n: nat) -> nat
    decreases n,
{
    if n == 0 {
        0
    } else {
        1 + bit_length(n / 2)
    }
}

/// A number of `k` binary digits lies between `2^(k-1)` and `2^k`.
pub proof fn lemma_bit_length_bounds(n: nat)
    ensures
        n < pow2(bit_length(n)),
        n > 0 ==> bit_length(n) > 0 && pow2((bit_length(n) - 1) as nat) <= n,
    decreases n,
{
    if n == 0 {
        lemma_pow2_pos(0);
    } else {
        lemma_bit_length_bounds(n / 2);
        lemma_pow2_unfold(bit_length(n));
        if n / 2 > 0 {
            lemma_pow2_unfold(bit_length(n / 2));
        } else {
            assert(pow2(0) == 1) by {
                vstd::arithmetic::power2::lemma2_to64();
            }
        }
    }
}

/// The bounds of `lemma_bit_length_bounds` determine the bit length.
pub proof fn lemma_bit_length_unique(n: nat, k: nat)
    requires
        n < pow2(k),
        k > 0 ==> pow2((k - 1) as nat) <= n,
    ensures
        bit_length(n) == k,
    decreases k,
{
    if k == 0 {
        assert(pow2(0) == 1) by {
            vstd::arithmetic::power2::lemma2_to64();
        }
    } else {
        lemma_pow2_pos((k - 1) as nat);
        lemma_pow2_unfold(k);
        if k > 1 {
            lemma_pow2_unfold((k - 1) as nat);
        }
        lemma_bit_length_unique(n / 2, (k - 1) as nat);
    }
}

/// A number below `2^k` has at most `k` binary digits.
pub proof fn lemma_bit_length_at_most(n: nat, k: nat)
    requires
        n < pow2(k),
    ensures
        bit_length(n) <= k,
{
    lemma_bit_length_bounds(n);
    if n > 0 && bit_length(n) > k {
        if bit_length(n) - 1 > k {
            vstd::arithmetic::power2::lemma_pow2_strictly_increases(k, (bit_length(n) - 1) as nat);
        }
    }
}

/// A number of at least `2^k` has more than `k` binary digits.
pub proof fn lemma_bit_length_above(n: nat, k: nat)
    requires
        pow2(k) <= n,
    ensures
        bit_length(n) > k,
{
    lemma_bit_length_bounds(n);
    if bit_length(n) < k {
        vstd::arithmetic::power2::lemma_pow2_strictly_increases(bit_length(n), k);
    }
}

/// Bit length is monotone.
pub proof fn lemma_bit_length_monotone(a: nat, b: nat)
    requires
        a <= b,
    ensures
        bit_length(a) <= bit_length(b),
    decreases b,
{
    if a > 0 {
        lemma_bit_length_monotone(a / 2, b / 2);
    }
}

/// Shifting one to the left gives a power of two.
pub proof fn lemma_one_shl(s: nat)
    requires
        s < 64,
    ensures
        (1u64 << (s as u64)) == pow2(s),
{
    vstd::bits::lemma_u64_pow2_no_overflow(s);
    vstd::bits::lemma_u64_shl_is_mul(1u64, s as u64);
}

proof fn lemma_u8_top_bit(x: u8, hi: u8, up: u8)
    by (bit_vector)
    ensures
        (x >> hi) & 1u8 != 0u8 && hi < 8 ==> x as u64 >= (1u64 << (hi as u64)),
        x >> up == 0 && up <= 8 ==> (x as u64) < (1u64 << (up as u64)),
{
}

proof fn lemma_u16_top_bit(x: u16, hi: u16, up: u16)
    by (bit_vector)
    ensures
        (x >> hi) & 1u16 != 0u16 && hi < 16 ==> x as u64 >= (1u64 << (hi as u64)),
        x >> up == 0 && up <= 16 ==> (x as u64) < (1u64 << (up as u64)),
{
}

proof fn lemma_u32_top_bit(x: u32, hi: u32, up: u32)
    by (bit_vector)
    ensures
        (x >> hi) & 1u32 != 0u32 && hi < 32 ==> x as u64 >= (1u64 << (hi as u64)),
        x >> up == 0 && up <= 32 ==> (x as u64) < (1u64 << (up as u64)),
{
}

/// `u8::leading_zeros` counts the digits that `bit_length` leaves out of eight.
pub proof fn lemma_u8_bit_length(x: u8)
    ensures
        bit_length(x as nat) == 8 - u8_leading_zeros(x),
        u8_leading_zeros(x) <= 8,
{
    axiom_u8_leading_zeros(x);
    let lz = u8_leading_zeros(x);
    if lz < 8 {
        let hi: u8 = (7 - lz) as u8;
        let up: u8 = (8 - lz) as u8;
        lemma_u8_top_bit(x, hi, up);
        lemma_one_shl(hi as nat);
        lemma_one_shl(up as nat);
        lemma_bit_length_unique(x as nat, (8 - lz) as nat);
    }
}

/// `u16::leading_zeros` counts the digits that `bit_length` leaves out of sixteen.
pub proof fn lemma_u16_bit_length(x: u16)
    ensures
        bit_length(x as nat) == 16 - u16_leading_zeros(x),
        u16_leading_zeros(x) <= 16,
{
    axiom_u16_leading_zeros(x);
    let lz = u16_leading_zeros(x);
    if lz < 16 {
        let hi: u16 = (15 - lz) as u16;
        let up: u16 = (16 - lz) as u16;
        lemma_u16_top_bit(x, hi, up);
        lemma_one_shl(hi as nat);
        lemma_one_shl(up as nat);
        lemma_bit_length_unique(x as nat, (16 - lz) as nat);
    }
}

/// `u32::leading_zeros` counts the digits that `bit_length` leaves out of thirty-two.
pub proof fn lemma_u32_bit_length(x: u32)
    ensures
        bit_length(x as nat) == 32 - u32_leading_zeros(x),
        u32_leading_zeros(x) <= 32,
{
    axiom_u32_leading_zeros(x);
    let lz = u32_leading_zeros(x);
    if lz < 32 {
        let hi: u32 = (31 - lz) as u32;
        let up: u32 = (32 - lz) as u32;
        lemma_u32_top_bit(x, hi, up);
        lemma_one_shl(hi as nat);
        lemma_one_shl(up as nat);
        lemma_bit_length_unique(x as nat, (32 - lz) as nat);
    }
}

/// `u64::leading_zeros` counts the digits that `bit_length` leaves out of sixty-four.
pub proof fn lemma_u64_bit_length(x: u64)
    ensures
        bit_length(x as nat) == 64 - u64_leading_zeros(x),
        0 <= u64_leading_zeros(x) <= 64,
    decreases x,
{
    reveal(u64_leading_zeros);
    if x != 0 {
        lemma_u64_bit_length(x / 2);
        lemma_bit_length_bounds(x as nat);
        if bit_length(x as nat) > 64 {
            vstd::arithmetic::power2::lemma_pow2_strictly_increases(64, (bit_length(x as nat) - 1) as nat);
            vstd::arithmetic::power2::lemma2_to64();
        }
    }
}

/// Shifts of the non-negative 64-bit values that the fixed-point routines
/// handle, rewritten as shifts of `u64`, products and quotients.
pub proof fn lemma_i64_shifts(x: i64, s: u8)
    by (bit_vector)
    ensures
        s <= 16 ==> 0 < (1i64 << s) && (1i64 << s) as u64 == 1u64 << (s as u64),
        (1i64 << 15) == 0x8000i64,
        0 <= x ==> (x as u64) == x,
        x < 0 ==> (x as u64) >= 0x8000_0000_0000_0000u64,
        0 <= x <= 0x1_0000i64 ==> (x << 31) == x * 0x8000_0000i64,
        0 <= x ==> (x >> 31) == x / 0x8000_0000i64,
        0 <= x ==> (x >> 16) == x / 0x1_0000i64,
        0 <= x && s < 64 ==> 0 <= (x >> s) && ((x >> s) as u64) == (x as u64) >> (s as u64),
{
}

/// Shifts of the non-negative 32-bit values that the fixed-point routines
/// handle, rewritten as shifts of `u64`, products and quotients.
pub proof fn lemma_i32_shifts(w: i32, s: u8)
    by (bit_vector)
    ensures
        s <= 8 ==> 0 < (1i32 << s) && (1i32 << s) as u64 == 1u64 << (s as u64),
        0 <= w ==> (w as u32) == w,
        0 <= w <= 0x100i32 ==> (w << 16) == w * 0x1_0000i32,
        0 <= w <= 0x100i32 ==> (w << 7) == w * 0x80i32,
        0 <= w ==> (w >> 1) == w / 2i32,
        0 <= w && s < 32 ==> 0 <= (w >> s) && ((w >> s) as u64) == (w as u64) >> (s as u64),
{
}

/// A right shift of a signed value rounds towards minus infinity.
proof fn lemma_i64_shr_brackets(x: i64, s: u32)
    by (bit_vector)
    ensures
        s <= 32 ==> 0 < (1i64 << s) && (1i64 << s) as u64 == 1u64 << (s as u64),
        -0x4000_0000_0000_0000i64 <= x < 0x4000_0000_0000_0000i64 && s <= 32 ==> (x >> s) * (1i64
            << s) <= x && x < (x >> s) * (1i64 << s) + (1i64 << s),
{
}

/// Shifting a non-negative `i32` right divides it by a power of two.
pub proof fn lemma_i32_shr_is_div(w: i32, s: u8)
    requires
        0 <= w,
        s < 32,
    ensures
        (w >> s) == w as int / pow2(s as nat) as int,
{
    lemma_i32_shifts(w, s);
    vstd::bits::lemma_u64_shr_is_div(w as u64, s as u64);
}

/// Shifting a non-negative `i64` right divides it by a power of two.
pub proof fn lemma_i64_shr_is_div(x: i64, s: u8)
    requires
        0 <= x,
        s < 64,
    ensures
        (x >> s) == x as int / pow2(s as nat) as int,
{
    lemma_i64_shifts(x, s);
    vstd::bits::lemma_u64_shr_is_div(x as u64, s as u64);
}

/// Shifting an `i64` of either sign right is the floor of its quotient by
/// a power of two.
pub proof fn lemma_i64_shr_is_floor(x: i64, s: u32)
    requires
        -0x4000_0000_0000_0000 <= x < 0x4000_0000_0000_0000,
        s <= 32,
    ensures
        (x >> s) == x as int / pow2(s as nat) as int,
{
    lemma_i64_shr_brackets(x, s);
    lemma_one_shl(s as nat);
    let p = pow2(s as nat) as int;
    let q = (x >> s) as int;
    assert((1i64 << s) == p);
    vstd::arithmetic::div_mod::lemma_fundamental_div_mod_converse(x as int, p, q, x - q * p);
}

} // verus!
