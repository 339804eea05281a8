//! Shifts and masks on 128-bit patterns, stated as integer arithmetic.

use crate::base::arith::{two_pow_127, two_pow_128, wrap_signed, wrap_unsigned};
use vstd::arithmetic::div_mod::{
    lemma_fundamental_div_mod, lemma_fundamental_div_mod_converse, lemma_mod_mod, lemma_mod_pos_bound,
    lemma_mul_mod_noop_left, lemma_small_mod,
};
use vstd::arithmetic::power2::{lemma2_to64, lemma_pow2_adds, lemma_pow2_pos, lemma_pow2_strictly_increases, pow2};
use vstd::bits::lemma_u128_shr_is_div;
use vstd::prelude::*;

verus! {

/// `pow2(128)` is the modulus of the 128-bit patterns, and every smaller
/// power of two lies below it.
pub proof fn lemma_pow2_below_width(n: nat)
    requires
        n <= 128,
    ensures
        pow2(128) == two_pow_128(),
        pow2(127) == two_pow_127(),
        0 < pow2(n) <= two_pow_128(),
        n < 128 ==> pow2(n) <= two_pow_127(),
{
    lemma2_to64();
    lemma_pow2_adds(64, 64);
    lemma_pow2_adds(127, 1);
    assert(pow2(64) * pow2(64) == two_pow_128());
    assert(pow2(127) * 2 == two_pow_128());
    lemma_pow2_pos(n);
    if n < 128 {
        lemma_pow2_strictly_increases(n, 128);
    }
    if n < 127 {
        lemma_pow2_strictly_increases(n, 127);
    }
}

/// A logical right shift of an unsigned pattern divides by a power of two.
pub proof fn lemma_shr_unsigned(x: u128, n: u8)
    requires
        n < 128,
    ensures
        x >> n == x as int / (pow2(n as nat) as int),
{
    lemma_u128_shr_is_div(x, n as u128);
}

/// The complement of a two's-complement pattern `x` is `-x - 1`.
proof fn lemma_not_signed(x: i128)
    by (bit_vector)
    ensures
        !x == -x - 1,
{
}

/// An arithmetic right shift commutes with the complement.
proof fn lemma_shr_of_not(x: i128, n: u8)
    by (bit_vector)
    requires
        n < 128,
    ensures
        x >> n == !((!x) >> n),
{
}

/// On a pattern with a clear top bit the arithmetic and the logical right
/// shift agree.
proof fn lemma_shr_nonnegative(x: i128, n: u8)
    by (bit_vector)
    requires
        x >= 0,
        n < 128,
    ensures
        x >> n == ((x as u128) >> n) as i128,
        (x as u128) == x,
        ((x as u128) >> n) <= (x as u128),
{
}

/// An arithmetic right shift of a two's-complement pattern is the floor of
/// the division by a power of two.
pub proof fn lemma_shr_signed(x: i128, n: u8)
    requires
        n < 128,
    ensures
        x >> n == x as int / (pow2(n as nat) as int),
{
    let d = pow2(n as nat) as int;
    lemma_pow2_pos(n as nat);
    if x >= 0 {
        lemma_shr_nonnegative(x, n);
        lemma_shr_unsigned(x as u128, n);
    } else {
        let y: i128 = !x;
        lemma_not_signed(x);
        lemma_shr_of_not(x, n);
        lemma_shr_nonnegative(y, n);
        lemma_shr_unsigned(y as u128, n);
        lemma_not_signed(y >> n);
        let q = y as int / d;
        let r = y as int % d;
        lemma_fundamental_div_mod(y as int, d);
        lemma_mod_pos_bound(y as int, d);
        assert((-q - 1) * d == -(d * q) - d) by (nonlinear_arith);
        lemma_fundamental_div_mod_converse(x as int, d, -q - 1, d - r - 1);
    }
}

/// A left shift of an unsigned pattern multiplies by a power of two and
/// keeps the low 128 bits.
pub proof fn lemma_shl_unsigned(x: u128, n: u8)
    requires
        n < 128,
    ensures
        x << n == wrap_unsigned(x * pow2(n as nat)),
    decreases n,
{
    if n == 0 {
        assert(x << 0u8 == x) by (bit_vector);
        lemma2_to64();
        assert(x * pow2(0) == x);
    } else {
        let m: u8 = (n - 1) as u8;
        let half = x << m;
        assert(x << n == if half < 0x8000_0000_0000_0000_0000_0000_0000_0000u128 {
            half * 2
        } else {
            half * 2 - 0x1_0000_0000_0000_0000_0000_0000_0000_0000int
        }) by (bit_vector)
            requires
                0 < n < 128,
                m == (n - 1) as u8,
                half == x << m,
        ;
        lemma_shl_unsigned(x, m);
        let p = x * pow2(m as nat);
        assert(half * 2 == (p % two_pow_128()) * 2);
        lemma_mul_mod_noop_left(p, 2, two_pow_128());
        lemma_pow2_adds(m as nat, 1);
        lemma2_to64();
        assert(p * 2 == x * pow2(n as nat)) by (nonlinear_arith)
            requires
                p == x * pow2(m as nat),
                pow2(n as nat) == pow2(m as nat) * 2,
        ;
        if half * 2 < two_pow_128() {
            lemma_small_mod((half * 2) as nat, two_pow_128() as nat);
        } else {
            lemma_fundamental_div_mod_converse(half * 2, two_pow_128(), 1, half * 2 - two_pow_128());
        }
    }
}

/// Reading a two's-complement pattern as unsigned keeps its residue modulo
/// 2^128: a negative `x` reads as `x + 2^128`.
pub proof fn lemma_signed_as_unsigned(x: i128)
    ensures
        (x as u128) == wrap_unsigned(x as int),
{
    assert((x as u128) == if x >= 0 {
        x as int
    } else {
        x + 0x1_0000_0000_0000_0000_0000_0000_0000_0000int
    }) by (bit_vector);
}

/// Reading an unsigned pattern as two's complement keeps its residue modulo
/// 2^128: a `u` with the top bit set reads as `u - 2^128`.
pub proof fn lemma_unsigned_as_signed(u: u128)
    ensures
        (u as i128) == wrap_signed(u as int),
{
    assert((u as i128) == if u < 0x8000_0000_0000_0000_0000_0000_0000_0000u128 {
        u as int
    } else {
        u - 0x1_0000_0000_0000_0000_0000_0000_0000_0000int
    }) by (bit_vector);
}

/// A left shift of a two's-complement pattern multiplies by a power of two
/// and keeps the low 128 bits, read again as two's complement.
pub proof fn lemma_shl_signed(x: i128, n: u8)
    requires
        n < 128,
    ensures
        x << n == wrap_signed(x * pow2(n as nat)),
{
    let u = x as u128;
    assert(x << n == (u << n) as i128) by (bit_vector)
        requires
            n < 128,
            u == x as u128,
    ;
    lemma_signed_as_unsigned(x);
    lemma_unsigned_as_signed(u << n);
    lemma_shl_unsigned(u, n);
    lemma_mul_mod_noop_left(x as int, pow2(n as nat) as int, two_pow_128());
}

/// The pattern with only bit `k` set is `2^k`.
pub proof fn lemma_one_shl(k: u8)
    requires
        k < 128,
    ensures
        1u128 << k == pow2(k as nat),
        1 <= pow2(k as nat) <= two_pow_127(),
{
    lemma_shl_unsigned(1, k);
    lemma_pow2_below_width(k as nat);
    lemma_small_mod(pow2(k as nat), two_pow_128() as nat);
}

/// Clearing in `a` the set bits of `b`, all of which `a` has, subtracts `b`.
proof fn lemma_xor_of_subset(a: u128, b: u128)
    by (bit_vector)
    requires
        b & !a == 0,
    ensures
        a ^ b == a - b,
        b <= a,
{
}

/// The `k` low bits of a pattern are what is left when the bits from
/// position `k` upwards are cleared.
proof fn lemma_low_bits_split(x: u128, k: u8)
    by (bit_vector)
    requires
        k < 128,
    ensures
        ((x >> k) << k) & !x == 0,
        x & !(0xffff_ffff_ffff_ffff_ffff_ffff_ffff_ffffu128 << k) == x ^ ((x >> k) << k),
{
}

/// The mask of the `k` low bits is one less than the pattern with bit `k` set.
proof fn lemma_mask_bits(k: u8)
    by (bit_vector)
    requires
        k < 128,
    ensures
        !(0xffff_ffff_ffff_ffff_ffff_ffff_ffff_ffffu128 << k) == (1u128 << k) - 1,
{
}

/// Masking an unsigned pattern with the `k` low bits reduces it modulo `2^k`.
pub proof fn lemma_and_low_mask_unsigned(x: u128, k: u8)
    requires
        k < 128,
    ensures
        x & (((1u128 << k) - 1) as u128) == x as int % (pow2(k as nat) as int),
{
    let d = pow2(k as nat) as int;
    lemma_one_shl(k);
    let mask: u128 = ((1u128 << k) - 1) as u128;
    let high: u128 = x >> k;
    lemma_mask_bits(k);
    lemma_low_bits_split(x, k);
    lemma_xor_of_subset(x, high << k);
    lemma_shr_unsigned(x, k);
    lemma_shl_unsigned(high, k);
    lemma_fundamental_div_mod(x as int, d);
    lemma_mod_pos_bound(x as int, d);
    assert(high * d == d * high) by (nonlinear_arith);
    lemma_small_mod((high * d) as nat, two_pow_128() as nat);
}

/// Masking a two's-complement pattern with the `k` low bits reduces it
/// modulo `2^k`; the result is never negative.
pub proof fn lemma_and_low_mask_signed(x: i128, k: u8)
    requires
        k < 128,
    ensures
        x & (((1u128 << k) - 1) as i128) == x as int % (pow2(k as nat) as int),
{
    let d = pow2(k as nat) as int;
    lemma_one_shl(k);
    let mask: u128 = ((1u128 << k) - 1) as u128;
    let u: u128 = x as u128;
    assert(x & (mask as i128) == u & mask) by (bit_vector)
        requires
            mask < 0x8000_0000_0000_0000_0000_0000_0000_0000u128,
            u == x as u128,
    ;
    lemma_signed_as_unsigned(x);
    lemma_and_low_mask_unsigned(u, k);
    lemma_pow2_adds(k as nat, (128 - k) as nat);
    lemma_pow2_below_width((128 - k) as nat);
    lemma_mod_mod(x as int, d, pow2((128 - k) as nat) as int);
}

} // verus!
