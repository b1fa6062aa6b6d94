//! Order and range tests on IEEE-754 encodings, in integer arithmetic.
//!
//! The encodings of the non-negative numbers and of positive infinity are
//! ordered as the numbers are, which lets a count be compared with an
//! encoded real without decoding it.

use vstd::prelude::*;

verus! {

/// The binary64 encoding of positive infinity. Every encoding above it,
/// up to the sign bit, is a NaN.
pub const BINARY64_INFINITY: u64 = 0x7ff0_0000_0000_0000;

/// The binary64 encoding of negative zero: the sign bit alone.
pub const BINARY64_NEGATIVE_ZERO: u64 = 0x8000_0000_0000_0000;

/// The binary32 encoding of positive infinity.
pub const BINARY32_INFINITY: u32 = 0x7f80_0000;

/// The binary32 encoding of 100.
pub const BINARY32_HUNDRED: u32 = 0x42c8_0000;

/// Two to the power `e`.
pub open spec fn exp2(e: nat) -> nat
    decreases e,
{
    if e == 0 {
        1
    } else {
        2 * exp2((e - 1) as nat)
    }
}

/// The exponent of the highest power of two that is not above `n`
/// (0 for `n <= 1`).
pub open spec fn floor_log2(n: nat) -> nat
    decreases n,
{
    if n <= 1 {
        0
    } else {
        1 + floor_log2(n / 2)
    }
}

/// The binary64 encoding of the whole number `n`, for `n` below two to the
/// power 53: zero is all zeros; otherwise the exponent field holds 1023
/// plus the exponent `e` of the leading bit, and the 52 fraction bits
/// hold what is left of `n` below that bit, shifted to the top.
pub open spec fn binary64_of_count(n: nat) -> int {
    if n == 0 {
        0
    } else {
        let e = floor_log2(n);
        (1023 + e) * exp2(52) + (n - exp2(e)) * exp2((52 - e) as nat)
    }
}

/// `exp2` of a sum is the product.
pub proof fn lemma_exp2_add(a: nat, b: nat)
    ensures
        exp2(a + b) == exp2(a) * exp2(b),
    decreases a,
{
    if a == 0 {
        assert(exp2(0 + b) == 1 * exp2(b));
    } else {
        lemma_exp2_add((a - 1) as nat, b);
        assert(exp2(a + b) == 2 * exp2((a - 1 + b) as nat));
        assert(2 * (exp2((a - 1) as nat) * exp2(b)) == (2 * exp2((a - 1) as nat)) * exp2(b))
            by (nonlinear_arith);
    }
}

/// A number between two neighbouring powers of two has the lower one's
/// exponent as its `floor_log2`.
pub proof fn lemma_floor_log2_between(n: nat, e: nat)
    requires
        exp2(e) <= n < 2 * exp2(e),
    ensures
        floor_log2(n) == e,
    decreases e,
{
    if e == 0 {
    } else {
        assert(exp2(e) == 2 * exp2((e - 1) as nat));
        lemma_floor_log2_between(n / 2, (e - 1) as nat);
    }
}

/// The powers of two that the encodings are built from.
pub proof fn lemma_exp2_values()
    ensures
        exp2(31) == 0x8000_0000,
        exp2(52) == 0x10_0000_0000_0000,
{
    assert(exp2(4) == 16) by {
        reveal_with_fuel(exp2, 5);
    }
    lemma_exp2_add(4, 4);
    assert(exp2(8) == 0x100);
    lemma_exp2_add(8, 8);
    assert(exp2(16) == 0x1_0000);
    lemma_exp2_add(16, 16);
    assert(exp2(32) == 0x1_0000_0000);
    assert(exp2(32) == 2 * exp2(31));
    lemma_exp2_add(32, 16);
    assert(exp2(48) == 0x1_0000_0000_0000);
    lemma_exp2_add(48, 4);
}

/// Every power of two is positive.
pub proof fn lemma_exp2_positive(e: nat)
    ensures
        exp2(e) >= 1,
    decreases e,
{
    if e > 0 {
        lemma_exp2_positive((e - 1) as nat);
    }
}

/// The binary64 encoding of `n` as a real number.
pub fn encode_count(n: u32) -> (bits: u64)
    ensures
        bits == binary64_of_count(n as nat),
        bits <= BINARY64_INFINITY,
{
    proof {
        lemma_exp2_values();
    }
    if n == 0 {
        return 0;
    }
    let wide: u64 = n as u64;
    let mut e: u64 = 0;
    let mut top: u64 = 1;
    let mut scale: u64 = 0x10_0000_0000_0000;
    while top * 2 <= wide
        invariant
            wide == n,
            e <= 31,
            top == exp2(e as nat),
            1 <= top <= wide,
            scale == exp2((52 - e) as nat),
            top * scale == 0x10_0000_0000_0000,
            wide <= u32::MAX,
        decreases wide - top,
    {
        proof {
            assert(e < 31) by {
                if e == 31 {
                    lemma_exp2_values();
                }
            }
            assert(exp2((52 - e) as nat) == 2 * exp2((52 - e - 1) as nat));
            lemma_exp2_positive((52 - e - 1) as nat);
            assert((top * 2) * (scale / 2) == top * scale) by (nonlinear_arith)
                requires
                    scale % 2 == 0,
            ;
        }
        top = top * 2;
        scale = scale / 2;
        e = e + 1;
    }
    proof {
        lemma_floor_log2_between(n as nat, e as nat);
        lemma_exp2_positive((52 - e) as nat);
        assert((wide - top) * scale < top * scale) by (nonlinear_arith)
            requires
                wide - top < top,
                scale > 0,
        ;
        assert((1023 + e) * 0x10_0000_0000_0000 <= 1054 * 0x10_0000_0000_0000) by (nonlinear_arith)
            requires
                e <= 31,
        ;
    }
    (1023 + e) * 0x10_0000_0000_0000 + (wide - top) * scale
}

/// Whether the real number that `bits` encodes in binary64 is at least
/// the whole number `count`. A NaN is at least nothing; both zeros are at
/// least zero.
pub open spec fn at_least(bits: u64, count: u32) -> bool {
    ||| binary64_of_count(count as nat) <= bits <= BINARY64_INFINITY
    ||| (count == 0 && bits == BINARY64_NEGATIVE_ZERO)
}

/// The encoding of a count lies among those of the finite non-negative
/// numbers, so a count is at least itself.
pub proof fn lemma_count_reaches_itself(count: u32)
    ensures
        0 <= binary64_of_count(count as nat) < BINARY64_INFINITY,
        at_least(binary64_of_count(count as nat) as u64, count),
{
    lemma_exp2_values();
    if count > 0 {
        let n = count as nat;
        let e = floor_log2(n);
        lemma_floor_log2_bounds(n);
        lemma_exp2_add(e, (52 - e) as nat);
        lemma_exp2_positive((52 - e) as nat);
        assert(0 <= (n - exp2(e)) * exp2((52 - e) as nat) < exp2(e) * exp2((52 - e) as nat))
            by (nonlinear_arith)
            requires
                0 <= n - exp2(e) < exp2(e),
                exp2((52 - e) as nat) >= 1,
        ;
        assert((1023 + e) * exp2(52) <= 1054 * exp2(52)) by (nonlinear_arith)
            requires
                e <= 31,
        ;
    }
}

/// A positive number lies between the power of two of its `floor_log2`
/// and the next one; below two to the power 32 the exponent is below 32.
pub proof fn lemma_floor_log2_bounds(n: nat)
    requires
        n >= 1,
    ensures
        exp2(floor_log2(n)) <= n < 2 * exp2(floor_log2(n)),
        n < 0x1_0000_0000 ==> floor_log2(n) <= 31,
    decreases n,
{
    if n > 1 {
        lemma_floor_log2_bounds(n / 2);
        let e = floor_log2(n / 2);
        assert(exp2(e + 1) == 2 * exp2(e));
        if n < 0x1_0000_0000 && e + 1 > 31 {
            lemma_exp2_values();
            lemma_exp2_monotone(31, e);
        }
    }
}

/// A larger exponent gives a power of two that is not smaller.
pub proof fn lemma_exp2_monotone(a: nat, b: nat)
    requires
        a <= b,
    ensures
        exp2(a) <= exp2(b),
    decreases b,
{
    if a < b {
        lemma_exp2_monotone(a, (b - 1) as nat);
    }
}

/// Compares an encoded real with a whole number.
pub fn reaches(bits: u64, count: u32) -> (out: bool)
    ensures
        out == at_least(bits, count),
{
    let threshold: u64 = encode_count(count);
    (threshold <= bits && bits <= BINARY64_INFINITY) || (count == 0 && bits
        == BINARY64_NEGATIVE_ZERO)
}

/// A binary32 encoding brought into the range from 0 to 100: what lies in
/// the range stays, what lies above it (positive infinity too) becomes
/// 100, and everything else (negative numbers, NaN) becomes 0.
pub open spec fn clamped_percent(bits: u32) -> u32 {
    if bits <= BINARY32_HUNDRED {
        bits
    } else if bits <= BINARY32_INFINITY {
        BINARY32_HUNDRED
    } else {
        0
    }
}

/// Clamps an encoded real to the range from 0 to 100.
pub fn clamp_percent(bits: u32) -> (out: u32)
    ensures
        out == clamped_percent(bits),
        out <= BINARY32_HUNDRED,
{
    if bits <= BINARY32_HUNDRED {
        bits
    } else if bits <= BINARY32_INFINITY {
        BINARY32_HUNDRED
    } else {
        0
    }
}

} // verus!
