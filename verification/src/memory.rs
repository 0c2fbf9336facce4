//! Memory sizes: a raw byte count becomes the power of two, in gigabytes, that is
//! nearest to it on the logarithmic scale, and never less than 2.

use vstd::arithmetic::power2::{
    lemma2_to64, lemma2_to64_rest, lemma_pow2_adds, lemma_pow2_strictly_increases,
    lemma_pow2_unfold, pow2,
};
use vstd::prelude::*;

verus! {

/// Bytes in one gigabyte, `2^30`.
pub const BYTES_PER_GB: u64 = 1073741824;

/// `e` is the exponent that `bytes` normalises to.
///
/// With `gb = bytes / 2^30` as a real number, rounding `log2(gb)` to the nearest
/// integer gives `e` exactly when `2^(e - 1/2) <= gb < 2^(e + 1/2)`. Squared and
/// scaled to bytes this reads `2^(2e + 59) <= bytes^2 < 2^(2e + 61)`, which needs no
/// fractions. (A tie, `log2(gb) == e + 1/2`, would need `gb` to be `2^e` times the
/// square root of two, which no quotient of integers is: how ties round does not
/// matter.)
/// The exponent is clamped from below to 1, so for `e == 1` the lower bound is
/// dropped: zero bytes and everything short of `2^(3/2)` GB belong to `e == 1`.
pub open spec fn is_gb_exponent(bytes: nat, e: nat) -> bool {
    &&& e >= 1
    &&& (e == 1 || pow2(2 * e + 59) <= bytes * bytes)
    &&& bytes * bytes < pow2(2 * e + 61)
}

/// The exponent that `bytes` normalises to: `max(1, round(log2(bytes / 2^30)))`.
pub open spec fn gb_exponent(bytes: nat) -> nat {
    choose|e: nat| is_gb_exponent(bytes, e)
}

/// The normalised size in gigabytes of a memory of `bytes` bytes.
pub open spec fn normalized_gb(bytes: nat) -> nat {
    pow2(gb_exponent(bytes))
}

/// Every natural number is below the power of two it is the exponent of.
proof fn lemma_below_pow2(n: nat)
    ensures
        n < pow2(n),
    decreases n,
{
    if n == 0 {
        lemma2_to64();
    } else {
        lemma_below_pow2((n - 1) as nat);
        lemma_pow2_unfold(n);
    }
}

/// At most one exponent fits a byte count.
pub proof fn lemma_gb_exponent_unique(bytes: nat, e1: nat, e2: nat)
    requires
        is_gb_exponent(bytes, e1),
        is_gb_exponent(bytes, e2),
    ensures
        e1 == e2,
{
    if e1 < e2 {
        if 2 * e1 + 61 < 2 * e2 + 59 {
            lemma_pow2_strictly_increases(2 * e1 + 61, 2 * e2 + 59);
        }
    } else if e2 < e1 {
        if 2 * e2 + 61 < 2 * e1 + 59 {
            lemma_pow2_strictly_increases(2 * e2 + 61, 2 * e1 + 59);
        }
    }
}

/// Searching upwards from an exponent whose lower bound holds finds one that fits.
proof fn lemma_gb_exponent_search(bytes: nat, e: nat)
    requires
        e >= 1,
        e == 1 || pow2(2 * e + 59) <= bytes * bytes,
    ensures
        exists|k: nat| is_gb_exponent(bytes, k),
    decreases bytes * bytes - 2 * e,
{
    if bytes * bytes < pow2(2 * e + 61) {
        assert(is_gb_exponent(bytes, e));
    } else {
        lemma_below_pow2(2 * e + 61);
        lemma_gb_exponent_search(bytes, e + 1);
    }
}

/// Every byte count has its exponent, and `gb_exponent` is that one.
pub proof fn lemma_gb_exponent_fits(bytes: nat)
    ensures
        is_gb_exponent(bytes, gb_exponent(bytes)),
{
    lemma_gb_exponent_search(bytes, 1);
}

/// The normalised size is a power of two with an exponent of at least 1, and so
/// at least 2.
pub proof fn lemma_normalized_is_power_of_two(bytes: nat)
    ensures
        exists|e: nat| e >= 1 && normalized_gb(bytes) == pow2(e),
        normalized_gb(bytes) >= 2,
{
    lemma_gb_exponent_fits(bytes);
    let e = gb_exponent(bytes);
    assert(e >= 1 && normalized_gb(bytes) == pow2(e));
    lemma2_to64();
    if e > 1 {
        lemma_pow2_strictly_increases(1, e);
    }
}

/// Normalising is idempotent: a normalised size, scaled back to bytes, normalises
/// to itself.
pub proof fn lemma_normalize_idempotent(bytes: nat)
    ensures
        normalized_gb(normalized_gb(bytes) * BYTES_PER_GB as nat) == normalized_gb(bytes),
{
    lemma_gb_exponent_fits(bytes);
    let e = gb_exponent(bytes);
    let scaled = normalized_gb(bytes) * BYTES_PER_GB as nat;
    lemma2_to64();
    assert(BYTES_PER_GB as nat == pow2(30));
    lemma_pow2_adds(e, 30);
    assert(scaled == pow2(e + 30));
    lemma_pow2_adds(e + 30, e + 30);
    assert(scaled * scaled == pow2(2 * e + 60));
    lemma_pow2_strictly_increases(2 * e + 59, 2 * e + 60);
    lemma_pow2_strictly_increases(2 * e + 60, 2 * e + 61);
    assert(is_gb_exponent(scaled, e));
    lemma_gb_exponent_fits(scaled);
    lemma_gb_exponent_unique(scaled, e, gb_exponent(scaled));
}

/// Rounds a byte count to the nearest power of two in gigabytes, at least 2.
pub fn bytes_to_gb(bytes: u64) -> (gb: u64)
    ensures
        gb == normalized_gb(bytes as nat),
        2 <= gb <= 0x4_0000_0000,
{
    let wide: u128 = bytes as u128;
    proof {
        lemma2_to64();
        lemma2_to64_rest();
        lemma_pow2_adds(64, 64);
        lemma_pow2_adds(63, 64);
        assert(wide * wide < 0x1_0000_0000_0000_0000 * 0x1_0000_0000_0000_0000) by (nonlinear_arith)
            requires
                0 <= wide < 0x1_0000_0000_0000_0000,
        ;
        assert(pow2(128) == 0x1_0000_0000_0000_0000 * 0x1_0000_0000_0000_0000);
    }
    let sq: u128 = wide * wide;
    let mut e: u32 = 1;
    let mut gb: u64 = 2;
    let mut bound: u128 = 0x8000_0000_0000_0000;
    while e < 34 && sq >= bound
        invariant
            1 <= e <= 34,
            sq == (bytes as nat) * (bytes as nat),
            sq < pow2(128),
            gb == pow2(e as nat),
            e < 34 ==> bound == pow2(2 * (e as nat) + 61),
            e == 1 || pow2(2 * (e as nat) + 59) <= sq,
        decreases 34 - e,
    {
        proof {
            lemma_pow2_unfold((e + 1) as nat);
            lemma2_to64();
            lemma2_to64_rest();
            if e < 33 {
                lemma_pow2_strictly_increases((e + 1) as nat, 34);
            }
            lemma_pow2_adds(2, 2 * (e as nat) + 61);
            lemma_pow2_adds(63, 64);
            if 2 * (e as nat) + 63 < 127 {
                lemma_pow2_strictly_increases(2 * (e as nat) + 63, 127);
            }
        }
        e = e + 1;
        gb = gb * 2;
        if e < 34 {
            bound = bound * 4;
        }
    }
    proof {
        lemma2_to64();
        lemma_pow2_strictly_increases(128, 129);
        if e > 1 {
            lemma_pow2_strictly_increases(1, e as nat);
        }
        if e < 34 {
            lemma_pow2_strictly_increases(e as nat, 34);
        }
        assert(is_gb_exponent(bytes as nat, e as nat));
        lemma_gb_exponent_fits(bytes as nat);
        lemma_gb_exponent_unique(bytes as nat, e as nat, gb_exponent(bytes as nat));
    }
    gb
}

} // verus!
