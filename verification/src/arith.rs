//! Integer arithmetic that the statistics need beyond what fits in a machine
//! word: rounded division, and a product divided without overflow.

use vstd::prelude::*;
use vstd::arithmetic::power2::{lemma2_to64, lemma2_to64_rest, pow2};

verus! {

/// `num / den`, rounded to the nearest integer, a tie to the even one.
pub open spec fn round_half_even(num: nat, den: nat) -> nat {
    let q = num / den;
    let r = num % den;
    if 2 * r < den || (2 * r == den && q % 2 == 0) {
        q
    } else {
        q + 1
    }
}

/// `n`, or `u128::MAX` where `n` is above it.
pub open spec fn capped(n: nat) -> u128 {
    if n > u128::MAX {
        u128::MAX
    } else {
        n as u128
    }
}

/// `a * b / c`, rounded down.
pub open spec fn mul_div(a: nat, b: nat, c: nat) -> nat {
    a * b / c
}

/// Rounds `num / den` to the nearest integer, a tie to the even one.
pub fn div_round_half_even(num: u128, den: u128) -> (q: u128)
    requires
        den > 0,
        num / den < u128::MAX,
    ensures
        q == round_half_even(num as nat, den as nat),
{
    let q = num / den;
    let r = num % den;
    // 2 * r against den, without the product
    let rest = den - r;
    if r < rest || (r == rest && q % 2 == 0) {
        q
    } else {
        q + 1
    }
}

/// `rem * b / c` for `rem < c`, by one doubling for each bit of `b`, so that
/// nothing larger than `c` is ever held.
fn mul_div_small(rem: u128, b: u64, c: u128) -> (q: u128)
    requires
        rem < c,
    ensures
        q == mul_div(rem as nat, b as nat, c as nat),
        q <= b,
{
    let mut quotient: u128 = 0;
    let mut rest: u128 = 0;
    // the bits of b that are still to come, kept at the top of 64 bits
    let mut pending: u128 = b as u128;
    let mut high: u128 = 0;
    let mut done: u32 = 0;
    let ghost mut weight: int = 1;
    proof {
        lemma2_to64();
    }
    while done < 64
        invariant
            rem < c,
            done <= 64,
            weight == pow2(done as nat),
            weight >= 1,
            b * weight == high * 0x1_0000_0000_0000_0000 + pending,
            pending < 0x1_0000_0000_0000_0000,
            quotient * c + rest == rem * high,
            rest < c,
            quotient <= high,
            high < weight,
        decreases 64 - done,
    {
        let ghost old_high = high as int;
        let ghost old_quotient = quotient as int;
        let ghost old_rest = rest as int;
        proof {
            assert(pow2((done + 1) as nat) == 2 * pow2(done as nat)) by {
                vstd::arithmetic::power2::lemma_pow2_unfold((done + 1) as nat);
            }
            vstd::arithmetic::power2::lemma_pow2_strictly_increases(done as nat, 64);
            lemma2_to64_rest();
            assert(b * (2 * weight) == 2 * (b * weight)) by (nonlinear_arith);
        }
        // the next bit of b
        pending = pending * 2;
        let bit = pending >= 0x1_0000_0000_0000_0000;
        if bit {
            pending = pending - 0x1_0000_0000_0000_0000;
        }
        // twice what is held
        if rest >= c - rest {
            rest = rest - (c - rest);
            quotient = quotient * 2 + 1;
        } else {
            rest = rest + rest;
            quotient = quotient * 2;
        }
        high = high * 2;
        assert(quotient * c + rest == rem * high) by (nonlinear_arith)
            requires
                old_quotient * c + old_rest == rem * old_high,
                high == 2 * old_high,
                (quotient == 2 * old_quotient + 1 && rest == 2 * old_rest - c) || (quotient == 2
                    * old_quotient && rest == 2 * old_rest),
        ;
        if bit {
            let ghost mid_quotient = quotient as int;
            let ghost mid_rest = rest as int;
            let ghost mid_high = high as int;
            if rest >= c - rem {
                rest = rest - (c - rem);
                quotient = quotient + 1;
            } else {
                rest = rest + rem;
            }
            high = high + 1;
            assert(quotient * c + rest == rem * high) by (nonlinear_arith)
                requires
                    mid_quotient * c + mid_rest == rem * mid_high,
                    high == mid_high + 1,
                    (quotient == mid_quotient + 1 && rest == mid_rest + rem - c) || (quotient
                        == mid_quotient && rest == mid_rest + rem),
            ;
        }
        assert(quotient <= high) by (nonlinear_arith)
            requires
                quotient * c + rest == rem * high,
                rem < c,
                0 <= rest,
                0 <= high,
                0 <= quotient,
        ;
        done = done + 1;
        proof {
            weight = 2 * weight;
        }
    }
    assert(high == b) by {
        lemma2_to64();
        assert(weight == 0x1_0000_0000_0000_0000);
        assert(b * weight == b * 0x1_0000_0000_0000_0000);
    }
    assert(quotient == (rem * b) / (c as int)) by (nonlinear_arith)
        requires
            quotient * c + rest == rem * b,
            0 <= rest < c,
    ;
    quotient
}

/// `a * b / c`, rounded down and capped at `u128::MAX`, for every `a`, `b`
/// and positive `c`: the product itself is never formed.
pub fn mul_div_capped(a: u128, b: u64, c: u128) -> (q: u128)
    requires
        c > 0,
    ensures
        q == capped(mul_div(a as nat, b as nat, c as nat)),
{
    let whole = a / c;
    let rem = a % c;
    let low = mul_div_small(rem, b, c);
    proof {
        assert((whole * c + rem) * b == (whole * b) * c + rem * b) by (nonlinear_arith);
        assert(((whole * b) * c + rem * b) / (c as int) == whole * b + (rem * b) / (c as int))
            by (nonlinear_arith)
            requires
                c > 0,
        ;
        assert(whole * b >= 0) by (nonlinear_arith)
            requires
                whole >= 0,
                b >= 0,
        ;
        assert(a == whole * c + rem) by {
            vstd::arithmetic::div_mod::lemma_fundamental_div_mod(a as int, c as int);
            assert(c * whole == whole * c) by (nonlinear_arith);
        }
        assert(a * b == (whole * c + rem) * b);
        assert(mul_div(a as nat, b as nat, c as nat) == whole * b + low);
    }
    match whole.checked_mul(b as u128) {
        None => u128::MAX,
        Some(high) => match high.checked_add(low) {
            None => u128::MAX,
            Some(q) => q,
        },
    }
}

} // verus!
