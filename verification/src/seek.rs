use vstd::prelude::*;
use vstd::arithmetic::power2::{pow2, lemma_pow2_pos, lemma_pow2_unfold, lemma_pow2_adds, lemma_pow2_strictly_increases, lemma2_to64, lemma2_to64_rest};
use vstd::arithmetic::div_mod::{lemma_div_multiples_vanish_quotient, lemma_fundamental_div_mod_converse};
use crate::binary32::{Binary32, unit, lemma_magnitude_order, lemma_magnitude_zero, lemma_range_ends, SIGN_BIT, HIDDEN_BIT, ONE_BITS};
use crate::scaling::round_div;

verus! {

/// The second to seek to: the duration times the seek fraction, rounded to
/// the nearest whole second.
pub open spec fn seek_seconds(duration_secs: u64, seek_percentage: Binary32) -> nat {
    round_div(duration_secs as nat * seek_percentage.magnitude(), unit())
}

/// The second handed to the decoder: `seek_seconds`, held at the end of the
/// signed range where it would not fit.
pub open spec fn seek_target_of(duration_secs: u64, seek_percentage: Binary32) -> i64 {
    if seek_seconds(duration_secs, seek_percentage) <= i64::MAX {
        seek_seconds(duration_secs, seek_percentage) as i64
    } else {
        i64::MAX
    }
}

/// `2^k` as a machine number.
fn power_of_two(k: u32) -> (p: u128)
    requires
        k <= 100,
    ensures
        p == pow2(k as nat),
{
    let mut p: u128 = 1;
    let mut i: u32 = 0;
    proof {
        lemma2_to64();
    }
    while i < k
        invariant
            i <= k,
            k <= 100,
            p == pow2(i as nat),
        decreases k - i,
    {
        proof {
            lemma_pow2_unfold((i + 1) as nat);
            lemma_pow2_bound(i as nat);
        }
        p = p * 2;
        i = i + 1;
    }
    p
}

/// Powers of two up to the hundredth stay below `2^101`.
proof fn lemma_pow2_bound(k: nat)
    requires
        k <= 100,
    ensures
        pow2(k) <= 0x10_0000_0000_0000_0000_0000_0000,
{
    lemma2_to64();
    lemma2_to64_rest();
    lemma_pow2_adds(64, 36);
    assert(pow2(100) == 0x10_0000_0000_0000_0000_0000_0000) by {
        assert(pow2(64) == 0x1_0000_0000_0000_0000);
        assert(pow2(36) == 0x10_0000_0000);
        assert(0x1_0000_0000_0000_0000int * 0x10_0000_0000int == 0x10_0000_0000_0000_0000_0000_0000int);
    }
    if k < 100 {
        lemma_pow2_strictly_increases(k, 100);
    }
}

/// Computes the second to seek to for a stream of `duration_secs` seconds.
/// The product is taken exactly and rounded once; a result that does not fit
/// the signed range is held at its end.
pub fn seek_target(duration_secs: u64, seek_percentage: Binary32) -> (target: i64)
    requires
        seek_percentage.is_fraction(),
    ensures
        target == seek_target_of(duration_secs, seek_percentage),
        0 <= target <= duration_secs,
{
    let magnitude_bits: u32 = seek_percentage.bits % SIGN_BIT;
    let exponent: u32 = magnitude_bits / HIDDEN_BIT;
    let fraction: u32 = magnitude_bits % HIDDEN_BIT;
    let ghost d = duration_secs as nat;
    let ghost one = Binary32 { bits: ONE_BITS };
    proof {
        lemma_range_ends();
        lemma_magnitude_order(one, seek_percentage);
        lemma_seek_seconds_bound(duration_secs, seek_percentage);
        lemma2_to64();
        lemma_pow2_adds(64, 24);
        lemma_pow2_adds(64, 26);
    }
    assert(magnitude_bits <= ONE_BITS);
    assert(exponent <= 127);
    if exponent == 0 {
        proof {
            let f = fraction as nat;
            assert(seek_percentage.magnitude() == f);
            lemma_pow2_strictly_increases(90, 149);
            assert(2 * (d * f) < pow2(90)) by (nonlinear_arith)
                requires
                    d < 0x1_0000_0000_0000_0000,
                    f < 0x80_0000,
                    pow2(90) == 0x1_0000_0000_0000_0000 * 0x400_0000,
            ;
            lemma_fundamental_div_mod_converse(
                (2 * (d * f) + unit()) as int,
                (2 * unit()) as int,
                0,
                (2 * (d * f) + unit()) as int,
            );
        }
        return 0;
    }
    let shift: u32 = 150 - exponent;
    let significand: u128 = (HIDDEN_BIT as u128) + (fraction as u128);
    assert((duration_secs as u128) * significand < 0x100_0000_0000_0000_0000_0000) by (nonlinear_arith)
        requires
            duration_secs < 0x1_0000_0000_0000_0000,
            significand < 0x100_0000,
    ;
    let product: u128 = (duration_secs as u128) * significand;
    let ghost low = pow2((exponent - 1) as nat);
    let ghost high = pow2(shift as nat);
    proof {
        lemma_pow2_adds((exponent - 1) as nat, shift as nat);
        lemma_pow2_pos((exponent - 1) as nat);
        lemma_pow2_pos(shift as nat);
        assert(unit() == low * high);
        assert(seek_percentage.magnitude() == significand * low);
        // Both terms of the quotient share the factor `low`.
        assert(2 * (d * (significand * low)) + low * high == low * (2 * product + high)) by (nonlinear_arith)
            requires
                product == d * significand,
        ;
        assert(2 * (low * high) == low * (2 * high)) by (nonlinear_arith);
        lemma_div_multiples_vanish_quotient(low as int, (2 * product + high) as int, (2 * high) as int);
        assert(seek_seconds(duration_secs, seek_percentage) == (2 * product + high) as int / (2 * high) as int);
    }
    if shift > 90 {
        proof {
            lemma_pow2_strictly_increases(90, shift as nat);
            lemma_fundamental_div_mod_converse(
                (2 * product + high) as int,
                (2 * high) as int,
                0,
                (2 * product + high) as int,
            );
        }
        return 0;
    }
    let scale: u128 = power_of_two(shift);
    proof {
        lemma_pow2_bound(shift as nat);
    }
    let rounded: u128 = (2 * product + scale) / (2 * scale);
    if rounded > i64::MAX as u128 {
        i64::MAX
    } else {
        rounded as i64
    }
}

/// The seek target never lies beyond the end of the stream.
pub proof fn lemma_seek_seconds_bound(duration_secs: u64, seek_percentage: Binary32)
    requires
        seek_percentage.is_fraction(),
    ensures
        seek_seconds(duration_secs, seek_percentage) <= duration_secs,
{
    lemma_range_ends();
    lemma_pow2_pos(149);
    let d = duration_secs as nat;
    let m = seek_percentage.magnitude();
    assert(m <= unit());
    assert(d * m <= unit() * d) by (nonlinear_arith)
        requires
            m <= unit(),
    ;
    crate::scaling::lemma_round_div_bound(d * m, unit(), d);
}

/// A seek fraction of zero seeks to the start, whatever the duration.
pub proof fn lemma_seek_start(duration_secs: u64, seek_percentage: Binary32)
    requires
        seek_percentage.bits % SIGN_BIT == 0,
    ensures
        seek_percentage.is_fraction(),
        seek_seconds(duration_secs, seek_percentage) == 0,
{
    lemma_range_ends();
    lemma_magnitude_zero(seek_percentage);
    lemma_pow2_pos(149);
    assert(duration_secs as nat * 0 == 0);
    lemma_fundamental_div_mod_converse(unit() as int, (2 * unit()) as int, 0, unit() as int);
}

/// A seek fraction of one seeks to the last whole second of the stream.
pub proof fn lemma_seek_end(duration_secs: u64)
    ensures
        (Binary32 { bits: ONE_BITS }).is_fraction(),
        seek_seconds(duration_secs, Binary32 { bits: ONE_BITS }) == duration_secs,
{
    lemma_range_ends();
    lemma_pow2_pos(149);
    let d = duration_secs as int;
    let u = unit() as int;
    assert(2 * (d * u) + u == (2 * u) * d + u) by (nonlinear_arith);
    lemma_fundamental_div_mod_converse(2 * (d * u) + u, 2 * u, d, u);
}

} // verus!
