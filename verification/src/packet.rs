//! The packet sizing engine.
//!
//! [`calc_packet`] returns the amount for the next packet drawn from a
//! distribution unit, given the funds left, the packets left (including the
//! one being sized), the unit's original shape and a host-supplied entropy
//! word.  Every arithmetic step that could overflow the signed 64-bit range
//! saturates, and every division rounds as documented.  The function is a
//! pure function of its arguments; [`calc_packet_spec`] is its exact
//! mathematical model.

use crate::constants::{
    DENSE_PACKET_THRESHOLD, DENSE_VOLATILITY_HIGH_BPS, DENSE_VOLATILITY_LOW_BPS,
    MAX_SINGLE_PACKET_AVG_BPS, MAX_SINGLE_PACKET_BPS, MEDIUM_PACKET_THRESHOLD,
    MEDIUM_VOLATILITY_HIGH_BPS, MEDIUM_VOLATILITY_LOW_BPS, MIN_PER_PACKET, PERCENT_BASE,
    SPARSE_VOLATILITY_HIGH_BPS, SPARSE_VOLATILITY_LOW_BPS,
};
use vstd::prelude::*;

verus! {

/// Clamp a mathematical integer to the representable `i64` extremes.
pub open spec fn sat_i64(x: int) -> i64 {
    if x > i64::MAX {
        i64::MAX
    } else if x < i64::MIN {
        i64::MIN
    } else {
        x as i64
    }
}

/// Saturating ceiling division; zero on non-positive inputs.
pub open spec fn ceiling_div_spec(numerator: i64, denominator: i64) -> i64 {
    if denominator <= 0 || numerator <= 0 {
        0
    } else {
        sat_i64(sat_i64(numerator + denominator - 1) as int / denominator as int)
    }
}

/// Saturating product of two positive factors; zero otherwise.
pub open spec fn mul_clamp_spec(a: i64, b: i64) -> i64 {
    if a <= 0 || b <= 0 {
        0
    } else {
        sat_i64(a * b)
    }
}

/// Lower edge of the volatility band, in basis points around the
/// dynamic average, keyed by the unit's total packet count.
pub open spec fn volatility_lower_bps_spec(total_packets: i64) -> i64 {
    if total_packets >= DENSE_PACKET_THRESHOLD {
        DENSE_VOLATILITY_LOW_BPS
    } else if total_packets >= MEDIUM_PACKET_THRESHOLD {
        MEDIUM_VOLATILITY_LOW_BPS
    } else {
        SPARSE_VOLATILITY_LOW_BPS
    }
}

/// Upper edge of the volatility band.
pub open spec fn volatility_upper_bps_spec(total_packets: i64) -> i64 {
    if total_packets >= DENSE_PACKET_THRESHOLD {
        DENSE_VOLATILITY_HIGH_BPS
    } else if total_packets >= MEDIUM_PACKET_THRESHOLD {
        MEDIUM_VOLATILITY_HIGH_BPS
    } else {
        SPARSE_VOLATILITY_HIGH_BPS
    }
}

/// Sign-fold a host entropy word to a positive value: the minimum is
/// pinned to the maximum, other negatives are negated, zero becomes one.
pub open spec fn fold_entropy_spec(raw: i64) -> i64 {
    if raw < 0 {
        if raw == i64::MIN {
            i64::MAX
        } else {
            sat_i64(-(raw as int))
        }
    } else if raw == 0 {
        1
    } else {
        raw
    }
}

/// The divisor after `k` clamped multiplications by `range`, used to peel
/// successive samples out of one entropy word.
pub open spec fn divisor_chain(range: i64, k: nat) -> i64
    decreases k,
{
    if k == 0 {
        1
    } else {
        mul_clamp_spec(divisor_chain(range, (k - 1) as nat), range)
    }
}

/// The `j`-th base roll: two successive samples reduced modulo `range`
/// and averaged.
pub open spec fn roll_at(e: i64, range: i64, j: nat) -> int {
    let c1 = (e as int / divisor_chain(range, 2 * j) as int) % (range as int);
    let c2 = (e as int / divisor_chain(range, 2 * j + 1) as int) % (range as int);
    sat_i64(c1 + c2) as int / 2
}

/// Largest roll among the base roll and `trials` extra rolls.
pub open spec fn best_roll(e: i64, range: i64, trials: nat) -> int
    decreases trials,
{
    if trials == 0 {
        roll_at(e, range, 0)
    } else {
        let prev = best_roll(e, range, (trials - 1) as nat);
        let c = roll_at(e, range, trials);
        if c > prev {
            c
        } else {
            prev
        }
    }
}

/// Number of extra sample pairs drawn, keyed by the balance-weighted
/// input; every current caller passes `0`, leaving the branch inert.
pub open spec fn extra_trials_spec(neo_balance: i64) -> nat {
    if neo_balance >= 1000 {
        2
    } else if neo_balance >= 100 {
        1
    } else {
        0
    }
}

/// The most the current packet may take while leaving every later packet
/// at least the per-packet floor.
pub open spec fn feasible_max_spec(remaining_amount: i64, packets_left: i64) -> i64 {
    sat_i64(remaining_amount - sat_i64((packets_left - 1) * MIN_PER_PACKET) as int)
}

/// Exact model of [`calc_packet`].
pub open spec fn calc_packet_spec(
    remaining_amount: i64,
    packets_left: i64,
    neo_balance: i64,
    total_amount: i64,
    total_packets: i64,
    entropy_input: i64,
) -> i64 {
    if remaining_amount <= 0 || packets_left <= 0 || total_amount <= 0 || total_packets <= 0 {
        0
    } else if packets_left == 1 {
        remaining_amount
    } else {
        let feasible_max = feasible_max_spec(remaining_amount, packets_left);
        if feasible_max <= MIN_PER_PACKET {
            MIN_PER_PACKET
        } else {
            let dynamic_average = ceiling_div_spec(remaining_amount, packets_left);
            let lower_band_bps = volatility_lower_bps_spec(total_packets);
            let upper_band_bps = volatility_upper_bps_spec(total_packets);
            let min_scaled = sat_i64(
                mul_clamp_spec(dynamic_average, lower_band_bps) as int / PERCENT_BASE as int,
            );
            let min_for_this = if min_scaled < MIN_PER_PACKET {
                MIN_PER_PACKET
            } else {
                min_scaled
            };
            let max_scaled = ceiling_div_spec(
                mul_clamp_spec(dynamic_average, upper_band_bps),
                PERCENT_BASE,
            );
            let cap_by_percent = ceiling_div_spec(
                mul_clamp_spec(total_amount, MAX_SINGLE_PACKET_BPS),
                PERCENT_BASE,
            );
            let cap_by_average = ceiling_div_spec(
                mul_clamp_spec(dynamic_average, MAX_SINGLE_PACKET_AVG_BPS),
                PERCENT_BASE,
            );
            let hard_raw = if cap_by_percent >= cap_by_average {
                cap_by_percent
            } else {
                cap_by_average
            };
            let hard_cap = if hard_raw < MIN_PER_PACKET {
                MIN_PER_PACKET
            } else {
                hard_raw
            };
            let max_capped = if max_scaled > hard_cap {
                hard_cap
            } else {
                max_scaled
            };
            let max_feasible = if max_capped > feasible_max {
                feasible_max
            } else {
                max_capped
            };
            let min_final = if min_for_this > max_feasible {
                MIN_PER_PACKET
            } else {
                min_for_this
            };
            let max_final = if min_for_this > max_feasible {
                feasible_max
            } else {
                max_feasible
            };
            let range = sat_i64(sat_i64(max_final - min_final) as int + 1);
            if range <= 0 {
                if MIN_PER_PACKET <= feasible_max {
                    MIN_PER_PACKET
                } else {
                    feasible_max
                }
            } else {
                let e = fold_entropy_spec(entropy_input);
                let best = best_roll(e, range, extra_trials_spec(neo_balance));
                let amount = sat_i64(min_final as int + best);
                let amount_floored = if amount < MIN_PER_PACKET {
                    MIN_PER_PACKET
                } else {
                    amount
                };
                if amount_floored > feasible_max {
                    feasible_max
                } else {
                    amount_floored
                }
            }
        }
    }
}

/// Saturating `a + b`.
pub(crate) fn sat_add(a: i64, b: i64) -> (r: i64)
    ensures
        r == sat_i64(a + b),
{
    if b >= 0 {
        if a > i64::MAX - b {
            i64::MAX
        } else {
            a + b
        }
    } else {
        if a < i64::MIN - b {
            i64::MIN
        } else {
            a + b
        }
    }
}

/// Saturating `a - b`.
pub(crate) fn sat_sub(a: i64, b: i64) -> (r: i64)
    ensures
        r == sat_i64(a - b),
{
    if b >= 0 {
        if a < i64::MIN + b {
            i64::MIN
        } else {
            a - b
        }
    } else {
        if a > i64::MAX + b {
            i64::MAX
        } else {
            a - b
        }
    }
}

/// Saturating product of non-negative factors.
pub(crate) fn sat_mul_nonneg(a: i64, b: i64) -> (r: i64)
    requires
        0 <= a,
        0 <= b,
    ensures
        r == sat_i64(a * b),
{
    proof {
        assert(a * b >= 0) by (nonlinear_arith)
            requires
                a >= 0,
                b >= 0,
        ;
    }
    match a.checked_mul(b) {
        Some(v) => v,
        None => i64::MAX,
    }
}

/// Sign-fold a host entropy word to a positive value.
pub(crate) fn fold_entropy(raw: i64) -> (r: i64)
    ensures
        r == fold_entropy_spec(raw),
        1 <= r,
{
    if raw < 0 {
        if raw == i64::MIN {
            i64::MAX
        } else {
            -raw
        }
    } else if raw == 0 {
        1
    } else {
        raw
    }
}

/// Multiply two values, clamping the product of positive factors to the
/// maximum and mapping any non-positive factor to zero.
pub fn mul_clamp_max(a: i64, b: i64) -> (r: i64)
    ensures
        r == mul_clamp_spec(a, b),
        (a >= 1 && b >= 1) ==> r >= 1,
{
    if a <= 0 || b <= 0 {
        return 0;
    }
    proof {
        assert(a * b >= 1) by (nonlinear_arith)
            requires
                a >= 1,
                b >= 1,
        ;
    }
    match a.checked_mul(b) {
        Some(v) => v,
        None => i64::MAX,
    }
}

/// Ceiling division, saturating the intermediate sum; zero on
/// non-positive inputs.
pub fn ceiling_div(numerator: i64, denominator: i64) -> (r: i64)
    ensures
        r == ceiling_div_spec(numerator, denominator),
        0 <= r,
{
    if denominator <= 0 || numerator <= 0 {
        return 0;
    }
    let t = sat_add(numerator, denominator - 1);
    t / denominator
}

/// Lower volatility band edge for a unit with `total_packets` packets.
pub fn volatility_lower_bps(total_packets: i64) -> (r: i64)
    ensures
        r == volatility_lower_bps_spec(total_packets),
{
    if total_packets >= DENSE_PACKET_THRESHOLD {
        DENSE_VOLATILITY_LOW_BPS
    } else if total_packets >= MEDIUM_PACKET_THRESHOLD {
        MEDIUM_VOLATILITY_LOW_BPS
    } else {
        SPARSE_VOLATILITY_LOW_BPS
    }
}

/// Upper volatility band edge for a unit with `total_packets` packets.
pub fn volatility_upper_bps(total_packets: i64) -> (r: i64)
    ensures
        r == volatility_upper_bps_spec(total_packets),
{
    if total_packets >= DENSE_PACKET_THRESHOLD {
        DENSE_VOLATILITY_HIGH_BPS
    } else if total_packets >= MEDIUM_PACKET_THRESHOLD {
        MEDIUM_VOLATILITY_HIGH_BPS
    } else {
        SPARSE_VOLATILITY_HIGH_BPS
    }
}

proof fn lemma_divisor_chain_pos(range: i64, k: nat)
    requires
        range >= 1,
    ensures
        divisor_chain(range, k) >= 1,
    decreases k,
{
    if k > 0 {
        lemma_divisor_chain_pos(range, (k - 1) as nat);
        let p = divisor_chain(range, (k - 1) as nat);
        assert(p * range >= 1) by (nonlinear_arith)
            requires
                p >= 1,
                range >= 1,
        ;
    }
}

/// Size the next packet drawn from a distribution unit.
///
/// `remaining_amount` is what is left in the unit, `packets_left` counts
/// the packet being sized, `total_amount` and `total_packets` describe the
/// unit's original shape, `neo_balance` weights the inert extra-trials
/// hook, and `entropy_input` is the host's raw entropy word for this call.
///
/// Degenerate inputs yield `0`; the last packet takes exactly what
/// remains; otherwise the result stays within the per-packet floor and
/// the feasible maximum whenever that window is non-empty.
pub fn calc_packet(
    remaining_amount: i64,
    packets_left: i64,
    neo_balance: i64,
    total_amount: i64,
    total_packets: i64,
    entropy_input: i64,
) -> (r: i64)
    ensures
        r == calc_packet_spec(
            remaining_amount,
            packets_left,
            neo_balance,
            total_amount,
            total_packets,
            entropy_input,
        ),
        (remaining_amount <= 0 || packets_left <= 0 || total_amount <= 0 || total_packets <= 0)
            ==> r == 0,
        (remaining_amount > 0 && total_amount > 0 && total_packets > 0 && packets_left == 1)
            ==> r == remaining_amount,
        (remaining_amount > 0 && packets_left >= 2 && total_amount > 0 && total_packets > 0
            && feasible_max_spec(remaining_amount, packets_left) <= MIN_PER_PACKET) ==> r
            == MIN_PER_PACKET,
        (remaining_amount > 0 && packets_left >= 2 && total_amount > 0 && total_packets > 0
            && feasible_max_spec(remaining_amount, packets_left) > MIN_PER_PACKET) ==> (
        MIN_PER_PACKET <= r <= feasible_max_spec(remaining_amount, packets_left)),
        0 <= r,
{
    if remaining_amount <= 0 || packets_left <= 0 || total_amount <= 0 || total_packets <= 0 {
        return 0;
    }
    if packets_left == 1 {
        return remaining_amount;
    }
    let min_per_packet = MIN_PER_PACKET;
    let feasible_max = sat_sub(remaining_amount, sat_mul_nonneg(packets_left - 1, min_per_packet));
    if feasible_max <= min_per_packet {
        return min_per_packet;
    }
    let dynamic_average = ceiling_div(remaining_amount, packets_left);
    let lower_band_bps = volatility_lower_bps(total_packets);
    let upper_band_bps = volatility_upper_bps(total_packets);

    let mut min_for_this = mul_clamp_max(dynamic_average, lower_band_bps) / PERCENT_BASE;
    if min_for_this < min_per_packet {
        min_for_this = min_per_packet;
    }

    let mut max_for_this = ceiling_div(mul_clamp_max(dynamic_average, upper_band_bps), PERCENT_BASE);

    let cap_by_percent = ceiling_div(mul_clamp_max(total_amount, MAX_SINGLE_PACKET_BPS), PERCENT_BASE);
    let cap_by_average = ceiling_div(
        mul_clamp_max(dynamic_average, MAX_SINGLE_PACKET_AVG_BPS),
        PERCENT_BASE,
    );
    let mut hard_cap = if cap_by_percent >= cap_by_average {
        cap_by_percent
    } else {
        cap_by_average
    };
    if hard_cap < min_per_packet {
        hard_cap = min_per_packet;
    }

    if max_for_this > hard_cap {
        max_for_this = hard_cap;
    }
    if max_for_this > feasible_max {
        max_for_this = feasible_max;
    }

    if min_for_this > max_for_this {
        min_for_this = min_per_packet;
        max_for_this = feasible_max;
    }

    let range = sat_add(sat_sub(max_for_this, min_for_this), 1);
    if range <= 0 {
        if min_per_packet <= feasible_max {
            return min_per_packet;
        } else {
            return feasible_max;
        }
    }

    let entropy = fold_entropy(entropy_input);
    let ghost spec_range = range;
    let mut divisor: i64 = 1;

    let roll1 = (entropy / divisor) % range;
    divisor = mul_clamp_max(divisor, range);
    let roll2 = (entropy / divisor) % range;
    divisor = mul_clamp_max(divisor, range);
    let mut best: i64 = sat_add(roll1, roll2) / 2;

    proof {
        assert(divisor_chain(spec_range, 0) == 1);
        assert(divisor_chain(spec_range, 1) == mul_clamp_spec(1, spec_range));
        assert(best == roll_at(entropy, spec_range, 0));
    }

    let mut extra_trials: i64 = 0;
    if neo_balance >= 1000 {
        extra_trials = 2;
    } else if neo_balance >= 100 {
        extra_trials = 1;
    }

    let mut i: i64 = 0;
    while i < extra_trials
        invariant
            0 <= i <= extra_trials,
            extra_trials == extra_trials_spec(neo_balance),
            1 <= spec_range,
            spec_range == range,
            1 <= entropy,
            entropy == fold_entropy_spec(entropy_input),
            divisor == divisor_chain(spec_range, (2 * i + 2) as nat),
            1 <= divisor,
            best == best_roll(entropy, spec_range, i as nat),
        decreases extra_trials - i,
    {
        let candidate1 = (entropy / divisor) % range;
        divisor = mul_clamp_max(divisor, range);
        let candidate2 = (entropy / divisor) % range;
        divisor = mul_clamp_max(divisor, range);

        let candidate_roll = sat_add(candidate1, candidate2) / 2;
        proof {
            assert(divisor_chain(spec_range, (2 * i + 3) as nat) == mul_clamp_spec(
                divisor_chain(spec_range, (2 * i + 2) as nat),
                spec_range,
            ));
            assert(divisor_chain(spec_range, (2 * i + 4) as nat) == mul_clamp_spec(
                divisor_chain(spec_range, (2 * i + 3) as nat),
                spec_range,
            ));
            assert(2 * ((i + 1) as nat) == (2 * i + 2) as nat);
            assert(candidate_roll == roll_at(entropy, spec_range, (i + 1) as nat));
        }
        if candidate_roll > best {
            best = candidate_roll;
        }
        proof {
            assert(best == best_roll(entropy, spec_range, (i + 1) as nat));
        }
        i = i + 1;
    }

    let mut amount = sat_add(min_for_this, best);
    if amount < min_per_packet {
        amount = min_per_packet;
    }
    if amount > feasible_max {
        amount = feasible_max;
    }
    amount
}

} // verus!
