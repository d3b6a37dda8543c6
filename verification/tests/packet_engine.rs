//! Tests of the packet sizing engine and its arithmetic helpers.

use red_envelope::constants::{MIN_PER_PACKET, PERCENT_BASE};
use red_envelope::packet::{calc_packet, ceiling_div, mul_clamp_max, volatility_lower_bps, volatility_upper_bps};

#[test]
fn degenerate_inputs_yield_zero() {
    assert_eq!(calc_packet(0, 5, 0, 100, 10, 7), 0);
    assert_eq!(calc_packet(-5, 5, 0, 100, 10, 7), 0);
    assert_eq!(calc_packet(100, 0, 0, 100, 10, 7), 0);
    assert_eq!(calc_packet(100, 5, 0, 0, 10, 7), 0);
    assert_eq!(calc_packet(100, 5, 0, 100, 0, 7), 0);
}

#[test]
fn last_packet_takes_exactly_the_remainder() {
    assert_eq!(calc_packet(123_456_789, 1, 0, 1_000_000_000, 10, 7), 123_456_789);
    assert_eq!(calc_packet(1, 1, 0, 1_000_000_000, 10, 99), 1);
    assert_eq!(calc_packet(10_000_000, 1, 0, 100_000_000, 10, 0), 10_000_000);
}

#[test]
fn forced_floor_when_window_collapses() {
    // feasible = 15M - 10M = 5M <= floor, so the floor is returned.
    assert_eq!(calc_packet(15_000_000, 2, 0, 100_000_000, 10, 7), MIN_PER_PACKET);
    // feasible goes negative: still the floor.
    assert_eq!(calc_packet(5_000_000, 3, 0, 100_000_000, 10, 7), MIN_PER_PACKET);
}

#[test]
fn random_path_exact_value_for_fixed_entropy() {
    // remaining 1e9 over 10 packets, sparse band (total 10 < 20):
    // average 1e8, min 3e7; entropy 42 rolls (42 + 0) / 2 = 21.
    assert_eq!(calc_packet(1_000_000_000, 10, 0, 1_000_000_000, 10, 42), 30_000_021);
    // Entropy is sign-folded: -42 behaves like 42.
    assert_eq!(calc_packet(1_000_000_000, 10, 0, 1_000_000_000, 10, -42), 30_000_021);
}

#[test]
fn random_path_stays_within_floor_and_feasible_max() {
    for entropy in [i64::MIN, -1, 0, 1, 7, 42, 999_983, i64::MAX] {
        for packets_left in [2i64, 3, 5, 9] {
            let remaining = 700_000_000i64;
            let feasible = remaining - (packets_left - 1) * MIN_PER_PACKET;
            let amount = calc_packet(remaining, packets_left, 0, 1_000_000_000, 10, entropy);
            assert!(amount >= MIN_PER_PACKET, "below floor: {amount}");
            assert!(amount <= feasible, "above feasible: {amount} > {feasible}");
        }
    }
}

#[test]
fn extra_trials_hook_keeps_bounds() {
    for balance in [0i64, 100, 1000] {
        let amount = calc_packet(1_000_000_000, 10, balance, 1_000_000_000, 10, 42);
        assert!(amount >= MIN_PER_PACKET);
        assert!(amount <= 1_000_000_000 - 9 * MIN_PER_PACKET);
    }
}

#[test]
fn ceiling_div_rounds_up() {
    assert_eq!(ceiling_div(10, 3), 4);
    assert_eq!(ceiling_div(9, 3), 3);
    assert_eq!(ceiling_div(1, 10), 1);
    assert_eq!(ceiling_div(0, 5), 0);
    assert_eq!(ceiling_div(5, 0), 0);
    assert_eq!(ceiling_div(-7, 3), 0);
}

#[test]
fn mul_clamp_max_saturates() {
    assert_eq!(mul_clamp_max(2, 3), 6);
    assert_eq!(mul_clamp_max(0, 5), 0);
    assert_eq!(mul_clamp_max(-2, 5), 0);
    assert_eq!(mul_clamp_max(5, -2), 0);
    assert_eq!(mul_clamp_max(i64::MAX, 2), i64::MAX);
    assert_eq!(mul_clamp_max(i64::MAX / 2, 2), i64::MAX - 1);
}

#[test]
fn volatility_bands_follow_packet_density() {
    assert_eq!(volatility_lower_bps(50), 7_000);
    assert_eq!(volatility_upper_bps(50), 13_000);
    assert_eq!(volatility_lower_bps(20), 5_000);
    assert_eq!(volatility_upper_bps(20), 17_000);
    assert_eq!(volatility_lower_bps(19), 3_000);
    assert_eq!(volatility_upper_bps(19), 23_000);
    assert_eq!(volatility_lower_bps(1), 3_000);
    // Band edges are basis points out of the shared base.
    assert_eq!(PERCENT_BASE, 10_000);
}
