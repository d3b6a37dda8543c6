//! Scenario tests of the envelope/pool/claim state machine.

use red_envelope::constants::{
    DEFAULT_EXPIRY_MS, ELIGIBILITY_OK, ENVELOPE_TYPE_CLAIM, ENVELOPE_TYPE_POOL,
    ENVELOPE_TYPE_SPREADING, E_ALREADY_CLAIMED, E_ALREADY_OPENED, E_DEPLETED, E_EXPIRED,
    E_INVALID_TYPE, E_NOT_ACTIVE, E_NOT_FOUND, E_NOT_HOLDER, MIN_PER_PACKET,
    ON_NEP17_ADAPTER_BASE, ON_NEP17_ADAPTER_TYPE_MULTIPLIER, P_ACTIVE, P_OPENED, P_PACKET,
    P_TYPE,
};
use red_envelope::store::Ledger;

fn fresh_ledger() -> Ledger {
    let mut ledger = Ledger::new();
    ledger.contract_deploy(1, false);
    ledger.set_clock(1_000);
    ledger.set_entropy(42);
    ledger
}

#[test]
fn create_initializes_remaining_opened_active() {
    let mut ledger = fresh_ledger();
    let id = ledger.create_envelope(100, 1_000_000_000, 10, 3_600_000, ENVELOPE_TYPE_SPREADING, false);
    assert_eq!(id, 1);
    assert_eq!(ledger.get_envelope_state(id), 1_000_000_000);
    assert_eq!(ledger.env(P_OPENED, id), 0);
    assert_eq!(ledger.env(P_ACTIVE, id), 1);
    assert_eq!(ledger.owner_of(id), 100);
    assert_eq!(ledger.balance_of(100), 1);
}

#[test]
fn create_rejects_invalid_inputs() {
    let mut ledger = fresh_ledger();
    // Zero creator, deposit too small, zero/excess packets, underfunded
    // packets, non-positive or excessive expiry, unknown kind.
    assert_eq!(ledger.create_envelope(0, 1_000_000_000, 10, 1_000, 0, false), 0);
    assert_eq!(ledger.create_envelope(100, 99_999_999, 1, 1_000, 0, false), 0);
    assert_eq!(ledger.create_envelope(100, 1_000_000_000, 0, 1_000, 0, false), 0);
    assert_eq!(ledger.create_envelope(100, 1_000_000_000, 101, 1_000, 0, false), 0);
    assert_eq!(ledger.create_envelope(100, 100_000_000, 100, 1_000, 0, false), 0);
    assert_eq!(ledger.create_envelope(100, 1_000_000_000, 10, 0, 0, false), 0);
    assert_eq!(ledger.create_envelope(100, 1_000_000_000, 10, 604_800_001, 0, false), 0);
    assert_eq!(ledger.create_envelope(100, 1_000_000_000, 10, 1_000, ENVELOPE_TYPE_CLAIM, false), 0);
    // Nothing was written: the next id is still fresh.
    assert_eq!(ledger.get_envelope_state(1), 0);
    let ok = ledger.create_envelope(100, 1_000_000_000, 10, 1_000, ENVELOPE_TYPE_SPREADING, false);
    assert_eq!(ok, 1);
}

#[test]
fn ten_openers_drain_the_envelope_exactly() {
    let mut ledger = fresh_ledger();
    let id = ledger.create_envelope(
        1_000,
        1_000_000_000,
        10,
        DEFAULT_EXPIRY_MS,
        ENVELOPE_TYPE_SPREADING,
        false,
    );
    assert_eq!(id, 1);

    let mut paid_total: i64 = 0;
    for opener in 1_000..1_010i64 {
        let before = ledger.get_envelope_state(id);
        let amount = ledger.open_envelope(id, opener);
        assert!(amount > 0, "opener {opener} failed");
        assert_eq!(ledger.get_opened_amount(id, opener), amount);
        assert!(ledger.has_opened(id, opener));
        assert_eq!(ledger.get_envelope_state(id), before - amount);
        paid_total += amount;
        if opener < 1_009 {
            // Every packet but the last leaves the floor for the rest.
            assert!(amount >= MIN_PER_PACKET);
            let packets_left_after = 10 - (opener - 1_000 + 1);
            assert!(ledger.get_envelope_state(id) >= packets_left_after * MIN_PER_PACKET);
            // Custody moves so the next opener is the holder.
            ledger.transfer_envelope(id, opener, opener + 1, 0);
            assert_eq!(ledger.owner_of(id), opener + 1);
        }
    }

    // The last packet took exactly what remained and the sum of payouts
    // equals the deposit; the envelope is spent.
    assert_eq!(paid_total, 1_000_000_000);
    assert_eq!(ledger.get_envelope_state(id), 0);
    assert_eq!(ledger.env(P_ACTIVE, id), 0);
}

#[test]
fn second_open_by_same_opener_is_a_no_op() {
    let mut ledger = fresh_ledger();
    let id = ledger.create_envelope(
        500,
        1_000_000_000,
        10,
        DEFAULT_EXPIRY_MS,
        ENVELOPE_TYPE_SPREADING,
        false,
    );
    let first = ledger.open_envelope(id, 500);
    assert!(first > 0);
    let opened_after = ledger.env(P_OPENED, id);
    let remaining_after = ledger.get_envelope_state(id);

    let second = ledger.open_envelope(id, 500);
    assert_eq!(second, 0);
    assert_eq!(ledger.env(P_OPENED, id), opened_after);
    assert_eq!(ledger.get_envelope_state(id), remaining_after);
    assert_eq!(ledger.get_opened_amount(id, 500), first);
}

#[test]
fn five_claimers_drain_the_pool_through_their_claims() {
    let mut ledger = fresh_ledger();
    let pool = ledger.create_envelope(
        9,
        500_000_000,
        5,
        DEFAULT_EXPIRY_MS,
        ENVELOPE_TYPE_POOL,
        false,
    );
    assert_eq!(pool, 1);
    assert_eq!(ledger.owner_of(pool), 0);

    let mut claims = Vec::new();
    for claimer in 21..26i64 {
        let claim = ledger.claim_from_pool(pool, claimer);
        assert!(claim > 0, "claimer {claimer} failed");
        assert!(!claims.contains(&claim));
        assert_eq!(ledger.owner_of(claim), claimer);
        assert_eq!(ledger.properties(claim), ENVELOPE_TYPE_CLAIM);
        assert_eq!(ledger.env(P_PACKET, claim), 1);
        assert!(ledger.has_claimed_from_pool(pool, claimer));
        assert_eq!(
            ledger.get_pool_claim_id_by_index(pool, (claimer - 21) + 1),
            claim
        );
        claims.push(claim);
    }
    assert_eq!(ledger.get_envelope_state(pool), 0);
    assert_eq!(ledger.env(P_ACTIVE, pool), 0);
    // A sixth claimer finds the pool inactive.
    assert_eq!(ledger.claim_from_pool(pool, 99), 0);

    let mut paid_total: i64 = 0;
    for (i, claim) in claims.iter().enumerate() {
        let claimer = 21 + i as i64;
        // Only the owner can open, and only once.
        assert_eq!(ledger.open_claim(*claim, claimer + 1), 0);
        let balance = ledger.get_claim_state(*claim);
        let amount = ledger.open_claim(*claim, claimer);
        assert_eq!(amount, balance);
        assert!(amount > 0);
        paid_total += amount;
        assert_eq!(ledger.get_claim_state(*claim), 0);
        assert_eq!(ledger.open_claim(*claim, claimer), 0);
    }
    assert_eq!(paid_total, 500_000_000);
}

#[test]
fn second_claim_by_same_claimer_is_a_no_op() {
    let mut ledger = fresh_ledger();
    let pool = ledger.create_envelope(
        9,
        500_000_000,
        5,
        DEFAULT_EXPIRY_MS,
        ENVELOPE_TYPE_POOL,
        false,
    );
    let claim = ledger.claim_from_pool(pool, 77);
    assert!(claim > 0);
    let opened = ledger.env(P_OPENED, pool);
    let remaining = ledger.get_envelope_state(pool);

    assert_eq!(ledger.claim_from_pool(pool, 77), 0);
    assert_eq!(ledger.env(P_OPENED, pool), opened);
    assert_eq!(ledger.get_envelope_state(pool), remaining);
}

#[test]
fn reclaim_envelope_refunds_after_expiry() {
    let mut ledger = fresh_ledger();
    let id = ledger.create_envelope(3, 1_000_000_000, 10, 10_000, ENVELOPE_TYPE_SPREADING, false);
    let paid = ledger.open_envelope(id, 3);
    assert!(paid > 0);
    // Not yet expired, and only the creator may reclaim.
    assert_eq!(ledger.reclaim_envelope(id, 3), 0);
    ledger.set_clock(1_000 + 10_000 + 1);
    assert_eq!(ledger.reclaim_envelope(id, 4), 0);
    let refund = ledger.reclaim_envelope(id, 3);
    assert_eq!(refund, 1_000_000_000 - paid);
    assert_eq!(ledger.get_envelope_state(id), 0);
    assert_eq!(ledger.env(P_ACTIVE, id), 0);
    // Terminal: reclaiming again pays nothing.
    assert_eq!(ledger.reclaim_envelope(id, 3), 0);
}

#[test]
fn reclaim_pool_sweeps_unopened_claims() {
    let mut ledger = fresh_ledger();
    let pool = ledger.create_envelope(8, 600_000_000, 3, 10_000, ENVELOPE_TYPE_POOL, false);
    let claim_a = ledger.claim_from_pool(pool, 51);
    let claim_b = ledger.claim_from_pool(pool, 52);
    assert!(claim_a > 0 && claim_b > 0);
    let amount_a = ledger.get_claim_state(claim_a);
    let amount_b = ledger.get_claim_state(claim_b);
    let pool_left = ledger.get_envelope_state(pool);
    assert_eq!(pool_left + amount_a + amount_b, 600_000_000);

    // One claim is opened in time, the other is left to strand.
    assert_eq!(ledger.open_claim(claim_a, 51), amount_a);

    ledger.set_clock(1_000 + 10_000 + 1);
    let refund = ledger.reclaim_pool(pool, 8);
    // The refund folds in the unopened claim's remainder.
    assert_eq!(refund, pool_left + amount_b);
    assert_eq!(ledger.get_envelope_state(pool), 0);
    assert_eq!(ledger.env(P_ACTIVE, pool), 0);
    assert_eq!(ledger.get_claim_state(claim_b), 0);
    assert_eq!(ledger.env(P_ACTIVE, claim_b), 0);
    // The swept claim can no longer be opened.
    assert_eq!(ledger.open_claim(claim_b, 52), 0);
}

#[test]
fn eligibility_taxonomy_orders_rejections() {
    let mut ledger = fresh_ledger();
    assert_eq!(ledger.check_open_eligibility(999, 1), E_NOT_FOUND);

    let id = ledger.create_envelope(10, 1_000_000_000, 2, 10_000, ENVELOPE_TYPE_SPREADING, false);
    assert_eq!(ledger.check_eligibility(id, 10), ELIGIBILITY_OK);
    assert_eq!(ledger.check_open_eligibility(id, 10), ELIGIBILITY_OK);
    assert_eq!(ledger.check_open_eligibility(id, 11), E_NOT_HOLDER);

    let first = ledger.open_envelope(id, 10);
    assert!(first > 0);
    assert_eq!(ledger.check_open_eligibility(id, 10), E_ALREADY_OPENED);

    ledger.set_clock(1_000 + 10_000 + 1);
    assert_eq!(ledger.check_open_eligibility(id, 10), E_EXPIRED);
    ledger.set_clock(1_000);

    // Depleted and invalid-kind states, forced through the raw accessors.
    let packet = ledger.env(P_PACKET, id);
    ledger.set_env(P_OPENED, id, packet);
    assert_eq!(ledger.check_open_eligibility(id, 10), E_DEPLETED);
    ledger.set_env(P_OPENED, id, 1);
    ledger.set_env(P_TYPE, id, 7);
    assert_eq!(ledger.check_open_eligibility(id, 10), E_INVALID_TYPE);
    ledger.set_env(P_TYPE, id, ENVELOPE_TYPE_SPREADING);
    ledger.set_env(P_ACTIVE, id, 0);
    assert_eq!(ledger.check_open_eligibility(id, 10), E_NOT_ACTIVE);
    assert_eq!(ledger.check_eligibility(id, 10), E_NOT_ACTIVE);

    let pool = ledger.create_envelope(10, 500_000_000, 5, 10_000, ENVELOPE_TYPE_POOL, false);
    let claim = ledger.claim_from_pool(pool, 20);
    assert!(claim > 0);
    assert_eq!(ledger.check_open_eligibility(pool, 20), E_ALREADY_CLAIMED);
    assert_eq!(ledger.check_open_eligibility(claim, 20), ELIGIBILITY_OK);
    assert_eq!(ledger.open_claim(claim, 20), ledger.env(red_envelope::constants::P_TOTAL, claim));
    assert_eq!(ledger.check_open_eligibility(claim, 20), E_NOT_ACTIVE);
}

#[test]
fn already_opened_outranks_not_holder() {
    let mut ledger = fresh_ledger();
    let id = ledger.create_envelope(10, 1_000_000_000, 10, 10_000, ENVELOPE_TYPE_SPREADING, false);
    assert!(ledger.open_envelope(id, 10) > 0);
    // The opener hands the envelope away; their receipt still outranks
    // the holder mismatch in the taxonomy.
    ledger.transfer_envelope(id, 10, 11, 0);
    assert_eq!(ledger.owner_of(id), 11);
    assert_eq!(ledger.check_open_eligibility(id, 10), E_ALREADY_OPENED);
    // A user with no receipt is still classified as not the holder.
    assert_eq!(ledger.check_open_eligibility(id, 12), E_NOT_HOLDER);
    assert_eq!(ledger.check_open_eligibility(id, 11), ELIGIBILITY_OK);
}

#[test]
fn pause_gates_every_mutating_operation() {
    let mut ledger = fresh_ledger();
    let id = ledger.create_envelope(10, 1_000_000_000, 10, 10_000, ENVELOPE_TYPE_SPREADING, false);
    let pool = ledger.create_envelope(10, 500_000_000, 5, 10_000, ENVELOPE_TYPE_POOL, false);
    ledger.pause();
    assert_eq!(ledger.open_envelope(id, 10), 0);
    assert_eq!(ledger.claim_from_pool(pool, 20), 0);
    assert!(!ledger.transfer(11, id, 0));
    ledger.transfer_envelope(id, 10, 11, 0);
    assert_eq!(ledger.owner_of(id), 10);
    ledger.on_nep17_payment(10, 1_000_000_000, 0);
    assert_eq!(ledger.get_total_envelopes(), 0);
    ledger.resume();
    assert!(ledger.open_envelope(id, 10) > 0);
}

#[test]
fn transfer_moves_custody_of_tokens_only() {
    let mut ledger = fresh_ledger();
    let id = ledger.create_envelope(10, 1_000_000_000, 10, 10_000, ENVELOPE_TYPE_SPREADING, false);
    let pool = ledger.create_envelope(10, 500_000_000, 5, 10_000, ENVELOPE_TYPE_POOL, false);
    // A pool is not owned, so it cannot be transferred.
    assert!(!ledger.transfer(11, pool, 0));
    assert!(ledger.transfer(11, id, 0));
    assert_eq!(ledger.owner_of(id), 11);
    // transfer_claim refuses a non-claim token.
    ledger.transfer_claim(id, 11, 12);
    assert_eq!(ledger.owner_of(id), 11);

    let claim = ledger.claim_from_pool(pool, 20);
    assert!(claim > 0);
    ledger.transfer_claim(claim, 21, 22);
    assert_eq!(ledger.owner_of(claim), 20);
    ledger.transfer_claim(claim, 20, 22);
    assert_eq!(ledger.owner_of(claim), 22);
    // The new owner, not the old one, can open it.
    assert_eq!(ledger.open_claim(claim, 20), 0);
    assert!(ledger.open_claim(claim, 22) > 0);
}

#[test]
fn payment_trigger_decodes_legacy_payloads() {
    let mut ledger = fresh_ledger();
    // packetCount = payload / 10, kind = payload % 10.
    ledger.on_nep17_payment(10, 1_000_000_000, 50);
    assert_eq!(ledger.get_total_envelopes(), 1);
    assert_eq!(ledger.env(P_PACKET, 1), 5);
    assert_eq!(ledger.env(P_TYPE, 1), ENVELOPE_TYPE_SPREADING);
    assert_eq!(ledger.owner_of(1), 10);

    ledger.on_nep17_payment(10, 1_000_000_000, 51);
    assert_eq!(ledger.env(P_PACKET, 2), 5);
    assert_eq!(ledger.env(P_TYPE, 2), ENVELOPE_TYPE_POOL);
    assert_eq!(ledger.get_total_distributed(), 2_000_000_000);

    // No payload: one spreading packet with the default expiry.
    ledger.on_nep17_payment(10, 1_000_000_000, 0);
    assert_eq!(ledger.env(P_PACKET, 3), 1);
    assert_eq!(ledger.env(P_TYPE, 3), ENVELOPE_TYPE_SPREADING);
}

#[test]
fn payment_trigger_decodes_additive_payloads() {
    let mut ledger = fresh_ledger();
    // spread => BASE + packetCount + expiryMs * 1000.
    ledger.on_nep17_payment(10, 1_000_000_000, ON_NEP17_ADAPTER_BASE + 7 + 20_000 * 1_000);
    assert_eq!(ledger.env(P_PACKET, 1), 7);
    assert_eq!(ledger.env(P_TYPE, 1), ENVELOPE_TYPE_SPREADING);

    // pool => BASE + TYPE_MULTIPLIER + packetCount + expiryMs * 1000.
    ledger.on_nep17_payment(
        10,
        1_000_000_000,
        ON_NEP17_ADAPTER_BASE + ON_NEP17_ADAPTER_TYPE_MULTIPLIER + 4 + 20_000 * 1_000,
    );
    assert_eq!(ledger.env(P_PACKET, 2), 4);
    assert_eq!(ledger.env(P_TYPE, 2), ENVELOPE_TYPE_POOL);

    // Sign-based predecessor encoding selects the pool kind.
    ledger.on_nep17_payment(10, 1_000_000_000, -(ON_NEP17_ADAPTER_BASE + 3 + 20_000 * 1_000));
    assert_eq!(ledger.env(P_PACKET, 3), 3);
    assert_eq!(ledger.env(P_TYPE, 3), ENVELOPE_TYPE_POOL);

    // An underfunded packet count is rejected without any state change.
    ledger.on_nep17_payment(10, 100_000_000, 110);
    assert_eq!(ledger.get_total_envelopes(), 3);

    // An out-of-range custom expiry fails creation silently.
    ledger.on_nep17_payment(
        10,
        1_000_000_000,
        ON_NEP17_ADAPTER_BASE + 7 + 700_000_000 * 1_000,
    );
    assert_eq!(ledger.get_total_envelopes(), 3);
}

#[test]
fn expired_envelope_rejects_opens() {
    let mut ledger = fresh_ledger();
    let id = ledger.create_envelope(10, 1_000_000_000, 10, 5_000, ENVELOPE_TYPE_SPREADING, false);
    ledger.set_clock(1_000 + 5_000 + 1);
    assert_eq!(ledger.open_envelope(id, 10), 0);
    assert_eq!(ledger.claim_from_pool(id, 20), 0);
}
