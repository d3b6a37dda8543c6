//! Laws over whole call histories.
//!
//! [`Event`] is the alphabet of runtime calls into the mutating surface,
//! each carrying the host inputs it saw; [`run_events`] folds a history
//! over the ledger map through the same functional models the executable
//! operations are proved equal to.  The headline theorem,
//! [`theorem_payouts_bounded`], states the conservation law literally:
//! over any history, the amounts paid out of one distribution unit by
//! completed opens and pool claims sum to at most the unit's total.
//!
//! The reachability invariants ([`ids_registered`], [`claim_index_ok`],
//! [`pool_funds_ok`]) hold of a fresh ledger and are preserved by every
//! event while the id counter stays below saturation; they discharge
//! the freshness, claim-index-distinctness and refund-representability
//! hypotheses the law lemmas state.

use crate::constants::{
    ENVELOPE_TYPE_CLAIM, ENVELOPE_TYPE_POOL, ENVELOPE_TYPE_SPREADING, K_NEXT_ID, K_OWNER,
    K_PAUSED, MAX_PACKETS, MIN_AMOUNT, MIN_PER_PACKET, P_ACTIVE, P_CREATOR, P_OPENED, P_PACKET,
    P_POOL_CLAIM_INDEX, P_REMAINING, P_TOTAL, P_TYPE,
};
use crate::laws::{claim_indices_distinct, index_contrib, sweepable_remainder, unit_state_ok};
use crate::lifecycle::{
    claim_from_pool_allowed, claim_from_pool_spec, create_envelope_spec, create_valid,
    decode_payment_data, on_nep17_payment_spec, open_claim_spec, open_envelope_spec,
    reclaim_envelope_spec, reclaim_pool_allowed, reclaim_pool_spec, sweep_claims,
    transfer_claim_spec, transfer_envelope_spec, transfer_spec,
};
use crate::packet::{calc_packet_spec, sat_i64};
use crate::store::{field_key, fld, meta_key, meta_val, rcpt, receipt_key, slot_val, Addr};
use vstd::prelude::*;

verus! {

/// One call into the mutating surface, with the host inputs it saw.
/// Deployment-time initialization is not a runtime event.
pub enum Event {
    Create {
        now: i64,
        from: i64,
        amount: i64,
        packet_count: i64,
        expiry_ms: i64,
        envelope_type: i64,
        update_totals: bool,
    },
    OpenEnvelope { now: i64, entropy: i64, envelope_id: i64, opener: i64 },
    ClaimFromPool { now: i64, entropy: i64, pool_id: i64, claimer: i64 },
    OpenClaim { now: i64, claim_id: i64, opener: i64 },
    Transfer { token_id: i64, to: i64 },
    TransferEnvelope { envelope_id: i64, from: i64, to: i64 },
    TransferClaim { claim_id: i64, from: i64, to: i64 },
    ReclaimEnvelope { now: i64, envelope_id: i64, creator: i64 },
    ReclaimPool { now: i64, pool_id: i64, creator: i64 },
    Payment { now: i64, from: i64, amount: i64, data: i64 },
    SetOwner { new_owner: i64 },
    Pause,
    Resume,
}

/// The ledger map after one event.
pub open spec fn apply_event(m: Map<Addr, i64>, e: Event) -> Map<Addr, i64> {
    match e {
        Event::Create { now, from, amount, packet_count, expiry_ms, envelope_type, update_totals } => create_envelope_spec(
            m,
            now,
            from,
            amount,
            packet_count,
            expiry_ms,
            envelope_type,
            update_totals,
        ).0,
        Event::OpenEnvelope { now, entropy, envelope_id, opener } => open_envelope_spec(
            m,
            now,
            entropy,
            envelope_id,
            opener,
        ).0,
        Event::ClaimFromPool { now, entropy, pool_id, claimer } => claim_from_pool_spec(
            m,
            now,
            entropy,
            pool_id,
            claimer,
        ).0,
        Event::OpenClaim { now, claim_id, opener } => open_claim_spec(m, now, claim_id, opener).0,
        Event::Transfer { token_id, to } => transfer_spec(m, token_id, to).0,
        Event::TransferEnvelope { envelope_id, from, to } => transfer_envelope_spec(
            m,
            envelope_id,
            from,
            to,
        ),
        Event::TransferClaim { claim_id, from, to } => transfer_claim_spec(m, claim_id, from, to),
        Event::ReclaimEnvelope { now, envelope_id, creator } => reclaim_envelope_spec(
            m,
            now,
            envelope_id,
            creator,
        ).0,
        Event::ReclaimPool { now, pool_id, creator } => reclaim_pool_spec(
            m,
            now,
            pool_id,
            creator,
        ).0,
        Event::Payment { now, from, amount, data } => on_nep17_payment_spec(
            m,
            now,
            from,
            amount,
            data,
        ),
        Event::SetOwner { new_owner } => if new_owner == 0 {
            m
        } else {
            m.insert(meta_key(K_OWNER), new_owner)
        },
        Event::Pause => m.insert(meta_key(K_PAUSED), 1),
        Event::Resume => m.insert(meta_key(K_PAUSED), 0),
    }
}

/// The ledger map after a whole history.
pub open spec fn run_events(m: Map<Addr, i64>, events: Seq<Event>) -> Map<Addr, i64>
    decreases events.len(),
{
    if events.len() == 0 {
        m
    } else {
        apply_event(run_events(m, events.drop_last()), events.last())
    }
}

/// The amount one event pays out of unit `id`: the packet drawn by a
/// completed open or pool claim of that unit, `0` otherwise.
pub open spec fn payout_of(m: Map<Addr, i64>, e: Event, id: i64) -> int {
    match e {
        Event::OpenEnvelope { now, entropy, envelope_id, opener } => if envelope_id == id {
            open_envelope_spec(m, now, entropy, envelope_id, opener).1 as int
        } else {
            0
        },
        Event::ClaimFromPool { now, entropy, pool_id, claimer } => if pool_id == id
            && claim_from_pool_allowed(m, now, pool_id, claimer) {
            let amt = calc_packet_spec(
                fld(m, P_REMAINING, pool_id),
                sat_i64(fld(m, P_PACKET, pool_id) - fld(m, P_OPENED, pool_id)),
                0,
                fld(m, P_TOTAL, pool_id),
                fld(m, P_PACKET, pool_id),
                entropy,
            );
            if 0 < amt <= fld(m, P_REMAINING, pool_id) {
                amt as int
            } else {
                0
            }
        } else {
            0
        },
        Event::OpenClaim { now, claim_id, opener } => if claim_id == id {
            open_claim_spec(m, now, claim_id, opener).1 as int
        } else {
            0
        },
        _ => 0,
    }
}

/// Σ of [`payout_of`] over a history, state threaded left to right.
pub open spec fn total_paid(m: Map<Addr, i64>, events: Seq<Event>, id: i64) -> int
    decreases events.len(),
{
    if events.len() == 0 {
        0
    } else {
        total_paid(m, events.drop_last(), id) + payout_of(
            run_events(m, events.drop_last()),
            events.last(),
            id,
        )
    }
}

/// The shape every reachable unit has: [`unit_state_ok`], and — while
/// still active and funded — a positive packet count.
pub open spec fn unit_wf(m: Map<Addr, i64>, id: i64) -> bool {
    &&& unit_state_ok(m, id)
    &&& ((fld(m, P_ACTIVE, id) != 0 && fld(m, P_REMAINING, id) > 0) ==> fld(m, P_PACKET, id) >= 1)
}

proof fn lemma_sweep_frame(
    m: Map<Addr, i64>,
    pool_id: i64,
    i: int,
    opened: i64,
    refund: i64,
    a: Addr,
)
    requires
        a.tag != P_REMAINING as i64,
        a.tag != P_ACTIVE as i64,
    ensures
        slot_val(sweep_claims(m, pool_id, i, opened, refund).0, a) == slot_val(m, a),
    decreases opened - i + 1,
{
    if i <= opened {
        let c = rcpt(m, P_POOL_CLAIM_INDEX, pool_id, i as i64);
        if c > 0 && fld(m, P_TYPE, c) == ENVELOPE_TYPE_CLAIM
            && fld(m, P_ACTIVE, c) != 0 && fld(m, P_REMAINING, c) > 0 {
            let rem = fld(m, P_REMAINING, c);
            let m2 = m.insert(field_key(P_REMAINING, c), 0).insert(field_key(P_ACTIVE, c), 0);
            lemma_sweep_frame(m2, pool_id, i + 1, opened, sat_i64(refund + rem), a);
        } else {
            lemma_sweep_frame(m, pool_id, i + 1, opened, refund, a);
        }
    }
}

proof fn lemma_sweep_zero_or_same(
    m: Map<Addr, i64>,
    pool_id: i64,
    i: int,
    opened: i64,
    refund: i64,
    x: i64,
)
    ensures
        ({
            let m2 = sweep_claims(m, pool_id, i, opened, refund).0;
            (fld(m2, P_REMAINING, x) == fld(m, P_REMAINING, x) && fld(m2, P_ACTIVE, x) == fld(
                m,
                P_ACTIVE,
                x,
            )) || (fld(m2, P_REMAINING, x) == 0 && fld(m2, P_ACTIVE, x) == 0)
        }),
    decreases opened - i + 1,
{
    if i <= opened {
        let c = rcpt(m, P_POOL_CLAIM_INDEX, pool_id, i as i64);
        if c > 0 && fld(m, P_TYPE, c) == ENVELOPE_TYPE_CLAIM
            && fld(m, P_ACTIVE, c) != 0 && fld(m, P_REMAINING, c) > 0 {
            let rem = fld(m, P_REMAINING, c);
            let m2 = m.insert(field_key(P_REMAINING, c), 0).insert(field_key(P_ACTIVE, c), 0);
            lemma_sweep_zero_or_same(m2, pool_id, i + 1, opened, sat_i64(refund + rem), x);
        } else {
            lemma_sweep_zero_or_same(m, pool_id, i + 1, opened, refund, x);
        }
    }
}

/// The step facts for a valid creation, shared by the direct call and
/// the payment trigger: the fresh id is strictly above every id at or
/// below the old counter, so nothing already tracked is overwritten.
proof fn lemma_create_step(
    m: Map<Addr, i64>,
    now: i64,
    from: i64,
    amount: i64,
    packet_count: i64,
    expiry_ms: i64,
    envelope_type: i64,
    update_totals: bool,
    id: i64,
)
    requires
        forall|x: i64| #[trigger] unit_wf(m, x),
        id <= meta_val(m, K_NEXT_ID),
        meta_val(m, K_NEXT_ID) < i64::MAX,
    ensures
        ({
            let m2 = create_envelope_spec(
                m,
                now,
                from,
                amount,
                packet_count,
                expiry_ms,
                envelope_type,
                update_totals,
            ).0;
            &&& forall|x: i64| #[trigger] unit_wf(m2, x)
            &&& meta_val(m, K_NEXT_ID) <= meta_val(m2, K_NEXT_ID) <= meta_val(m, K_NEXT_ID) + 1
            &&& fld(m2, P_TOTAL, id) == fld(m, P_TOTAL, id)
            &&& fld(m2, P_PACKET, id) == fld(m, P_PACKET, id)
            &&& fld(m2, P_REMAINING, id) == fld(m, P_REMAINING, id)
        }),
{
    if create_valid(from, amount, packet_count, expiry_ms, envelope_type) {
        let fresh = sat_i64(meta_val(m, K_NEXT_ID) + 1);
        let m2 = create_envelope_spec(
            m,
            now,
            from,
            amount,
            packet_count,
            expiry_ms,
            envelope_type,
            update_totals,
        ).0;
        assert(fresh == meta_val(m, K_NEXT_ID) + 1);
        assert forall|x: i64| #[trigger] unit_wf(m2, x) by {
            if x != fresh {
                assert(fld(m2, P_OPENED, x) == fld(m, P_OPENED, x));
                assert(fld(m2, P_PACKET, x) == fld(m, P_PACKET, x));
                assert(fld(m2, P_REMAINING, x) == fld(m, P_REMAINING, x));
                assert(fld(m2, P_TOTAL, x) == fld(m, P_TOTAL, x));
                assert(fld(m2, P_ACTIVE, x) == fld(m, P_ACTIVE, x));
                assert(unit_wf(m, x));
            }
        }
    }
}

/// One event preserves the unit shapes, moves the id counter forward by
/// at most one, never touches the tracked unit's total or packet count,
/// and drains its remaining balance by at least the payout.
#[verifier::rlimit(60)]
proof fn lemma_event_step(m: Map<Addr, i64>, e: Event, id: i64)
    requires
        forall|x: i64| #[trigger] unit_wf(m, x),
        id <= meta_val(m, K_NEXT_ID),
        meta_val(m, K_NEXT_ID) < i64::MAX,
    ensures
        ({
            let m2 = apply_event(m, e);
            &&& forall|x: i64| #[trigger] unit_wf(m2, x)
            &&& meta_val(m, K_NEXT_ID) <= meta_val(m2, K_NEXT_ID) <= meta_val(m, K_NEXT_ID) + 1
            &&& fld(m2, P_TOTAL, id) == fld(m, P_TOTAL, id)
            &&& fld(m2, P_PACKET, id) == fld(m, P_PACKET, id)
            &&& 0 <= payout_of(m, e, id)
            &&& payout_of(m, e, id) + fld(m2, P_REMAINING, id) <= fld(m, P_REMAINING, id)
        }),
{
    let m2 = apply_event(m, e);
    match e {
        Event::Create { now, from, amount, packet_count, expiry_ms, envelope_type, update_totals } => {
            lemma_create_step(
                m,
                now,
                from,
                amount,
                packet_count,
                expiry_ms,
                envelope_type,
                update_totals,
                id,
            );
        },
        Event::OpenEnvelope { now, entropy, envelope_id, opener } => {
            let r = open_envelope_spec(m, now, entropy, envelope_id, opener);
            if r.1 != 0 {
                assert(unit_wf(m, envelope_id));
                assert forall|x: i64| #[trigger] unit_wf(r.0, x) by {
                    if x != envelope_id {
                        assert(fld(r.0, P_OPENED, x) == fld(m, P_OPENED, x));
                        assert(fld(r.0, P_PACKET, x) == fld(m, P_PACKET, x));
                        assert(fld(r.0, P_REMAINING, x) == fld(m, P_REMAINING, x));
                        assert(fld(r.0, P_TOTAL, x) == fld(m, P_TOTAL, x));
                        assert(fld(r.0, P_ACTIVE, x) == fld(m, P_ACTIVE, x));
                        assert(unit_wf(m, x));
                    }
                }
            }
        },
        Event::ClaimFromPool { now, entropy, pool_id, claimer } => {
            let r = claim_from_pool_spec(m, now, entropy, pool_id, claimer);
            if r.1 != 0 || r.0 != m {
                let fresh = sat_i64(meta_val(m, K_NEXT_ID) + 1);
                assert(fresh == meta_val(m, K_NEXT_ID) + 1);
                assert(unit_wf(m, pool_id));
                assert forall|x: i64| #[trigger] unit_wf(r.0, x) by {
                    if x != pool_id && x != fresh {
                        assert(fld(r.0, P_OPENED, x) == fld(m, P_OPENED, x));
                        assert(fld(r.0, P_PACKET, x) == fld(m, P_PACKET, x));
                        assert(fld(r.0, P_REMAINING, x) == fld(m, P_REMAINING, x));
                        assert(fld(r.0, P_TOTAL, x) == fld(m, P_TOTAL, x));
                        assert(fld(r.0, P_ACTIVE, x) == fld(m, P_ACTIVE, x));
                        assert(unit_wf(m, x));
                    }
                }
            }
        },
        Event::OpenClaim { now, claim_id, opener } => {
            let r = open_claim_spec(m, now, claim_id, opener);
            if r.1 != 0 {
                assert(unit_wf(m, claim_id));
                assert forall|x: i64| #[trigger] unit_wf(r.0, x) by {
                    if x != claim_id {
                        assert(fld(r.0, P_OPENED, x) == fld(m, P_OPENED, x));
                        assert(fld(r.0, P_PACKET, x) == fld(m, P_PACKET, x));
                        assert(fld(r.0, P_REMAINING, x) == fld(m, P_REMAINING, x));
                        assert(fld(r.0, P_TOTAL, x) == fld(m, P_TOTAL, x));
                        assert(fld(r.0, P_ACTIVE, x) == fld(m, P_ACTIVE, x));
                        assert(unit_wf(m, x));
                    }
                }
            }
        },
        Event::Transfer { token_id, to } => {
            assert forall|x: i64| #[trigger] unit_wf(m2, x) by {
                assert(fld(m2, P_OPENED, x) == fld(m, P_OPENED, x));
                assert(fld(m2, P_PACKET, x) == fld(m, P_PACKET, x));
                assert(fld(m2, P_REMAINING, x) == fld(m, P_REMAINING, x));
                assert(fld(m2, P_TOTAL, x) == fld(m, P_TOTAL, x));
                assert(fld(m2, P_ACTIVE, x) == fld(m, P_ACTIVE, x));
                assert(unit_wf(m, x));
            }
        },
        Event::TransferEnvelope { envelope_id, from, to } => {
            assert forall|x: i64| #[trigger] unit_wf(m2, x) by {
                assert(fld(m2, P_OPENED, x) == fld(m, P_OPENED, x));
                assert(fld(m2, P_PACKET, x) == fld(m, P_PACKET, x));
                assert(fld(m2, P_REMAINING, x) == fld(m, P_REMAINING, x));
                assert(fld(m2, P_TOTAL, x) == fld(m, P_TOTAL, x));
                assert(fld(m2, P_ACTIVE, x) == fld(m, P_ACTIVE, x));
                assert(unit_wf(m, x));
            }
        },
        Event::TransferClaim { claim_id, from, to } => {
            assert forall|x: i64| #[trigger] unit_wf(m2, x) by {
                assert(fld(m2, P_OPENED, x) == fld(m, P_OPENED, x));
                assert(fld(m2, P_PACKET, x) == fld(m, P_PACKET, x));
                assert(fld(m2, P_REMAINING, x) == fld(m, P_REMAINING, x));
                assert(fld(m2, P_TOTAL, x) == fld(m, P_TOTAL, x));
                assert(fld(m2, P_ACTIVE, x) == fld(m, P_ACTIVE, x));
                assert(unit_wf(m, x));
            }
        },
        Event::ReclaimEnvelope { now, envelope_id, creator } => {
            let r = reclaim_envelope_spec(m, now, envelope_id, creator);
            if r.1 != 0 {
                assert(unit_wf(m, envelope_id));
                assert forall|x: i64| #[trigger] unit_wf(r.0, x) by {
                    if x != envelope_id {
                        assert(fld(r.0, P_OPENED, x) == fld(m, P_OPENED, x));
                        assert(fld(r.0, P_PACKET, x) == fld(m, P_PACKET, x));
                        assert(fld(r.0, P_REMAINING, x) == fld(m, P_REMAINING, x));
                        assert(fld(r.0, P_TOTAL, x) == fld(m, P_TOTAL, x));
                        assert(fld(r.0, P_ACTIVE, x) == fld(m, P_ACTIVE, x));
                        assert(unit_wf(m, x));
                    }
                }
            }
        },
        Event::ReclaimPool { now, pool_id, creator } => {
            let r = reclaim_pool_spec(m, now, pool_id, creator);
            if r.0 != m || r.1 != 0 {
                let opened = fld(m, P_OPENED, pool_id);
                let refund0 = fld(m, P_REMAINING, pool_id);
                let swept = sweep_claims(m, pool_id, 1, opened, refund0);
                lemma_sweep_frame(m, pool_id, 1, opened, refund0, meta_key(K_NEXT_ID));
                lemma_sweep_frame(m, pool_id, 1, opened, refund0, field_key(P_TOTAL, id));
                lemma_sweep_frame(m, pool_id, 1, opened, refund0, field_key(P_PACKET, id));
                lemma_sweep_zero_or_same(m, pool_id, 1, opened, refund0, id);
                assert(unit_wf(m, id));
                assert forall|x: i64| #[trigger] unit_wf(r.0, x) by {
                    lemma_sweep_frame(m, pool_id, 1, opened, refund0, field_key(P_OPENED, x));
                    lemma_sweep_frame(m, pool_id, 1, opened, refund0, field_key(P_PACKET, x));
                    lemma_sweep_frame(m, pool_id, 1, opened, refund0, field_key(P_TOTAL, x));
                    lemma_sweep_zero_or_same(m, pool_id, 1, opened, refund0, x);
                    assert(unit_wf(m, x));
                }
            }
        },
        Event::Payment { now, from, amount, data } => {
            if !(meta_val(m, K_PAUSED) != 0 || from == 0
                || amount < MIN_AMOUNT) {
                let decoded = decode_payment_data(data);
                if !(decoded.0 <= 0 || decoded.0 > MAX_PACKETS || amount
                    < decoded.0 * MIN_PER_PACKET || !(decoded.1
                    == ENVELOPE_TYPE_SPREADING || decoded.1
                    == ENVELOPE_TYPE_POOL)) {
                    lemma_create_step(
                        m,
                        now,
                        from,
                        amount,
                        decoded.0,
                        decoded.2,
                        decoded.1,
                        true,
                        id,
                    );
                }
            }
        },
        Event::SetOwner { new_owner } => {
            assert forall|x: i64| #[trigger] unit_wf(m2, x) by {
                assert(unit_wf(m, x));
            }
        },
        Event::Pause => {
            assert forall|x: i64| #[trigger] unit_wf(m2, x) by {
                assert(unit_wf(m, x));
            }
        },
        Event::Resume => {
            assert forall|x: i64| #[trigger] unit_wf(m2, x) by {
                assert(unit_wf(m, x));
            }
        },
    }
}

proof fn lemma_remainder_snoc(m: Map<Addr, i64>, pool_id: i64, i: int, opened: i64)
    requires
        1 <= i <= opened,
    ensures
        sweepable_remainder(m, pool_id, i, opened) == sweepable_remainder(
            m,
            pool_id,
            i,
            (opened - 1) as i64,
        ) + index_contrib(m, pool_id, opened),
    decreases opened - i,
{
    if i < opened {
        lemma_remainder_snoc(m, pool_id, i + 1, opened);
    } else {
        assert(sweepable_remainder(m, pool_id, i + 1, opened) == 0);
        assert(sweepable_remainder(m, pool_id, i, (opened - 1) as i64) == 0);
    }
}

proof fn lemma_remainder_eq(
    m: Map<Addr, i64>,
    m2: Map<Addr, i64>,
    pool_id: i64,
    i: int,
    opened: i64,
)
    requires
        1 <= i,
        forall|j: i64| i <= j <= opened ==> #[trigger] index_contrib(m2, pool_id, j)
            == index_contrib(m, pool_id, j),
    ensures
        sweepable_remainder(m2, pool_id, i, opened) == sweepable_remainder(m, pool_id, i, opened),
    decreases opened - i + 1,
{
    if i <= opened {
        lemma_remainder_eq(m, m2, pool_id, i + 1, opened);
    }
}

proof fn lemma_remainder_mono(
    m: Map<Addr, i64>,
    m2: Map<Addr, i64>,
    pool_id: i64,
    i: int,
    opened: i64,
)
    requires
        1 <= i,
        forall|j: i64| i <= j <= opened ==> #[trigger] index_contrib(m2, pool_id, j)
            <= index_contrib(m, pool_id, j),
    ensures
        sweepable_remainder(m2, pool_id, i, opened) <= sweepable_remainder(m, pool_id, i, opened),
    decreases opened - i + 1,
{
    if i <= opened {
        lemma_remainder_mono(m, m2, pool_id, i + 1, opened);
    }
}

proof fn lemma_sweep_contrib_mono(
    m: Map<Addr, i64>,
    sweep_pool: i64,
    i: int,
    opened: i64,
    refund: i64,
    p: i64,
    j: i64,
)
    ensures
        index_contrib(sweep_claims(m, sweep_pool, i, opened, refund).0, p, j) <= index_contrib(
            m,
            p,
            j,
        ),
    decreases opened - i + 1,
{
    if i <= opened {
        let c = rcpt(m, P_POOL_CLAIM_INDEX, sweep_pool, i as i64);
        if c > 0 && fld(m, P_TYPE, c) == ENVELOPE_TYPE_CLAIM && fld(m, P_ACTIVE, c) != 0 && fld(
            m,
            P_REMAINING,
            c,
        ) > 0 {
            let rem = fld(m, P_REMAINING, c);
            let m2 = m.insert(field_key(P_REMAINING, c), 0).insert(field_key(P_ACTIVE, c), 0);
            assert(index_contrib(m2, p, j) <= index_contrib(m, p, j)) by {
                assert(rcpt(m2, P_POOL_CLAIM_INDEX, p, j) == rcpt(m, P_POOL_CLAIM_INDEX, p, j));
            }
            lemma_sweep_contrib_mono(m2, sweep_pool, i + 1, opened, sat_i64(refund + rem), p, j);
        } else {
            lemma_sweep_contrib_mono(m, sweep_pool, i + 1, opened, refund, p, j);
        }
    }
}

proof fn lemma_sweep_preserves_nonclaim(
    m: Map<Addr, i64>,
    sweep_pool: i64,
    i: int,
    opened: i64,
    refund: i64,
    x: i64,
)
    requires
        fld(m, P_TYPE, x) != ENVELOPE_TYPE_CLAIM,
    ensures
        fld(sweep_claims(m, sweep_pool, i, opened, refund).0, P_REMAINING, x) == fld(
            m,
            P_REMAINING,
            x,
        ),
        fld(sweep_claims(m, sweep_pool, i, opened, refund).0, P_ACTIVE, x) == fld(m, P_ACTIVE, x),
    decreases opened - i + 1,
{
    if i <= opened {
        let c = rcpt(m, P_POOL_CLAIM_INDEX, sweep_pool, i as i64);
        if c > 0 && fld(m, P_TYPE, c) == ENVELOPE_TYPE_CLAIM && fld(m, P_ACTIVE, c) != 0 && fld(
            m,
            P_REMAINING,
            c,
        ) > 0 {
            let rem = fld(m, P_REMAINING, c);
            let m2 = m.insert(field_key(P_REMAINING, c), 0).insert(field_key(P_ACTIVE, c), 0);
            assert(c != x);
            lemma_sweep_preserves_nonclaim(m2, sweep_pool, i + 1, opened, sat_i64(refund + rem), x);
        } else {
            lemma_sweep_preserves_nonclaim(m, sweep_pool, i + 1, opened, refund, x);
        }
    }
}

/// Every created entity's id lies within the allocation counter: a
/// fresh allocation can never collide with an existing entity.
pub open spec fn ids_registered(m: Map<Addr, i64>) -> bool {
    &&& 0 <= meta_val(m, K_NEXT_ID)
    &&& forall|x: i64| #[trigger] fld(m, P_CREATOR, x) != 0 ==> 1 <= x <= meta_val(m, K_NEXT_ID)
}

/// The claim index is registered: every entry sits at a sequence number
/// its pool has reached, names a pool and a claim within the counter,
/// and the entries of one pool grow strictly with the sequence number —
/// so distinct sequence numbers name distinct claims.
pub open spec fn claim_index_ok(m: Map<Addr, i64>) -> bool {
    &&& forall|p: i64, j: i64|
        #[trigger] rcpt(m, P_POOL_CLAIM_INDEX, p, j) != 0 ==> (1 <= j <= fld(m, P_OPENED, p) && 1
            <= p <= meta_val(m, K_NEXT_ID) && 1 <= rcpt(m, P_POOL_CLAIM_INDEX, p, j) <= meta_val(
            m,
            K_NEXT_ID,
        ))
    &&& forall|p: i64, j1: i64, j2: i64|
        #![trigger rcpt(m, P_POOL_CLAIM_INDEX, p, j1), rcpt(m, P_POOL_CLAIM_INDEX, p, j2)]
        (j1 < j2 && rcpt(m, P_POOL_CLAIM_INDEX, p, j1) != 0 && rcpt(m, P_POOL_CLAIM_INDEX, p, j2)
            != 0) ==> rcpt(m, P_POOL_CLAIM_INDEX, p, j1) < rcpt(m, P_POOL_CLAIM_INDEX, p, j2)
}

proof fn lemma_create_registration(
    m: Map<Addr, i64>,
    now: i64,
    from: i64,
    amount: i64,
    packet_count: i64,
    expiry_ms: i64,
    envelope_type: i64,
    update_totals: bool,
)
    requires
        ids_registered(m),
        claim_index_ok(m),
        meta_val(m, K_NEXT_ID) < i64::MAX,
    ensures
        ({
            let m2 = create_envelope_spec(
                m,
                now,
                from,
                amount,
                packet_count,
                expiry_ms,
                envelope_type,
                update_totals,
            ).0;
            ids_registered(m2) && claim_index_ok(m2)
        }),
{
    if create_valid(from, amount, packet_count, expiry_ms, envelope_type) {
        let fresh = sat_i64(meta_val(m, K_NEXT_ID) + 1);
        assert(fresh == meta_val(m, K_NEXT_ID) + 1);
        let m2 = create_envelope_spec(
            m,
            now,
            from,
            amount,
            packet_count,
            expiry_ms,
            envelope_type,
            update_totals,
        ).0;
        assert forall|x: i64| #[trigger] fld(m2, P_CREATOR, x) != 0 implies 1 <= x <= meta_val(
            m2,
            K_NEXT_ID,
        ) by {
            if x != fresh {
                assert(fld(m2, P_CREATOR, x) == fld(m, P_CREATOR, x));
            }
        }
        assert forall|p: i64, j: i64| #[trigger] rcpt(m2, P_POOL_CLAIM_INDEX, p, j)
            != 0 implies (1 <= j <= fld(m2, P_OPENED, p) && 1 <= p <= meta_val(m2, K_NEXT_ID) && 1
            <= rcpt(m2, P_POOL_CLAIM_INDEX, p, j) <= meta_val(m2, K_NEXT_ID)) by {
            assert(rcpt(m2, P_POOL_CLAIM_INDEX, p, j) == rcpt(m, P_POOL_CLAIM_INDEX, p, j));
            assert(p <= meta_val(m, K_NEXT_ID));
            assert(p != fresh);
            assert(fld(m2, P_OPENED, p) == fld(m, P_OPENED, p));
        }
        assert forall|p: i64, j1: i64, j2: i64|
            #![trigger rcpt(m2, P_POOL_CLAIM_INDEX, p, j1), rcpt(m2, P_POOL_CLAIM_INDEX, p, j2)]
            (j1 < j2 && rcpt(m2, P_POOL_CLAIM_INDEX, p, j1) != 0 && rcpt(
                m2,
                P_POOL_CLAIM_INDEX,
                p,
                j2,
            ) != 0) implies rcpt(m2, P_POOL_CLAIM_INDEX, p, j1) < rcpt(
            m2,
            P_POOL_CLAIM_INDEX,
            p,
            j2,
        ) by {
            assert(rcpt(m2, P_POOL_CLAIM_INDEX, p, j1) == rcpt(m, P_POOL_CLAIM_INDEX, p, j1));
            assert(rcpt(m2, P_POOL_CLAIM_INDEX, p, j2) == rcpt(m, P_POOL_CLAIM_INDEX, p, j2));
        }
    }
}

/// One event keeps the ledger registered: ids stay within the counter
/// and the claim index keeps naming distinct claims.
proof fn lemma_event_preserves_registration(m: Map<Addr, i64>, e: Event)
    requires
        forall|x: i64| #[trigger] unit_wf(m, x),
        ids_registered(m),
        claim_index_ok(m),
        meta_val(m, K_NEXT_ID) < i64::MAX,
    ensures
        ids_registered(apply_event(m, e)),
        claim_index_ok(apply_event(m, e)),
{
    let m2 = apply_event(m, e);
    match e {
        Event::Create { now, from, amount, packet_count, expiry_ms, envelope_type, update_totals } => {
            lemma_create_registration(
                m,
                now,
                from,
                amount,
                packet_count,
                expiry_ms,
                envelope_type,
                update_totals,
            );
        },
        Event::OpenEnvelope { now, entropy, envelope_id, opener } => {
            if open_envelope_spec(m, now, entropy, envelope_id, opener).1 != 0 {
                assert(unit_wf(m, envelope_id));
                assert forall|x: i64| #[trigger] fld(m2, P_CREATOR, x) != 0 implies 1 <= x
                    <= meta_val(m2, K_NEXT_ID) by {
                    assert(fld(m2, P_CREATOR, x) == fld(m, P_CREATOR, x));
                }
                assert forall|p: i64, j: i64| #[trigger] rcpt(m2, P_POOL_CLAIM_INDEX, p, j)
                    != 0 implies (1 <= j <= fld(m2, P_OPENED, p) && 1 <= p <= meta_val(
                    m2,
                    K_NEXT_ID,
                ) && 1 <= rcpt(m2, P_POOL_CLAIM_INDEX, p, j) <= meta_val(m2, K_NEXT_ID)) by {
                    assert(rcpt(m2, P_POOL_CLAIM_INDEX, p, j) == rcpt(
                        m,
                        P_POOL_CLAIM_INDEX,
                        p,
                        j,
                    ));
                    if p == envelope_id {
                        assert(fld(m2, P_OPENED, p) == sat_i64(fld(m, P_OPENED, p) + 1));
                        assert(fld(m, P_OPENED, p) < fld(m, P_PACKET, p));
                    } else {
                        assert(fld(m2, P_OPENED, p) == fld(m, P_OPENED, p));
                    }
                }
                assert forall|p: i64, j1: i64, j2: i64|
                    #![trigger rcpt(m2, P_POOL_CLAIM_INDEX, p, j1), rcpt(m2, P_POOL_CLAIM_INDEX, p, j2)]
                    (j1 < j2 && rcpt(m2, P_POOL_CLAIM_INDEX, p, j1) != 0 && rcpt(
                        m2,
                        P_POOL_CLAIM_INDEX,
                        p,
                        j2,
                    ) != 0) implies rcpt(m2, P_POOL_CLAIM_INDEX, p, j1) < rcpt(
                    m2,
                    P_POOL_CLAIM_INDEX,
                    p,
                    j2,
                ) by {
                    assert(rcpt(m2, P_POOL_CLAIM_INDEX, p, j1) == rcpt(
                        m,
                        P_POOL_CLAIM_INDEX,
                        p,
                        j1,
                    ));
                    assert(rcpt(m2, P_POOL_CLAIM_INDEX, p, j2) == rcpt(
                        m,
                        P_POOL_CLAIM_INDEX,
                        p,
                        j2,
                    ));
                }
            }
        },
        Event::ClaimFromPool { now, entropy, pool_id, claimer } => {
            if claim_from_pool_allowed(m, now, pool_id, claimer) {
                let amt = calc_packet_spec(
                    fld(m, P_REMAINING, pool_id),
                    sat_i64(fld(m, P_PACKET, pool_id) - fld(m, P_OPENED, pool_id)),
                    0,
                    fld(m, P_TOTAL, pool_id),
                    fld(m, P_PACKET, pool_id),
                    entropy,
                );
                if 0 < amt <= fld(m, P_REMAINING, pool_id) {
                    let next0 = meta_val(m, K_NEXT_ID);
                    let fresh = sat_i64(next0 + 1);
                    assert(fresh == next0 + 1);
                    let opened0 = fld(m, P_OPENED, pool_id);
                    assert(unit_wf(m, pool_id));
                    assert(0 <= opened0 < fld(m, P_PACKET, pool_id));
                    let opened2 = sat_i64(opened0 + 1);
                    assert(opened2 == opened0 + 1);
                    assert(meta_val(m2, K_NEXT_ID) == fresh);
                    assert forall|x: i64| #[trigger] fld(m2, P_CREATOR, x) != 0 implies 1 <= x
                        <= meta_val(m2, K_NEXT_ID) by {
                        if x != fresh {
                            assert(fld(m2, P_CREATOR, x) == fld(m, P_CREATOR, x));
                        }
                    }
                    assert forall|p: i64, j: i64| #[trigger] rcpt(m2, P_POOL_CLAIM_INDEX, p, j)
                        != 0 implies (1 <= j <= fld(m2, P_OPENED, p) && 1 <= p <= meta_val(
                        m2,
                        K_NEXT_ID,
                    ) && 1 <= rcpt(m2, P_POOL_CLAIM_INDEX, p, j) <= meta_val(m2, K_NEXT_ID)) by {
                        if p == pool_id && j == opened2 {
                            assert(rcpt(m2, P_POOL_CLAIM_INDEX, p, j) == fresh);
                            assert(fld(m2, P_OPENED, pool_id) == opened2);
                            assert(1 <= pool_id <= next0);
                        } else {
                            assert(rcpt(m2, P_POOL_CLAIM_INDEX, p, j) == rcpt(
                                m,
                                P_POOL_CLAIM_INDEX,
                                p,
                                j,
                            ));
                            if p == pool_id {
                                assert(fld(m2, P_OPENED, p) == opened2);
                            } else {
                                assert(fld(m2, P_OPENED, p) == fld(m, P_OPENED, p));
                            }
                        }
                    }
                    assert forall|p: i64, j1: i64, j2: i64|
                        #![trigger rcpt(m2, P_POOL_CLAIM_INDEX, p, j1), rcpt(m2, P_POOL_CLAIM_INDEX, p, j2)]
                        (j1 < j2 && rcpt(m2, P_POOL_CLAIM_INDEX, p, j1) != 0 && rcpt(
                            m2,
                            P_POOL_CLAIM_INDEX,
                            p,
                            j2,
                        ) != 0) implies rcpt(m2, P_POOL_CLAIM_INDEX, p, j1) < rcpt(
                        m2,
                        P_POOL_CLAIM_INDEX,
                        p,
                        j2,
                    ) by {
                        if p == pool_id && j2 == opened2 {
                            assert(rcpt(m2, P_POOL_CLAIM_INDEX, p, j2) == fresh);
                            assert(j1 != opened2);
                            assert(rcpt(m2, P_POOL_CLAIM_INDEX, p, j1) == rcpt(
                                m,
                                P_POOL_CLAIM_INDEX,
                                p,
                                j1,
                            ));
                            assert(rcpt(m, P_POOL_CLAIM_INDEX, p, j1) <= next0);
                        } else if p == pool_id && j1 == opened2 {
                            assert(rcpt(m2, P_POOL_CLAIM_INDEX, p, j2) == rcpt(
                                m,
                                P_POOL_CLAIM_INDEX,
                                p,
                                j2,
                            ));
                            assert(rcpt(m, P_POOL_CLAIM_INDEX, p, j2) == 0) by {
                                if rcpt(m, P_POOL_CLAIM_INDEX, p, j2) != 0 {
                                    assert(j2 <= fld(m, P_OPENED, p));
                                }
                            }
                        } else {
                            assert(rcpt(m2, P_POOL_CLAIM_INDEX, p, j1) == rcpt(
                                m,
                                P_POOL_CLAIM_INDEX,
                                p,
                                j1,
                            ));
                            assert(rcpt(m2, P_POOL_CLAIM_INDEX, p, j2) == rcpt(
                                m,
                                P_POOL_CLAIM_INDEX,
                                p,
                                j2,
                            ));
                        }
                    }
                }
            }
        },
        Event::OpenClaim { now, claim_id, opener } => {
            if open_claim_spec(m, now, claim_id, opener).1 != 0 {
                assert forall|x: i64| #[trigger] fld(m2, P_CREATOR, x) != 0 implies 1 <= x
                    <= meta_val(m2, K_NEXT_ID) by {
                    assert(fld(m2, P_CREATOR, x) == fld(m, P_CREATOR, x));
                }
                assert forall|p: i64, j: i64| #[trigger] rcpt(m2, P_POOL_CLAIM_INDEX, p, j)
                    != 0 implies (1 <= j <= fld(m2, P_OPENED, p) && 1 <= p <= meta_val(
                    m2,
                    K_NEXT_ID,
                ) && 1 <= rcpt(m2, P_POOL_CLAIM_INDEX, p, j) <= meta_val(m2, K_NEXT_ID)) by {
                    assert(rcpt(m2, P_POOL_CLAIM_INDEX, p, j) == rcpt(
                        m,
                        P_POOL_CLAIM_INDEX,
                        p,
                        j,
                    ));
                    if p == claim_id {
                        assert(fld(m, P_OPENED, p) <= 0);
                    } else {
                        assert(fld(m2, P_OPENED, p) == fld(m, P_OPENED, p));
                    }
                }
                assert forall|p: i64, j1: i64, j2: i64|
                    #![trigger rcpt(m2, P_POOL_CLAIM_INDEX, p, j1), rcpt(m2, P_POOL_CLAIM_INDEX, p, j2)]
                    (j1 < j2 && rcpt(m2, P_POOL_CLAIM_INDEX, p, j1) != 0 && rcpt(
                        m2,
                        P_POOL_CLAIM_INDEX,
                        p,
                        j2,
                    ) != 0) implies rcpt(m2, P_POOL_CLAIM_INDEX, p, j1) < rcpt(
                    m2,
                    P_POOL_CLAIM_INDEX,
                    p,
                    j2,
                ) by {
                    assert(rcpt(m2, P_POOL_CLAIM_INDEX, p, j1) == rcpt(
                        m,
                        P_POOL_CLAIM_INDEX,
                        p,
                        j1,
                    ));
                    assert(rcpt(m2, P_POOL_CLAIM_INDEX, p, j2) == rcpt(
                        m,
                        P_POOL_CLAIM_INDEX,
                        p,
                        j2,
                    ));
                }
            }
        },
        Event::Transfer { token_id, to } => {
            lemma_registration_untouched_fields(m, m2);
        },
        Event::TransferEnvelope { envelope_id, from, to } => {
            lemma_registration_untouched_fields(m, m2);
        },
        Event::TransferClaim { claim_id, from, to } => {
            lemma_registration_untouched_fields(m, m2);
        },
        Event::ReclaimEnvelope { now, envelope_id, creator } => {
            lemma_registration_untouched_fields(m, m2);
        },
        Event::ReclaimPool { now, pool_id, creator } => {
            if reclaim_pool_allowed(m, now, pool_id, creator) {
                let opened = fld(m, P_OPENED, pool_id);
                let refund0 = fld(m, P_REMAINING, pool_id);
                assert forall|x: i64| fld(
                    sweep_claims(m, pool_id, 1, opened, refund0).0,
                    P_CREATOR,
                    x,
                ) == fld(m, P_CREATOR, x) && fld(
                    sweep_claims(m, pool_id, 1, opened, refund0).0,
                    P_OPENED,
                    x,
                ) == fld(m, P_OPENED, x) by {
                    lemma_sweep_frame(m, pool_id, 1, opened, refund0, field_key(P_CREATOR, x));
                    lemma_sweep_frame(m, pool_id, 1, opened, refund0, field_key(P_OPENED, x));
                }
                assert forall|p: i64, j: i64| rcpt(
                    sweep_claims(m, pool_id, 1, opened, refund0).0,
                    P_POOL_CLAIM_INDEX,
                    p,
                    j,
                ) == rcpt(m, P_POOL_CLAIM_INDEX, p, j) by {
                    lemma_sweep_frame(
                        m,
                        pool_id,
                        1,
                        opened,
                        refund0,
                        receipt_key(P_POOL_CLAIM_INDEX, p, j),
                    );
                }
                lemma_sweep_frame(m, pool_id, 1, opened, refund0, meta_key(K_NEXT_ID));
                lemma_registration_untouched_fields(
                    m,
                    sweep_claims(m, pool_id, 1, opened, refund0).0,
                );
                lemma_registration_untouched_fields(
                    sweep_claims(m, pool_id, 1, opened, refund0).0,
                    m2,
                );
            }
        },
        Event::Payment { now, from, amount, data } => {
            if !(meta_val(m, K_PAUSED) != 0 || from == 0 || amount < MIN_AMOUNT) {
                let decoded = decode_payment_data(data);
                if !(decoded.0 <= 0 || decoded.0 > MAX_PACKETS || amount < decoded.0
                    * MIN_PER_PACKET || !(decoded.1 == ENVELOPE_TYPE_SPREADING || decoded.1
                    == ENVELOPE_TYPE_POOL)) {
                    lemma_create_registration(
                        m,
                        now,
                        from,
                        amount,
                        decoded.0,
                        decoded.2,
                        decoded.1,
                        true,
                    );
                }
            }
        },
        Event::SetOwner { new_owner } => {
            lemma_registration_untouched_fields(m, m2);
        },
        Event::Pause => {
            lemma_registration_untouched_fields(m, m2);
        },
        Event::Resume => {
            lemma_registration_untouched_fields(m, m2);
        },
    }
}

/// Registration carries over to any map that agrees on the creator
/// fields, opened counters, claim-index entries and the id counter.
proof fn lemma_registration_untouched_fields(m: Map<Addr, i64>, m2: Map<Addr, i64>)
    requires
        ids_registered(m),
        claim_index_ok(m),
        meta_val(m2, K_NEXT_ID) == meta_val(m, K_NEXT_ID),
        forall|x: i64| #[trigger] fld(m2, P_CREATOR, x) == fld(m, P_CREATOR, x),
        forall|x: i64| #[trigger] fld(m2, P_OPENED, x) == fld(m, P_OPENED, x),
        forall|p: i64, j: i64| #[trigger] rcpt(m2, P_POOL_CLAIM_INDEX, p, j) == rcpt(
            m,
            P_POOL_CLAIM_INDEX,
            p,
            j,
        ),
    ensures
        ids_registered(m2),
        claim_index_ok(m2),
{
    assert forall|p: i64, j1: i64, j2: i64|
        #![trigger rcpt(m2, P_POOL_CLAIM_INDEX, p, j1), rcpt(m2, P_POOL_CLAIM_INDEX, p, j2)]
        (j1 < j2 && rcpt(m2, P_POOL_CLAIM_INDEX, p, j1) != 0 && rcpt(m2, P_POOL_CLAIM_INDEX, p, j2)
            != 0) implies rcpt(m2, P_POOL_CLAIM_INDEX, p, j1) < rcpt(
        m2,
        P_POOL_CLAIM_INDEX,
        p,
        j2,
    ) by {
        assert(rcpt(m2, P_POOL_CLAIM_INDEX, p, j1) == rcpt(m, P_POOL_CLAIM_INDEX, p, j1));
        assert(rcpt(m2, P_POOL_CLAIM_INDEX, p, j2) == rcpt(m, P_POOL_CLAIM_INDEX, p, j2));
    }
}

/// Induction over a history: unit shapes are preserved, the id counter
/// grows by at most one per event, the tracked unit's total and packet
/// count never change, and its remaining balance drops by at least the
/// accumulated payouts.
proof fn lemma_history_facts(m0: Map<Addr, i64>, events: Seq<Event>, id: i64)
    requires
        forall|x: i64| #[trigger] unit_wf(m0, x),
        id <= meta_val(m0, K_NEXT_ID),
        meta_val(m0, K_NEXT_ID) + events.len() <= i64::MAX,
    ensures
        ({
            let mn = run_events(m0, events);
            &&& forall|x: i64| #[trigger] unit_wf(mn, x)
            &&& meta_val(m0, K_NEXT_ID) <= meta_val(mn, K_NEXT_ID) <= meta_val(m0, K_NEXT_ID)
                + events.len()
            &&& fld(mn, P_TOTAL, id) == fld(m0, P_TOTAL, id)
            &&& fld(mn, P_PACKET, id) == fld(m0, P_PACKET, id)
            &&& 0 <= total_paid(m0, events, id)
            &&& total_paid(m0, events, id) + fld(mn, P_REMAINING, id) <= fld(m0, P_REMAINING, id)
        }),
    decreases events.len(),
{
    if events.len() > 0 {
        let prefix = events.drop_last();
        lemma_history_facts(m0, prefix, id);
        lemma_event_step(run_events(m0, prefix), events.last(), id);
    }
}

/// Pool-family conservation: an existing pool's remaining funds plus
/// the remainders of its active, un-opened spawned claims never exceed
/// the pool's total deposit — so an expiry refund always fits in the
/// machine range.
pub open spec fn pool_funds_ok(m: Map<Addr, i64>) -> bool {
    forall|p: i64|
        #![trigger fld(m, P_TYPE, p)]
        (fld(m, P_CREATOR, p) != 0 && fld(m, P_TYPE, p) == ENVELOPE_TYPE_POOL) ==> fld(
            m,
            P_REMAINING,
            p,
        ) + sweepable_remainder(m, p, 1, fld(m, P_OPENED, p)) <= fld(m, P_TOTAL, p)
}

/// Pool-family conservation carries over to any map that agrees on all
/// entity fields and claim-index entries.
proof fn lemma_pool_funds_untouched(m: Map<Addr, i64>, m2: Map<Addr, i64>)
    requires
        pool_funds_ok(m),
        forall|x: i64| #[trigger] fld(m2, P_CREATOR, x) == fld(m, P_CREATOR, x),
        forall|x: i64| #[trigger] fld(m2, P_TYPE, x) == fld(m, P_TYPE, x),
        forall|x: i64| #[trigger] fld(m2, P_REMAINING, x) == fld(m, P_REMAINING, x),
        forall|x: i64| #[trigger] fld(m2, P_ACTIVE, x) == fld(m, P_ACTIVE, x),
        forall|x: i64| #[trigger] fld(m2, P_TOTAL, x) == fld(m, P_TOTAL, x),
        forall|x: i64| #[trigger] fld(m2, P_OPENED, x) == fld(m, P_OPENED, x),
        forall|p: i64, j: i64| #[trigger] rcpt(m2, P_POOL_CLAIM_INDEX, p, j) == rcpt(
            m,
            P_POOL_CLAIM_INDEX,
            p,
            j,
        ),
    ensures
        pool_funds_ok(m2),
{
    assert forall|p: i64|
        #![trigger fld(m2, P_TYPE, p)]
        (fld(m2, P_CREATOR, p) != 0 && fld(m2, P_TYPE, p) == ENVELOPE_TYPE_POOL) implies fld(
        m2,
        P_REMAINING,
        p,
    ) + sweepable_remainder(m2, p, 1, fld(m2, P_OPENED, p)) <= fld(m2, P_TOTAL, p) by {
        assert forall|j: i64| 1 <= j <= fld(m, P_OPENED, p) implies #[trigger] index_contrib(
            m2,
            p,
            j,
        ) == index_contrib(m, p, j) by {
            assert(rcpt(m2, P_POOL_CLAIM_INDEX, p, j) == rcpt(m, P_POOL_CLAIM_INDEX, p, j));
            let c = rcpt(m, P_POOL_CLAIM_INDEX, p, j);
            assert(fld(m2, P_TYPE, c) == fld(m, P_TYPE, c));
            assert(fld(m2, P_ACTIVE, c) == fld(m, P_ACTIVE, c));
            assert(fld(m2, P_REMAINING, c) == fld(m, P_REMAINING, c));
        }
        lemma_remainder_eq(m, m2, p, 1, fld(m, P_OPENED, p));
    }
}

proof fn lemma_create_pool_funds(
    m: Map<Addr, i64>,
    now: i64,
    from: i64,
    amount: i64,
    packet_count: i64,
    expiry_ms: i64,
    envelope_type: i64,
    update_totals: bool,
)
    requires
        ids_registered(m),
        claim_index_ok(m),
        pool_funds_ok(m),
        meta_val(m, K_NEXT_ID) < i64::MAX,
    ensures
        pool_funds_ok(
            create_envelope_spec(
                m,
                now,
                from,
                amount,
                packet_count,
                expiry_ms,
                envelope_type,
                update_totals,
            ).0,
        ),
{
    if create_valid(from, amount, packet_count, expiry_ms, envelope_type) {
        let next0 = meta_val(m, K_NEXT_ID);
        let fresh = sat_i64(next0 + 1);
        assert(fresh == next0 + 1);
        let m2 = create_envelope_spec(
            m,
            now,
            from,
            amount,
            packet_count,
            expiry_ms,
            envelope_type,
            update_totals,
        ).0;
        assert forall|p: i64|
            #![trigger fld(m2, P_TYPE, p)]
            (fld(m2, P_CREATOR, p) != 0 && fld(m2, P_TYPE, p) == ENVELOPE_TYPE_POOL) implies fld(
            m2,
            P_REMAINING,
            p,
        ) + sweepable_remainder(m2, p, 1, fld(m2, P_OPENED, p)) <= fld(m2, P_TOTAL, p) by {
            if p == fresh {
                assert(fld(m2, P_OPENED, p) == 0);
                assert(sweepable_remainder(m2, p, 1, 0) == 0);
                assert(fld(m2, P_REMAINING, p) == amount);
                assert(fld(m2, P_TOTAL, p) == amount);
            } else {
                assert(fld(m2, P_CREATOR, p) == fld(m, P_CREATOR, p));
                assert(fld(m2, P_TYPE, p) == fld(m, P_TYPE, p));
                assert(fld(m2, P_REMAINING, p) == fld(m, P_REMAINING, p));
                assert(fld(m2, P_TOTAL, p) == fld(m, P_TOTAL, p));
                assert(fld(m2, P_OPENED, p) == fld(m, P_OPENED, p));
                assert forall|j: i64| 1 <= j <= fld(m, P_OPENED, p) implies #[trigger] index_contrib(
                    m2,
                    p,
                    j,
                ) == index_contrib(m, p, j) by {
                    assert(rcpt(m2, P_POOL_CLAIM_INDEX, p, j) == rcpt(
                        m,
                        P_POOL_CLAIM_INDEX,
                        p,
                        j,
                    ));
                    let c = rcpt(m, P_POOL_CLAIM_INDEX, p, j);
                    if c != 0 {
                        assert(1 <= c <= next0);
                        assert(c != fresh);
                        assert(fld(m2, P_TYPE, c) == fld(m, P_TYPE, c));
                        assert(fld(m2, P_ACTIVE, c) == fld(m, P_ACTIVE, c));
                        assert(fld(m2, P_REMAINING, c) == fld(m, P_REMAINING, c));
                    }
                }
                lemma_remainder_eq(m, m2, p, 1, fld(m, P_OPENED, p));
            }
        }
    }
}

#[verifier::rlimit(60)]
proof fn lemma_claim_pool_funds(
    m: Map<Addr, i64>,
    now: i64,
    entropy: i64,
    pool_id: i64,
    claimer: i64,
)
    requires
        forall|x: i64| #[trigger] unit_wf(m, x),
        ids_registered(m),
        claim_index_ok(m),
        pool_funds_ok(m),
        meta_val(m, K_NEXT_ID) < i64::MAX,
    ensures
        pool_funds_ok(claim_from_pool_spec(m, now, entropy, pool_id, claimer).0),
{
    let m2 = claim_from_pool_spec(m, now, entropy, pool_id, claimer).0;
    if claim_from_pool_allowed(m, now, pool_id, claimer) {
        let rem0 = fld(m, P_REMAINING, pool_id);
        let amt = calc_packet_spec(
            rem0,
            sat_i64(fld(m, P_PACKET, pool_id) - fld(m, P_OPENED, pool_id)),
            0,
            fld(m, P_TOTAL, pool_id),
            fld(m, P_PACKET, pool_id),
            entropy,
        );
        if 0 < amt <= rem0 {
            let next0 = meta_val(m, K_NEXT_ID);
            let fresh = sat_i64(next0 + 1);
            assert(fresh == next0 + 1);
            assert(1 <= pool_id <= next0);
            assert(fresh != pool_id);
            let opened0 = fld(m, P_OPENED, pool_id);
            assert(unit_wf(m, pool_id));
            assert(0 <= opened0 < fld(m, P_PACKET, pool_id));
            let opened2 = sat_i64(opened0 + 1);
            assert(opened2 == opened0 + 1);
            assert forall|p: i64|
                #![trigger fld(m2, P_TYPE, p)]
                (fld(m2, P_CREATOR, p) != 0 && fld(m2, P_TYPE, p)
                    == ENVELOPE_TYPE_POOL) implies fld(m2, P_REMAINING, p) + sweepable_remainder(
                m2,
                p,
                1,
                fld(m2, P_OPENED, p),
            ) <= fld(m2, P_TOTAL, p) by {
                if p == fresh {
                    assert(fld(m2, P_TYPE, fresh) == ENVELOPE_TYPE_CLAIM);
                } else if p == pool_id {
                    assert(fld(m2, P_REMAINING, p) == sat_i64(rem0 - amt));
                    assert(sat_i64(rem0 - amt) == rem0 - amt);
                    assert(fld(m2, P_OPENED, p) == opened2);
                    assert(fld(m2, P_TOTAL, p) == fld(m, P_TOTAL, p));
                    lemma_remainder_snoc(m2, p, 1, opened2);
                    assert((opened2 - 1) as i64 == opened0);
                    assert(rcpt(m2, P_POOL_CLAIM_INDEX, p, opened2) == fresh);
                    assert(fld(m2, P_TYPE, fresh) == ENVELOPE_TYPE_CLAIM);
                    assert(fld(m2, P_ACTIVE, fresh) == 1);
                    assert(fld(m2, P_REMAINING, fresh) == amt);
                    assert(fresh > 0);
                    assert(index_contrib(m2, p, opened2) == amt);
                    assert forall|j: i64| 1 <= j <= opened0 implies #[trigger] index_contrib(
                        m2,
                        p,
                        j,
                    ) == index_contrib(m, p, j) by {
                        assert(j != opened2);
                        assert(rcpt(m2, P_POOL_CLAIM_INDEX, p, j) == rcpt(
                            m,
                            P_POOL_CLAIM_INDEX,
                            p,
                            j,
                        ));
                        let c = rcpt(m, P_POOL_CLAIM_INDEX, p, j);
                        if c > 0 {
                            assert(1 <= c <= next0);
                            assert(c != fresh);
                            if c == pool_id {
                                assert(fld(m, P_TYPE, c) == ENVELOPE_TYPE_POOL);
                                assert(fld(m2, P_TYPE, c) == ENVELOPE_TYPE_POOL);
                            } else {
                                assert(fld(m2, P_TYPE, c) == fld(m, P_TYPE, c));
                                assert(fld(m2, P_ACTIVE, c) == fld(m, P_ACTIVE, c));
                                assert(fld(m2, P_REMAINING, c) == fld(m, P_REMAINING, c));
                            }
                        }
                    }
                    lemma_remainder_eq(m, m2, p, 1, opened0);
                    assert(fld(m, P_CREATOR, p) != 0 && fld(m, P_TYPE, p) == ENVELOPE_TYPE_POOL);
                } else {
                    assert(fld(m2, P_CREATOR, p) == fld(m, P_CREATOR, p));
                    assert(fld(m2, P_TYPE, p) == fld(m, P_TYPE, p));
                    assert(fld(m2, P_REMAINING, p) == fld(m, P_REMAINING, p));
                    assert(fld(m2, P_TOTAL, p) == fld(m, P_TOTAL, p));
                    assert(fld(m2, P_OPENED, p) == fld(m, P_OPENED, p));
                    assert forall|j: i64| 1 <= j <= fld(m, P_OPENED, p) implies #[trigger] index_contrib(
                        m2,
                        p,
                        j,
                    ) == index_contrib(m, p, j) by {
                        assert(rcpt(m2, P_POOL_CLAIM_INDEX, p, j) == rcpt(
                            m,
                            P_POOL_CLAIM_INDEX,
                            p,
                            j,
                        ));
                        let c = rcpt(m, P_POOL_CLAIM_INDEX, p, j);
                        if c > 0 {
                            assert(1 <= c <= next0);
                            assert(c != fresh);
                            if c == pool_id {
                                assert(fld(m, P_TYPE, c) == ENVELOPE_TYPE_POOL);
                                assert(fld(m2, P_TYPE, c) == ENVELOPE_TYPE_POOL);
                            } else {
                                assert(fld(m2, P_TYPE, c) == fld(m, P_TYPE, c));
                                assert(fld(m2, P_ACTIVE, c) == fld(m, P_ACTIVE, c));
                                assert(fld(m2, P_REMAINING, c) == fld(m, P_REMAINING, c));
                            }
                        }
                    }
                    lemma_remainder_eq(m, m2, p, 1, fld(m, P_OPENED, p));
                }
            }
        }
    }
}

/// One event preserves pool-family conservation.
#[verifier::rlimit(60)]
proof fn lemma_event_preserves_pool_funds(m: Map<Addr, i64>, e: Event)
    requires
        forall|x: i64| #[trigger] unit_wf(m, x),
        ids_registered(m),
        claim_index_ok(m),
        pool_funds_ok(m),
        meta_val(m, K_NEXT_ID) < i64::MAX,
    ensures
        pool_funds_ok(apply_event(m, e)),
{
    let m2 = apply_event(m, e);
    match e {
        Event::Create { now, from, amount, packet_count, expiry_ms, envelope_type, update_totals } => {
            lemma_create_pool_funds(
                m,
                now,
                from,
                amount,
                packet_count,
                expiry_ms,
                envelope_type,
                update_totals,
            );
        },
        Event::OpenEnvelope { now, entropy, envelope_id, opener } => {
            if open_envelope_spec(m, now, entropy, envelope_id, opener).1 != 0 {
                assert forall|p: i64|
                    #![trigger fld(m2, P_TYPE, p)]
                    (fld(m2, P_CREATOR, p) != 0 && fld(m2, P_TYPE, p)
                        == ENVELOPE_TYPE_POOL) implies fld(m2, P_REMAINING, p)
                    + sweepable_remainder(m2, p, 1, fld(m2, P_OPENED, p)) <= fld(
                    m2,
                    P_TOTAL,
                    p,
                ) by {
                    assert(fld(m2, P_TYPE, p) == fld(m, P_TYPE, p));
                    assert(p != envelope_id);
                    assert(fld(m2, P_CREATOR, p) == fld(m, P_CREATOR, p));
                    assert(fld(m2, P_REMAINING, p) == fld(m, P_REMAINING, p));
                    assert(fld(m2, P_TOTAL, p) == fld(m, P_TOTAL, p));
                    assert(fld(m2, P_OPENED, p) == fld(m, P_OPENED, p));
                    assert forall|j: i64| 1 <= j <= fld(m, P_OPENED, p) implies #[trigger] index_contrib(
                        m2,
                        p,
                        j,
                    ) == index_contrib(m, p, j) by {
                        assert(rcpt(m2, P_POOL_CLAIM_INDEX, p, j) == rcpt(
                            m,
                            P_POOL_CLAIM_INDEX,
                            p,
                            j,
                        ));
                        let c = rcpt(m, P_POOL_CLAIM_INDEX, p, j);
                        if c > 0 {
                            if c == envelope_id {
                                assert(fld(m, P_TYPE, c) == ENVELOPE_TYPE_SPREADING);
                                assert(fld(m2, P_TYPE, c) == ENVELOPE_TYPE_SPREADING);
                            } else {
                                assert(fld(m2, P_TYPE, c) == fld(m, P_TYPE, c));
                                assert(fld(m2, P_ACTIVE, c) == fld(m, P_ACTIVE, c));
                                assert(fld(m2, P_REMAINING, c) == fld(m, P_REMAINING, c));
                            }
                        }
                    }
                    lemma_remainder_eq(m, m2, p, 1, fld(m, P_OPENED, p));
                }
            }
        },
        Event::ClaimFromPool { now, entropy, pool_id, claimer } => {
            lemma_claim_pool_funds(m, now, entropy, pool_id, claimer);
        },
        Event::OpenClaim { now, claim_id, opener } => {
            if open_claim_spec(m, now, claim_id, opener).1 != 0 {
                assert forall|p: i64|
                    #![trigger fld(m2, P_TYPE, p)]
                    (fld(m2, P_CREATOR, p) != 0 && fld(m2, P_TYPE, p)
                        == ENVELOPE_TYPE_POOL) implies fld(m2, P_REMAINING, p)
                    + sweepable_remainder(m2, p, 1, fld(m2, P_OPENED, p)) <= fld(
                    m2,
                    P_TOTAL,
                    p,
                ) by {
                    assert(fld(m2, P_TYPE, p) == fld(m, P_TYPE, p));
                    assert(p != claim_id);
                    assert(fld(m2, P_CREATOR, p) == fld(m, P_CREATOR, p));
                    assert(fld(m2, P_REMAINING, p) == fld(m, P_REMAINING, p));
                    assert(fld(m2, P_TOTAL, p) == fld(m, P_TOTAL, p));
                    assert(fld(m2, P_OPENED, p) == fld(m, P_OPENED, p));
                    assert forall|j: i64| 1 <= j <= fld(m, P_OPENED, p) implies #[trigger] index_contrib(
                        m2,
                        p,
                        j,
                    ) <= index_contrib(m, p, j) by {
                        assert(rcpt(m2, P_POOL_CLAIM_INDEX, p, j) == rcpt(
                            m,
                            P_POOL_CLAIM_INDEX,
                            p,
                            j,
                        ));
                        let c = rcpt(m, P_POOL_CLAIM_INDEX, p, j);
                        if c > 0 {
                            if c == claim_id {
                                assert(fld(m2, P_ACTIVE, c) == 0);
                                assert(index_contrib(m2, p, j) == 0);
                            } else {
                                assert(fld(m2, P_TYPE, c) == fld(m, P_TYPE, c));
                                assert(fld(m2, P_ACTIVE, c) == fld(m, P_ACTIVE, c));
                                assert(fld(m2, P_REMAINING, c) == fld(m, P_REMAINING, c));
                            }
                        }
                    }
                    lemma_remainder_mono(m, m2, p, 1, fld(m, P_OPENED, p));
                }
            }
        },
        Event::Transfer { token_id, to } => {
            lemma_pool_funds_untouched(m, m2);
        },
        Event::TransferEnvelope { envelope_id, from, to } => {
            lemma_pool_funds_untouched(m, m2);
        },
        Event::TransferClaim { claim_id, from, to } => {
            lemma_pool_funds_untouched(m, m2);
        },
        Event::ReclaimEnvelope { now, envelope_id, creator } => {
            if reclaim_envelope_spec(m, now, envelope_id, creator).1 != 0 {
                assert forall|p: i64|
                    #![trigger fld(m2, P_TYPE, p)]
                    (fld(m2, P_CREATOR, p) != 0 && fld(m2, P_TYPE, p)
                        == ENVELOPE_TYPE_POOL) implies fld(m2, P_REMAINING, p)
                    + sweepable_remainder(m2, p, 1, fld(m2, P_OPENED, p)) <= fld(
                    m2,
                    P_TOTAL,
                    p,
                ) by {
                    assert(fld(m2, P_TYPE, p) == fld(m, P_TYPE, p));
                    assert(p != envelope_id);
                    assert(fld(m2, P_CREATOR, p) == fld(m, P_CREATOR, p));
                    assert(fld(m2, P_REMAINING, p) == fld(m, P_REMAINING, p));
                    assert(fld(m2, P_TOTAL, p) == fld(m, P_TOTAL, p));
                    assert(fld(m2, P_OPENED, p) == fld(m, P_OPENED, p));
                    assert forall|j: i64| 1 <= j <= fld(m, P_OPENED, p) implies #[trigger] index_contrib(
                        m2,
                        p,
                        j,
                    ) == index_contrib(m, p, j) by {
                        assert(rcpt(m2, P_POOL_CLAIM_INDEX, p, j) == rcpt(
                            m,
                            P_POOL_CLAIM_INDEX,
                            p,
                            j,
                        ));
                        let c = rcpt(m, P_POOL_CLAIM_INDEX, p, j);
                        if c > 0 {
                            if c == envelope_id {
                                assert(fld(m, P_TYPE, c) == ENVELOPE_TYPE_SPREADING);
                                assert(fld(m2, P_TYPE, c) == ENVELOPE_TYPE_SPREADING);
                            } else {
                                assert(fld(m2, P_TYPE, c) == fld(m, P_TYPE, c));
                                assert(fld(m2, P_ACTIVE, c) == fld(m, P_ACTIVE, c));
                                assert(fld(m2, P_REMAINING, c) == fld(m, P_REMAINING, c));
                            }
                        }
                    }
                    lemma_remainder_eq(m, m2, p, 1, fld(m, P_OPENED, p));
                }
            }
        },
        Event::ReclaimPool { now, pool_id, creator } => {
            if reclaim_pool_allowed(m, now, pool_id, creator) {
                let opened = fld(m, P_OPENED, pool_id);
                let refund0 = fld(m, P_REMAINING, pool_id);
                let swept = sweep_claims(m, pool_id, 1, opened, refund0).0;
                assert(unit_wf(m, pool_id));
                assert forall|p: i64|
                    #![trigger fld(m2, P_TYPE, p)]
                    (fld(m2, P_CREATOR, p) != 0 && fld(m2, P_TYPE, p)
                        == ENVELOPE_TYPE_POOL) implies fld(m2, P_REMAINING, p)
                    + sweepable_remainder(m2, p, 1, fld(m2, P_OPENED, p)) <= fld(
                    m2,
                    P_TOTAL,
                    p,
                ) by {
                    lemma_sweep_frame(m, pool_id, 1, opened, refund0, field_key(P_TYPE, p));
                    lemma_sweep_frame(m, pool_id, 1, opened, refund0, field_key(P_CREATOR, p));
                    lemma_sweep_frame(m, pool_id, 1, opened, refund0, field_key(P_TOTAL, p));
                    lemma_sweep_frame(m, pool_id, 1, opened, refund0, field_key(P_OPENED, p));
                    assert(fld(m2, P_TYPE, p) == fld(m, P_TYPE, p));
                    assert(fld(m2, P_CREATOR, p) == fld(m, P_CREATOR, p));
                    assert(fld(m2, P_TOTAL, p) == fld(m, P_TOTAL, p));
                    assert(fld(m2, P_OPENED, p) == fld(m, P_OPENED, p));
                    lemma_sweep_preserves_nonclaim(m, pool_id, 1, opened, refund0, p);
                    assert forall|j: i64| 1 <= j <= fld(m, P_OPENED, p) implies #[trigger] index_contrib(
                        m2,
                        p,
                        j,
                    ) <= index_contrib(m, p, j) by {
                        lemma_sweep_contrib_mono(m, pool_id, 1, opened, refund0, p, j);
                        assert(index_contrib(m2, p, j) <= index_contrib(swept, p, j)) by {
                            assert(rcpt(m2, P_POOL_CLAIM_INDEX, p, j) == rcpt(
                                swept,
                                P_POOL_CLAIM_INDEX,
                                p,
                                j,
                            ));
                            let c = rcpt(swept, P_POOL_CLAIM_INDEX, p, j);
                            if c > 0 {
                                if c == pool_id {
                                    lemma_sweep_frame(
                                        m,
                                        pool_id,
                                        1,
                                        opened,
                                        refund0,
                                        field_key(P_TYPE, c),
                                    );
                                    assert(fld(swept, P_TYPE, c) == ENVELOPE_TYPE_POOL);
                                    assert(fld(m2, P_TYPE, c) == ENVELOPE_TYPE_POOL);
                                    assert(index_contrib(m2, p, j) == 0);
                                    assert(index_contrib(swept, p, j) == 0);
                                } else {
                                    assert(fld(m2, P_TYPE, c) == fld(swept, P_TYPE, c));
                                    assert(fld(m2, P_ACTIVE, c) == fld(swept, P_ACTIVE, c));
                                    assert(fld(m2, P_REMAINING, c) == fld(swept, P_REMAINING, c));
                                }
                            }
                        }
                    }
                    lemma_remainder_mono(m, m2, p, 1, fld(m, P_OPENED, p));
                    assert(fld(m2, P_REMAINING, p) <= fld(m, P_REMAINING, p));
                }
            }
        },
        Event::Payment { now, from, amount, data } => {
            if !(meta_val(m, K_PAUSED) != 0 || from == 0 || amount < MIN_AMOUNT) {
                let decoded = decode_payment_data(data);
                if !(decoded.0 <= 0 || decoded.0 > MAX_PACKETS || amount < decoded.0
                    * MIN_PER_PACKET || !(decoded.1 == ENVELOPE_TYPE_SPREADING || decoded.1
                    == ENVELOPE_TYPE_POOL)) {
                    lemma_create_pool_funds(
                        m,
                        now,
                        from,
                        amount,
                        decoded.0,
                        decoded.2,
                        decoded.1,
                        true,
                    );
                }
            }
        },
        Event::SetOwner { new_owner } => {
            lemma_pool_funds_untouched(m, m2);
        },
        Event::Pause => {
            lemma_pool_funds_untouched(m, m2);
        },
        Event::Resume => {
            lemma_pool_funds_untouched(m, m2);
        },
    }
}

/// A fresh ledger is registered, conserves every pool family, and all
/// its units are well shaped: every history starts from the invariants
/// the laws rest on.
pub proof fn lemma_empty_ledger_registered()
    ensures
        forall|x: i64| #[trigger] unit_wf(Map::<Addr, i64>::empty(), x),
        ids_registered(Map::<Addr, i64>::empty()),
        claim_index_ok(Map::<Addr, i64>::empty()),
        pool_funds_ok(Map::<Addr, i64>::empty()),
{
}

/// The reachability invariants hold along any history that keeps the id
/// counter below saturation: units stay well shaped, ids stay within
/// the counter, the claim index keeps naming distinct claims, and every
/// pool family conserves its deposit.
pub proof fn lemma_history_invariants(m0: Map<Addr, i64>, events: Seq<Event>)
    requires
        forall|x: i64| #[trigger] unit_wf(m0, x),
        ids_registered(m0),
        claim_index_ok(m0),
        pool_funds_ok(m0),
        meta_val(m0, K_NEXT_ID) + events.len() <= i64::MAX,
    ensures
        ({
            let mn = run_events(m0, events);
            &&& forall|x: i64| #[trigger] unit_wf(mn, x)
            &&& ids_registered(mn)
            &&& claim_index_ok(mn)
            &&& pool_funds_ok(mn)
            &&& meta_val(m0, K_NEXT_ID) <= meta_val(mn, K_NEXT_ID) <= meta_val(m0, K_NEXT_ID)
                + events.len()
        }),
    decreases events.len(),
{
    if events.len() > 0 {
        let prefix = events.drop_last();
        lemma_history_invariants(m0, prefix);
        lemma_event_step(run_events(m0, prefix), events.last(), 0);
        lemma_event_preserves_registration(run_events(m0, prefix), events.last());
        lemma_event_preserves_pool_funds(run_events(m0, prefix), events.last());
    }
}

/// In a ledger whose pool families conserve their deposits, the refund
/// an expired pool owes — its own remainder plus its active claims'
/// remainders — fits in the machine range: the representability
/// hypothesis of [`crate::laws::lemma_reclaim_pool_conservation`].
pub proof fn lemma_pool_refund_representable(m: Map<Addr, i64>, pool_id: i64)
    requires
        pool_funds_ok(m),
        fld(m, P_CREATOR, pool_id) != 0,
        fld(m, P_TYPE, pool_id) == ENVELOPE_TYPE_POOL,
    ensures
        fld(m, P_REMAINING, pool_id) + sweepable_remainder(m, pool_id, 1, fld(m, P_OPENED, pool_id))
            <= i64::MAX,
{
}

/// In a registered ledger the claim-index entries of any pool, over any
/// range, are pairwise distinct — the distinctness hypothesis of
/// [`crate::laws::lemma_reclaim_pool_conservation`].
pub proof fn lemma_registered_indices_distinct(
    m: Map<Addr, i64>,
    pool_id: i64,
    i: int,
    opened: i64,
)
    requires
        claim_index_ok(m),
    ensures
        claim_indices_distinct(m, pool_id, i, opened),
{
    assert forall|j: i64, k: i64|
        #![trigger rcpt(m, P_POOL_CLAIM_INDEX, pool_id, j), rcpt(m, P_POOL_CLAIM_INDEX, pool_id, k)]
        i <= j < k <= opened implies (rcpt(m, P_POOL_CLAIM_INDEX, pool_id, j) <= 0 || rcpt(
        m,
        P_POOL_CLAIM_INDEX,
        pool_id,
        j,
    ) != rcpt(m, P_POOL_CLAIM_INDEX, pool_id, k)) by {
        if rcpt(m, P_POOL_CLAIM_INDEX, pool_id, j) != 0 && rcpt(m, P_POOL_CLAIM_INDEX, pool_id, k)
            != 0 {
            assert(rcpt(m, P_POOL_CLAIM_INDEX, pool_id, j) < rcpt(
                m,
                P_POOL_CLAIM_INDEX,
                pool_id,
                k,
            ));
        }
    }
}

/// In a registered ledger below counter saturation, the next allocated
/// id differs from every existing entity — discharging the freshness
/// hypotheses of the pool-claim laws.
pub proof fn lemma_fresh_id_is_new(m: Map<Addr, i64>, x: i64)
    requires
        ids_registered(m),
        meta_val(m, K_NEXT_ID) < i64::MAX,
        fld(m, P_CREATOR, x) != 0,
    ensures
        sat_i64(meta_val(m, K_NEXT_ID) + 1) != x,
{
}

/// The pool-reclaim conservation law under the reachability invariants
/// alone: in any ledger the operations can produce, reclaiming an
/// expired pool with anything left to refund pays the creator exactly
/// the pool's remainder plus the remainders of its active un-opened
/// claims, and zeroes and deactivates the pool and each such claim.
pub proof fn lemma_reclaim_pool_conservation_reachable(
    m: Map<Addr, i64>,
    now: i64,
    pool_id: i64,
    creator: i64,
)
    requires
        forall|x: i64| #[trigger] unit_wf(m, x),
        claim_index_ok(m),
        pool_funds_ok(m),
        reclaim_pool_allowed(m, now, pool_id, creator),
        0 < fld(m, P_REMAINING, pool_id) + sweepable_remainder(
            m,
            pool_id,
            1,
            fld(m, P_OPENED, pool_id),
        ),
    ensures
        ({
            let r = reclaim_pool_spec(m, now, pool_id, creator);
            &&& r.1 == fld(m, P_REMAINING, pool_id) + sweepable_remainder(
                m,
                pool_id,
                1,
                fld(m, P_OPENED, pool_id),
            )
            &&& fld(r.0, P_REMAINING, pool_id) == 0
            &&& fld(r.0, P_ACTIVE, pool_id) == 0
            &&& forall|j: i64|
                1 <= j <= fld(m, P_OPENED, pool_id) ==> ({
                    let c = #[trigger] rcpt(m, P_POOL_CLAIM_INDEX, pool_id, j);
                    (c > 0 && fld(m, P_TYPE, c) == ENVELOPE_TYPE_CLAIM && fld(m, P_ACTIVE, c) != 0
                        && fld(m, P_REMAINING, c) > 0) ==> fld(r.0, P_REMAINING, c) == 0 && fld(
                        r.0,
                        P_ACTIVE,
                        c,
                    ) == 0
                })
        }),
{
    assert(unit_wf(m, pool_id));
    lemma_registered_indices_distinct(m, pool_id, 1, fld(m, P_OPENED, pool_id));
    lemma_pool_refund_representable(m, pool_id);
    crate::laws::lemma_reclaim_pool_conservation(m, now, pool_id, creator);
}

/// The conservation law over whole histories: starting from any ledger
/// whose units are well shaped (a fresh deployment, or any state the
/// operations themselves produced), the amounts one distribution unit
/// pays out through completed opens and pool claims sum to at most the
/// unit's total deposit, however long the history and whatever it
/// interleaves.
pub proof fn theorem_payouts_bounded(m0: Map<Addr, i64>, events: Seq<Event>, id: i64)
    requires
        forall|x: i64| #[trigger] unit_wf(m0, x),
        id <= meta_val(m0, K_NEXT_ID),
        meta_val(m0, K_NEXT_ID) + events.len() <= i64::MAX,
    ensures
        0 <= total_paid(m0, events, id) <= fld(m0, P_TOTAL, id),
        fld(run_events(m0, events), P_TOTAL, id) == fld(m0, P_TOTAL, id),
{
    lemma_history_facts(m0, events, id);
    assert(unit_wf(m0, id));
    assert(unit_wf(run_events(m0, events), id));
}

} // verus!
