//! System-wide laws of the state machine, proved over the functional
//! models that the executable operations are tied to.

use crate::constants::{
    ENVELOPE_TYPE_CLAIM, P_ACTIVE, P_OPENED, P_OPENED_AMOUNT, P_PACKET, P_POOL_CLAIMED,
    P_POOL_CLAIM_INDEX, P_REMAINING, P_TOTAL, P_TYPE,
};
use crate::lifecycle::{
    claim_from_pool_allowed, claim_from_pool_spec, create_envelope_spec, create_valid,
    open_claim_spec, open_envelope_allowed, open_envelope_spec, reclaim_pool_allowed,
    reclaim_pool_spec, sweep_claims,
};
use crate::packet::sat_i64;
use crate::store::{field_key, fld, rcpt, Addr};
use vstd::prelude::*;

verus! {

/// The per-entity invariant every reachable distribution unit satisfies:
/// opened packets never exceed the packet count, the remaining balance
/// stays within `[0, total]` — so the sum of past payouts, which is
/// `total - remaining`, never exceeds the total.
pub open spec fn unit_state_ok(m: Map<Addr, i64>, id: i64) -> bool {
    &&& 0 <= fld(m, P_OPENED, id) <= fld(m, P_PACKET, id)
    &&& 0 <= fld(m, P_REMAINING, id) <= fld(m, P_TOTAL, id)
}

/// Every successful creation starts a unit with `remaining == total`,
/// `opened == 0` and `active == 1`, satisfying the unit invariant.
pub proof fn lemma_create_initial_state(
    m: Map<Addr, i64>,
    now: i64,
    from: i64,
    amount: i64,
    packet_count: i64,
    expiry_ms: i64,
    envelope_type: i64,
    update_totals: bool,
)
    requires
        create_valid(from, amount, packet_count, expiry_ms, envelope_type),
    ensures
        ({
            let r = create_envelope_spec(
                m,
                now,
                from,
                amount,
                packet_count,
                expiry_ms,
                envelope_type,
                update_totals,
            );
            &&& fld(r.0, P_REMAINING, r.1) == fld(r.0, P_TOTAL, r.1)
            &&& fld(r.0, P_REMAINING, r.1) == amount
            &&& fld(r.0, P_OPENED, r.1) == 0
            &&& fld(r.0, P_ACTIVE, r.1) == 1
            &&& unit_state_ok(r.0, r.1)
        }),
{
}

/// A second open by the same opener on the same spreading envelope is a
/// no-op: it returns the `0` sentinel and leaves the ledger unchanged.
pub proof fn lemma_open_envelope_anti_replay(
    m: Map<Addr, i64>,
    now1: i64,
    entropy1: i64,
    now2: i64,
    entropy2: i64,
    envelope_id: i64,
    opener: i64,
)
    requires
        open_envelope_spec(m, now1, entropy1, envelope_id, opener).1 != 0,
    ensures
        ({
            let m1 = open_envelope_spec(m, now1, entropy1, envelope_id, opener).0;
            open_envelope_spec(m1, now2, entropy2, envelope_id, opener) == (m1, 0i64)
        }),
{
    let r = open_envelope_spec(m, now1, entropy1, envelope_id, opener);
    assert(rcpt(r.0, P_OPENED_AMOUNT, envelope_id, opener) == r.1);
    assert(!open_envelope_allowed(r.0, now2, envelope_id, opener));
}

/// A second claim by the same claimer on the same pool is a no-op: it
/// returns the `0` sentinel and leaves the ledger unchanged.
pub proof fn lemma_claim_from_pool_anti_replay(
    m: Map<Addr, i64>,
    now1: i64,
    entropy1: i64,
    now2: i64,
    entropy2: i64,
    pool_id: i64,
    claimer: i64,
)
    requires
        claim_from_pool_spec(m, now1, entropy1, pool_id, claimer).1 != 0,
    ensures
        ({
            let m1 = claim_from_pool_spec(m, now1, entropy1, pool_id, claimer).0;
            claim_from_pool_spec(m1, now2, entropy2, pool_id, claimer) == (m1, 0i64)
        }),
{
    let r = claim_from_pool_spec(m, now1, entropy1, pool_id, claimer);
    assert(rcpt(r.0, P_POOL_CLAIMED, pool_id, claimer) > 0);
    assert(!claim_from_pool_allowed(r.0, now2, pool_id, claimer));
}

/// A successful open pays out exactly the amount the remaining balance
/// drops by, keeps the total constant, and preserves the unit invariant:
/// accumulated payouts never exceed the unit's total.
pub proof fn lemma_open_envelope_conservation(
    m: Map<Addr, i64>,
    now: i64,
    entropy: i64,
    envelope_id: i64,
    opener: i64,
)
    requires
        unit_state_ok(m, envelope_id),
    ensures
        ({
            let r = open_envelope_spec(m, now, entropy, envelope_id, opener);
            &&& unit_state_ok(r.0, envelope_id)
            &&& fld(r.0, P_TOTAL, envelope_id) == fld(m, P_TOTAL, envelope_id)
            &&& (r.1 != 0 ==> 0 < r.1 <= fld(m, P_REMAINING, envelope_id) && fld(
                r.0,
                P_REMAINING,
                envelope_id,
            ) == fld(m, P_REMAINING, envelope_id) - r.1)
            &&& (r.1 == 0 ==> r.0 == m)
        }),
{
}

/// The open that exhausts a spreading envelope's packets pays out the
/// whole remaining balance: payouts then sum to exactly the total.
pub proof fn lemma_open_envelope_exhausts_exactly(
    m: Map<Addr, i64>,
    now: i64,
    entropy: i64,
    envelope_id: i64,
    opener: i64,
)
    requires
        open_envelope_spec(m, now, entropy, envelope_id, opener).1 != 0,
        fld(m, P_OPENED, envelope_id) + 1 >= fld(m, P_PACKET, envelope_id),
    ensures
        ({
            let r = open_envelope_spec(m, now, entropy, envelope_id, opener);
            &&& r.1 == fld(m, P_REMAINING, envelope_id)
            &&& fld(r.0, P_REMAINING, envelope_id) == 0
            &&& fld(r.0, P_ACTIVE, envelope_id) == 0
        }),
{
    let opened = fld(m, P_OPENED, envelope_id);
    let packet = fld(m, P_PACKET, envelope_id);
    assert(opened < packet);
    assert(sat_i64(packet - opened) == 1);
}

/// Opening a claim pays out its whole remaining balance, which for a
/// pool-spawned claim is its whole total, and is terminal.
pub proof fn lemma_open_claim_pays_all(m: Map<Addr, i64>, now: i64, claim_id: i64, opener: i64)
    requires
        unit_state_ok(m, claim_id),
        1 <= fld(m, P_PACKET, claim_id),
    ensures
        ({
            let r = open_claim_spec(m, now, claim_id, opener);
            &&& unit_state_ok(r.0, claim_id)
            &&& fld(r.0, P_TOTAL, claim_id) == fld(m, P_TOTAL, claim_id)
            &&& (r.1 != 0 ==> r.1 == fld(m, P_REMAINING, claim_id) && fld(
                r.0,
                P_REMAINING,
                claim_id,
            ) == 0 && fld(r.0, P_ACTIVE, claim_id) == 0 && fld(r.0, P_OPENED, claim_id) == 1)
            &&& (r.1 == 0 ==> r.0 == m)
        }),
{
}

/// A successful pool claim moves exactly the claimed amount from the
/// pool's remaining balance into a freshly spawned claim that satisfies
/// the unit invariant with `total == remaining == amount`; the pool's
/// own invariant and total are preserved.
pub proof fn lemma_claim_from_pool_conservation(
    m: Map<Addr, i64>,
    now: i64,
    entropy: i64,
    pool_id: i64,
    claimer: i64,
)
    requires
        unit_state_ok(m, pool_id),
        claim_from_pool_spec(m, now, entropy, pool_id, claimer).1 != 0,
        claim_from_pool_spec(m, now, entropy, pool_id, claimer).1 != pool_id,
    ensures
        ({
            let r = claim_from_pool_spec(m, now, entropy, pool_id, claimer);
            let amount = rcpt(r.0, P_POOL_CLAIMED, pool_id, claimer);
            &&& unit_state_ok(r.0, pool_id)
            &&& fld(r.0, P_TOTAL, pool_id) == fld(m, P_TOTAL, pool_id)
            &&& 0 < amount <= fld(m, P_REMAINING, pool_id)
            &&& fld(r.0, P_REMAINING, pool_id) == fld(m, P_REMAINING, pool_id) - amount
            &&& unit_state_ok(r.0, r.1)
            &&& fld(r.0, P_TOTAL, r.1) == amount
            &&& fld(r.0, P_REMAINING, r.1) == amount
            &&& fld(r.0, P_OPENED, r.1) == 0
        }),
{
}

/// The claim that exhausts a pool's packets draws exactly the pool's
/// whole remaining balance: the amounts drawn then sum to the total.
pub proof fn lemma_claim_from_pool_exhausts_exactly(
    m: Map<Addr, i64>,
    now: i64,
    entropy: i64,
    pool_id: i64,
    claimer: i64,
)
    requires
        claim_from_pool_spec(m, now, entropy, pool_id, claimer).1 != 0,
        claim_from_pool_spec(m, now, entropy, pool_id, claimer).1 != pool_id,
        fld(m, P_OPENED, pool_id) + 1 >= fld(m, P_PACKET, pool_id),
    ensures
        ({
            let r = claim_from_pool_spec(m, now, entropy, pool_id, claimer);
            &&& rcpt(r.0, P_POOL_CLAIMED, pool_id, claimer) == fld(m, P_REMAINING, pool_id)
            &&& fld(r.0, P_REMAINING, pool_id) == 0
            &&& fld(r.0, P_ACTIVE, pool_id) == 0
        }),
{
    let opened = fld(m, P_OPENED, pool_id);
    let packet = fld(m, P_PACKET, pool_id);
    assert(opened < packet);
    assert(sat_i64(packet - opened) == 1);
}

/// What the claim-index slot `j` of a pool would contribute to a refund
/// sweep: the remainder of a positive id naming an active, still-funded
/// claim, and `0` otherwise.
pub open spec fn index_contrib(m: Map<Addr, i64>, pool_id: i64, j: i64) -> int {
    let claim_id = rcpt(m, P_POOL_CLAIM_INDEX, pool_id, j);
    if claim_id > 0 && fld(m, P_TYPE, claim_id) == ENVELOPE_TYPE_CLAIM && fld(
        m,
        P_ACTIVE,
        claim_id,
    ) != 0 && fld(m, P_REMAINING, claim_id) > 0 {
        fld(m, P_REMAINING, claim_id) as int
    } else {
        0
    }
}

/// Sum of the remainders of all entities indexed under the pool's claim
/// sequence between `i` and `opened` that the refund sweep would fold
/// in.
pub open spec fn sweepable_remainder(m: Map<Addr, i64>, pool_id: i64, i: int, opened: i64) -> int
    decreases opened - i + 1,
{
    if i > opened {
        0
    } else {
        index_contrib(m, pool_id, i as i64) + sweepable_remainder(m, pool_id, i + 1, opened)
    }
}

/// The claim-sequence slots in `[i, opened]` reference pairwise distinct
/// entities (never-written slots, read as non-positive, are exempt).
pub open spec fn claim_indices_distinct(
    m: Map<Addr, i64>,
    pool_id: i64,
    i: int,
    opened: i64,
) -> bool {
    forall|j: i64, k: i64|
        #![trigger rcpt(m, P_POOL_CLAIM_INDEX, pool_id, j), rcpt(m, P_POOL_CLAIM_INDEX, pool_id, k)]
        i <= j < k <= opened ==> (rcpt(m, P_POOL_CLAIM_INDEX, pool_id, j) <= 0 || rcpt(
            m,
            P_POOL_CLAIM_INDEX,
            pool_id,
            j,
        ) != rcpt(m, P_POOL_CLAIM_INDEX, pool_id, k))
}

proof fn lemma_remainder_nonneg(m: Map<Addr, i64>, pool_id: i64, i: int, opened: i64)
    ensures
        sweepable_remainder(m, pool_id, i, opened) >= 0,
    decreases opened - i + 1,
{
    if i <= opened {
        lemma_remainder_nonneg(m, pool_id, i + 1, opened);
    }
}

proof fn lemma_remainder_untouched(m: Map<Addr, i64>, c: i64, pool_id: i64, i: int, opened: i64)
    requires
        1 <= i,
        forall|j: i64| i <= j <= opened ==> #[trigger] rcpt(m, P_POOL_CLAIM_INDEX, pool_id, j) != c,
    ensures
        sweepable_remainder(
            m.insert(field_key(P_REMAINING, c), 0).insert(field_key(P_ACTIVE, c), 0),
            pool_id,
            i,
            opened,
        ) == sweepable_remainder(m, pool_id, i, opened),
    decreases opened - i + 1,
{
    if i <= opened {
        lemma_remainder_untouched(m, c, pool_id, i + 1, opened);
        let m2 = m.insert(field_key(P_REMAINING, c), 0).insert(field_key(P_ACTIVE, c), 0);
        assert(rcpt(m2, P_POOL_CLAIM_INDEX, pool_id, i as i64) == rcpt(
            m,
            P_POOL_CLAIM_INDEX,
            pool_id,
            i as i64,
        ));
        assert(rcpt(m, P_POOL_CLAIM_INDEX, pool_id, i as i64) != c);
    }
}

proof fn lemma_distinct_weaken(m: Map<Addr, i64>, pool_id: i64, i: int, i2: int, opened: i64)
    requires
        claim_indices_distinct(m, pool_id, i, opened),
        i <= i2,
    ensures
        claim_indices_distinct(m, pool_id, i2, opened),
{
}

proof fn lemma_distinct_after_zero(m: Map<Addr, i64>, c: i64, pool_id: i64, i: int, opened: i64)
    requires
        claim_indices_distinct(m, pool_id, i, opened),
    ensures
        claim_indices_distinct(
            m.insert(field_key(P_REMAINING, c), 0).insert(field_key(P_ACTIVE, c), 0),
            pool_id,
            i,
            opened,
        ),
{
    let m2 = m.insert(field_key(P_REMAINING, c), 0).insert(field_key(P_ACTIVE, c), 0);
    assert forall|j: i64, k: i64|
        #![trigger rcpt(m2, P_POOL_CLAIM_INDEX, pool_id, j), rcpt(m2, P_POOL_CLAIM_INDEX, pool_id, k)]
        i <= j < k <= opened implies (rcpt(m2, P_POOL_CLAIM_INDEX, pool_id, j) <= 0 || rcpt(
        m2,
        P_POOL_CLAIM_INDEX,
        pool_id,
        j,
    ) != rcpt(m2, P_POOL_CLAIM_INDEX, pool_id, k)) by {
        assert(rcpt(m2, P_POOL_CLAIM_INDEX, pool_id, j) == rcpt(m, P_POOL_CLAIM_INDEX, pool_id, j));
        assert(rcpt(m2, P_POOL_CLAIM_INDEX, pool_id, k) == rcpt(m, P_POOL_CLAIM_INDEX, pool_id, k));
    }
}

proof fn lemma_sweep_preserves_unindexed(
    m: Map<Addr, i64>,
    pool_id: i64,
    i: int,
    opened: i64,
    refund: i64,
    id: i64,
)
    requires
        1 <= i,
        forall|j: i64| i <= j <= opened ==> #[trigger] rcpt(m, P_POOL_CLAIM_INDEX, pool_id, j)
            != id,
    ensures
        fld(sweep_claims(m, pool_id, i, opened, refund).0, P_REMAINING, id) == fld(
            m,
            P_REMAINING,
            id,
        ),
        fld(sweep_claims(m, pool_id, i, opened, refund).0, P_ACTIVE, id) == fld(m, P_ACTIVE, id),
    decreases opened - i + 1,
{
    if i <= opened {
        let c = rcpt(m, P_POOL_CLAIM_INDEX, pool_id, i as i64);
        if c > 0 && fld(m, P_TYPE, c) == ENVELOPE_TYPE_CLAIM && fld(m, P_ACTIVE, c) != 0 && fld(
            m,
            P_REMAINING,
            c,
        ) > 0 {
            let rem = fld(m, P_REMAINING, c);
            let m2 = m.insert(field_key(P_REMAINING, c), 0).insert(field_key(P_ACTIVE, c), 0);
            assert(c != id);
            assert forall|j: i64| i + 1 <= j <= opened implies #[trigger] rcpt(
                m2,
                P_POOL_CLAIM_INDEX,
                pool_id,
                j,
            ) != id by {
                assert(rcpt(m2, P_POOL_CLAIM_INDEX, pool_id, j) == rcpt(
                    m,
                    P_POOL_CLAIM_INDEX,
                    pool_id,
                    j,
                ));
            }
            lemma_sweep_preserves_unindexed(
                m2,
                pool_id,
                i + 1,
                opened,
                sat_i64(refund + rem),
                id,
            );
        } else {
            lemma_sweep_preserves_unindexed(m, pool_id, i + 1, opened, refund, id);
        }
    }
}

proof fn lemma_sweep_total(m: Map<Addr, i64>, pool_id: i64, i: int, opened: i64, refund: i64)
    requires
        1 <= i,
        0 <= refund,
        refund + sweepable_remainder(m, pool_id, i, opened) <= i64::MAX,
        claim_indices_distinct(m, pool_id, i, opened),
    ensures
        sweep_claims(m, pool_id, i, opened, refund).1 == refund + sweepable_remainder(
            m,
            pool_id,
            i,
            opened,
        ),
    decreases opened - i + 1,
{
    if i <= opened {
        let c = rcpt(m, P_POOL_CLAIM_INDEX, pool_id, i as i64);
        lemma_remainder_nonneg(m, pool_id, i + 1, opened);
        if c > 0 && fld(m, P_TYPE, c) == ENVELOPE_TYPE_CLAIM && fld(m, P_ACTIVE, c) != 0 && fld(
            m,
            P_REMAINING,
            c,
        ) > 0 {
            let rem = fld(m, P_REMAINING, c);
            let m2 = m.insert(field_key(P_REMAINING, c), 0).insert(field_key(P_ACTIVE, c), 0);
            assert forall|j: i64| i + 1 <= j <= opened implies #[trigger] rcpt(
                m,
                P_POOL_CLAIM_INDEX,
                pool_id,
                j,
            ) != c by {
                assert(rcpt(m, P_POOL_CLAIM_INDEX, pool_id, i as i64) <= 0 || rcpt(
                    m,
                    P_POOL_CLAIM_INDEX,
                    pool_id,
                    i as i64,
                ) != rcpt(m, P_POOL_CLAIM_INDEX, pool_id, j));
            }
            lemma_remainder_untouched(m, c, pool_id, i + 1, opened);
            lemma_distinct_weaken(m, pool_id, i, i + 1, opened);
            lemma_distinct_after_zero(m, c, pool_id, i + 1, opened);
            lemma_sweep_total(m2, pool_id, i + 1, opened, sat_i64(refund + rem));
        } else {
            lemma_distinct_weaken(m, pool_id, i, i + 1, opened);
            lemma_sweep_total(m, pool_id, i + 1, opened, refund);
        }
    }
}

proof fn lemma_sweep_zeroes(
    m: Map<Addr, i64>,
    pool_id: i64,
    i: int,
    opened: i64,
    refund: i64,
    j: i64,
)
    requires
        1 <= i <= j <= opened,
        claim_indices_distinct(m, pool_id, i, opened),
        ({
            let c = rcpt(m, P_POOL_CLAIM_INDEX, pool_id, j);
            c > 0 && fld(m, P_TYPE, c) == ENVELOPE_TYPE_CLAIM && fld(m, P_ACTIVE, c) != 0 && fld(
                m,
                P_REMAINING,
                c,
            ) > 0
        }),
    ensures
        fld(sweep_claims(m, pool_id, i, opened, refund).0, P_REMAINING, rcpt(
            m,
            P_POOL_CLAIM_INDEX,
            pool_id,
            j,
        )) == 0,
        fld(sweep_claims(m, pool_id, i, opened, refund).0, P_ACTIVE, rcpt(
            m,
            P_POOL_CLAIM_INDEX,
            pool_id,
            j,
        )) == 0,
    decreases opened - i + 1,
{
    let c = rcpt(m, P_POOL_CLAIM_INDEX, pool_id, j);
    let ci = rcpt(m, P_POOL_CLAIM_INDEX, pool_id, i as i64);
    if i == j {
        let rem = fld(m, P_REMAINING, c);
        let m2 = m.insert(field_key(P_REMAINING, c), 0).insert(field_key(P_ACTIVE, c), 0);
        assert forall|j2: i64| i + 1 <= j2 <= opened implies #[trigger] rcpt(
            m2,
            P_POOL_CLAIM_INDEX,
            pool_id,
            j2,
        ) != c by {
            assert(rcpt(m2, P_POOL_CLAIM_INDEX, pool_id, j2) == rcpt(
                m,
                P_POOL_CLAIM_INDEX,
                pool_id,
                j2,
            ));
            assert(rcpt(m, P_POOL_CLAIM_INDEX, pool_id, j) <= 0 || rcpt(
                m,
                P_POOL_CLAIM_INDEX,
                pool_id,
                j,
            ) != rcpt(m, P_POOL_CLAIM_INDEX, pool_id, j2));
        }
        lemma_sweep_preserves_unindexed(m2, pool_id, i + 1, opened, sat_i64(refund + rem), c);
    } else {
        if ci > 0 && fld(m, P_TYPE, ci) == ENVELOPE_TYPE_CLAIM && fld(m, P_ACTIVE, ci) != 0 && fld(
            m,
            P_REMAINING,
            ci,
        ) > 0 {
            let rem = fld(m, P_REMAINING, ci);
            let m2 = m.insert(field_key(P_REMAINING, ci), 0).insert(field_key(P_ACTIVE, ci), 0);
            assert(ci != c);
            assert(rcpt(m2, P_POOL_CLAIM_INDEX, pool_id, j) == c);
            assert(fld(m2, P_REMAINING, c) == fld(m, P_REMAINING, c));
            assert(fld(m2, P_ACTIVE, c) == fld(m, P_ACTIVE, c));
            assert(fld(m2, P_TYPE, c) == fld(m, P_TYPE, c));
            lemma_distinct_weaken(m, pool_id, i, i + 1, opened);
            lemma_distinct_after_zero(m, ci, pool_id, i + 1, opened);
            lemma_sweep_zeroes(m2, pool_id, i + 1, opened, sat_i64(refund + rem), j);
        } else {
            lemma_distinct_weaken(m, pool_id, i, i + 1, opened);
            lemma_sweep_zeroes(m, pool_id, i + 1, opened, refund, j);
        }
    }
}

/// Reclaiming an expired pool refunds exactly the pool's own remainder
/// plus the remainders of every active, un-opened spawned claim, and
/// leaves the pool and each such claim with `remaining == 0` and
/// `active == 0` — no funds strand in unopened claims.  The hypotheses
/// hold of every ledger the operations themselves produce: the claim
/// index maps distinct sequence numbers to distinct claims, the pool's
/// remainder is non-negative, and the refund total is representable.
/// [`crate::history::lemma_reclaim_pool_conservation_reachable`] derives
/// them from the proved reachability invariants.
pub proof fn lemma_reclaim_pool_conservation(
    m: Map<Addr, i64>,
    now: i64,
    pool_id: i64,
    creator: i64,
)
    requires
        reclaim_pool_allowed(m, now, pool_id, creator),
        0 <= fld(m, P_REMAINING, pool_id),
        fld(m, P_REMAINING, pool_id) + sweepable_remainder(
            m,
            pool_id,
            1,
            fld(m, P_OPENED, pool_id),
        ) <= i64::MAX,
        0 < fld(m, P_REMAINING, pool_id) + sweepable_remainder(
            m,
            pool_id,
            1,
            fld(m, P_OPENED, pool_id),
        ),
        claim_indices_distinct(m, pool_id, 1, fld(m, P_OPENED, pool_id)),
    ensures
        ({
            let r = reclaim_pool_spec(m, now, pool_id, creator);
            &&& r.1 == fld(m, P_REMAINING, pool_id) + sweepable_remainder(
                m,
                pool_id,
                1,
                fld(m, P_OPENED, pool_id),
            )
            &&& fld(r.0, P_REMAINING, pool_id) == 0
            &&& fld(r.0, P_ACTIVE, pool_id) == 0
            &&& forall|j: i64|
                1 <= j <= fld(m, P_OPENED, pool_id) ==> ({
                    let c = #[trigger] rcpt(m, P_POOL_CLAIM_INDEX, pool_id, j);
                    (c > 0 && fld(m, P_TYPE, c) == ENVELOPE_TYPE_CLAIM && fld(m, P_ACTIVE, c) != 0
                        && fld(m, P_REMAINING, c) > 0) ==> fld(r.0, P_REMAINING, c) == 0 && fld(
                        r.0,
                        P_ACTIVE,
                        c,
                    ) == 0
                })
        }),
{
    let opened = fld(m, P_OPENED, pool_id);
    let refund0 = fld(m, P_REMAINING, pool_id);
    lemma_sweep_total(m, pool_id, 1, opened, refund0);
    let swept = sweep_claims(m, pool_id, 1, opened, refund0);
    let r = reclaim_pool_spec(m, now, pool_id, creator);
    assert forall|j: i64|
        1 <= j <= opened implies ({
            let c = #[trigger] rcpt(m, P_POOL_CLAIM_INDEX, pool_id, j);
            (c > 0 && fld(m, P_TYPE, c) == ENVELOPE_TYPE_CLAIM && fld(m, P_ACTIVE, c) != 0 && fld(
                m,
                P_REMAINING,
                c,
            ) > 0) ==> fld(r.0, P_REMAINING, c) == 0 && fld(r.0, P_ACTIVE, c) == 0
        }) by {
        let c = rcpt(m, P_POOL_CLAIM_INDEX, pool_id, j);
        if c > 0 && fld(m, P_TYPE, c) == ENVELOPE_TYPE_CLAIM && fld(m, P_ACTIVE, c) != 0 && fld(
            m,
            P_REMAINING,
            c,
        ) > 0 {
            lemma_sweep_zeroes(m, pool_id, 1, opened, refund0, j);
            assert(c != pool_id);
        }
    }
}

} // verus!
