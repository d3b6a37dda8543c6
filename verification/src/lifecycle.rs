//! The mutating lifecycle operations of the state machine.
//!
//! Every operation validates first and writes only afterwards, so a
//! rejected call returns the `0` sentinel (or is a plain no-op) and leaves
//! the ledger untouched.  Each executable operation is proved equal to an
//! exact functional model over the ledger map, and the model is what the
//! law lemmas in [`crate::laws`] reason about.

use crate::constants::{
    DEFAULT_EXPIRY_MS, ENVELOPE_TYPE_CLAIM, ENVELOPE_TYPE_POOL, ENVELOPE_TYPE_SPREADING,
    K_NEXT_ID, K_OWNER, K_PAUSED, K_TIME_OVERRIDE, K_TOTAL_DISTRIBUTED, K_TOTAL_ENVELOPES,
    K_TOTAL_SUPPLY, MAX_EXPIRY_MS, MAX_PACKETS, MIN_AMOUNT, MIN_PER_PACKET,
    ON_NEP17_ADAPTER_BASE, ON_NEP17_ADAPTER_EXPIRY_MULTIPLIER, ON_NEP17_ADAPTER_TYPE_MULTIPLIER,
    ON_NEP17_LEGACY_PACK_BASE, P_ACTIVE, P_CREATOR, P_EXPIRY, P_OPENED, P_OPENED_AMOUNT,
    P_OWNER_BALANCE, P_PACKET, P_PARENT, P_POOL_CLAIMED, P_POOL_CLAIM_INDEX, P_REMAINING,
    P_TOKEN_OWNER, P_TOTAL, P_TYPE,
};
use crate::packet::{calc_packet, calc_packet_spec, sat_add, sat_i64, sat_mul_nonneg, sat_sub};
use crate::store::{field_key, fld, meta_key, meta_val, now_spec, rcpt, receipt_key, Addr, Ledger};
use vstd::prelude::*;

verus! {

/// The validation every creation must pass: a real creator, a deposit at
/// or above the minimum that funds every packet to at least the floor, a
/// bounded packet count, a bounded positive expiry, and a known kind.
pub open spec fn create_valid(
    from: i64,
    amount: i64,
    packet_count: i64,
    expiry_ms: i64,
    envelope_type: i64,
) -> bool {
    &&& from != 0
    &&& amount >= MIN_AMOUNT
    &&& 0 < packet_count <= MAX_PACKETS
    &&& amount >= sat_i64(packet_count * MIN_PER_PACKET)
    &&& 0 < expiry_ms <= MAX_EXPIRY_MS
    &&& (envelope_type == ENVELOPE_TYPE_SPREADING || envelope_type == ENVELOPE_TYPE_POOL)
}

/// Model of [`Ledger::mint_token`]: record the owner, bump the owner's
/// held-token count and the total supply.
pub open spec fn mint_token_spec(m: Map<Addr, i64>, token_id: i64, owner: i64) -> Map<Addr, i64> {
    let m1 = m.insert(field_key(P_TOKEN_OWNER, token_id), owner);
    let m2 = m1.insert(
        field_key(P_OWNER_BALANCE, owner),
        sat_i64(fld(m1, P_OWNER_BALANCE, owner) + 1),
    );
    m2.insert(meta_key(K_TOTAL_SUPPLY), sat_i64(meta_val(m2, K_TOTAL_SUPPLY) + 1))
}

/// Model of [`Ledger::transfer_token`]: move ownership and the balance
/// counters when `from` really is the current owner.
pub open spec fn transfer_token_spec(m: Map<Addr, i64>, token_id: i64, from: i64, to: i64) -> (
    Map<Addr, i64>,
    bool,
) {
    if from == 0 || to == 0 {
        (m, false)
    } else if fld(m, P_TOKEN_OWNER, token_id) != from {
        (m, false)
    } else {
        let m1 = m.insert(field_key(P_TOKEN_OWNER, token_id), to);
        let from_bal = fld(m1, P_OWNER_BALANCE, from);
        let m2 = if from_bal > 0 {
            m1.insert(field_key(P_OWNER_BALANCE, from), (from_bal - 1) as i64)
        } else {
            m1
        };
        let to_bal = fld(m2, P_OWNER_BALANCE, to);
        let m3 = m2.insert(field_key(P_OWNER_BALANCE, to), sat_i64(to_bal + 1));
        (m3, true)
    }
}

/// Model of [`Ledger::create_envelope`]: allocate a fresh id, initialize
/// the shared schema, mint the holder token for a spreading envelope, and
/// optionally bump the contract-wide totals.
pub open spec fn create_envelope_spec(
    m: Map<Addr, i64>,
    now: i64,
    from: i64,
    amount: i64,
    packet_count: i64,
    expiry_ms: i64,
    envelope_type: i64,
    update_totals: bool,
) -> (Map<Addr, i64>, i64) {
    if !create_valid(from, amount, packet_count, expiry_ms, envelope_type) {
        (m, 0)
    } else {
        let id = sat_i64(meta_val(m, K_NEXT_ID) + 1);
        let m0 = m.insert(meta_key(K_NEXT_ID), id);
        let m1 = m0.insert(field_key(P_CREATOR, id), from);
        let m2 = m1.insert(field_key(P_TOTAL, id), amount);
        let m3 = m2.insert(field_key(P_PACKET, id), packet_count);
        let m4 = m3.insert(field_key(P_TYPE, id), envelope_type);
        let m5 = m4.insert(field_key(P_PARENT, id), 0);
        let m6 = m5.insert(field_key(P_OPENED, id), 0);
        let m7 = m6.insert(field_key(P_REMAINING, id), amount);
        let m8 = m7.insert(field_key(P_ACTIVE, id), 1);
        let m9 = m8.insert(field_key(P_EXPIRY, id), sat_i64(now + expiry_ms));
        let ma = if envelope_type == ENVELOPE_TYPE_SPREADING {
            mint_token_spec(m9, id, from)
        } else {
            m9
        };
        let mb = if update_totals {
            let mx = ma.insert(
                meta_key(K_TOTAL_ENVELOPES),
                sat_i64(meta_val(ma, K_TOTAL_ENVELOPES) + 1),
            );
            mx.insert(
                meta_key(K_TOTAL_DISTRIBUTED),
                sat_i64(meta_val(mx, K_TOTAL_DISTRIBUTED) + amount),
            )
        } else {
            ma
        };
        (mb, id)
    }
}

/// Guard of [`Ledger::open_envelope`]: the system is unpaused, the
/// opener is a real account, the entity is an active, unexpired,
/// not-fully-opened spreading envelope held by the opener, and the
/// opener holds no prior open receipt.
pub open spec fn open_envelope_allowed(
    m: Map<Addr, i64>,
    now: i64,
    envelope_id: i64,
    opener: i64,
) -> bool {
    &&& meta_val(m, K_PAUSED) == 0
    &&& opener != 0
    &&& fld(m, P_CREATOR, envelope_id) != 0
    &&& fld(m, P_TYPE, envelope_id) == ENVELOPE_TYPE_SPREADING
    &&& fld(m, P_ACTIVE, envelope_id) != 0
    &&& fld(m, P_OPENED, envelope_id) < fld(m, P_PACKET, envelope_id)
    &&& now <= fld(m, P_EXPIRY, envelope_id)
    &&& fld(m, P_TOKEN_OWNER, envelope_id) == opener
    &&& rcpt(m, P_OPENED_AMOUNT, envelope_id, opener) <= 0
}

/// Model of [`Ledger::open_envelope`].
pub open spec fn open_envelope_spec(
    m: Map<Addr, i64>,
    now: i64,
    entropy: i64,
    envelope_id: i64,
    opener: i64,
) -> (Map<Addr, i64>, i64) {
    if !open_envelope_allowed(m, now, envelope_id, opener) {
        (m, 0)
    } else {
        let remaining = fld(m, P_REMAINING, envelope_id);
        let opened = fld(m, P_OPENED, envelope_id);
        let packet = fld(m, P_PACKET, envelope_id);
        let total = fld(m, P_TOTAL, envelope_id);
        let amount = calc_packet_spec(remaining, sat_i64(packet - opened), 0, total, packet, entropy);
        if amount <= 0 || amount > remaining {
            (m, 0)
        } else {
            let m1 = m.insert(receipt_key(P_OPENED_AMOUNT, envelope_id, opener), amount);
            let m2 = m1.insert(field_key(P_OPENED, envelope_id), sat_i64(opened + 1));
            let rem2 = sat_i64(remaining - amount);
            let m3 = m2.insert(field_key(P_REMAINING, envelope_id), rem2);
            let m4 = if rem2 == 0 || sat_i64(opened + 1) >= packet {
                m3.insert(field_key(P_ACTIVE, envelope_id), 0)
            } else {
                m3
            };
            (m4, amount)
        }
    }
}

/// Guard of [`Ledger::open_claim`]: a single-shot open of an active,
/// unexpired, still-funded claim by its current owner.
pub open spec fn open_claim_allowed(m: Map<Addr, i64>, now: i64, claim_id: i64, opener: i64) -> bool {
    &&& meta_val(m, K_PAUSED) == 0
    &&& opener != 0
    &&& fld(m, P_CREATOR, claim_id) != 0
    &&& fld(m, P_TYPE, claim_id) == ENVELOPE_TYPE_CLAIM
    &&& fld(m, P_TOKEN_OWNER, claim_id) == opener
    &&& fld(m, P_ACTIVE, claim_id) != 0
    &&& fld(m, P_OPENED, claim_id) <= 0
    &&& fld(m, P_REMAINING, claim_id) > 0
    &&& now <= fld(m, P_EXPIRY, claim_id)
}

/// Model of [`Ledger::open_claim`]: pay out the whole remaining balance
/// in one shot and retire the claim.
pub open spec fn open_claim_spec(m: Map<Addr, i64>, now: i64, claim_id: i64, opener: i64) -> (
    Map<Addr, i64>,
    i64,
) {
    if !open_claim_allowed(m, now, claim_id, opener) {
        (m, 0)
    } else {
        let amount = fld(m, P_REMAINING, claim_id);
        let m1 = m.insert(field_key(P_OPENED, claim_id), 1);
        let m2 = m1.insert(field_key(P_REMAINING, claim_id), 0);
        let m3 = m2.insert(field_key(P_ACTIVE, claim_id), 0);
        (m3, amount)
    }
}

/// Guard of [`Ledger::reclaim_envelope`]: the creator reclaims an
/// active spreading envelope strictly after its expiry.
pub open spec fn reclaim_envelope_allowed(
    m: Map<Addr, i64>,
    now: i64,
    envelope_id: i64,
    creator: i64,
) -> bool {
    &&& meta_val(m, K_PAUSED) == 0
    &&& creator != 0
    &&& fld(m, P_CREATOR, envelope_id) != 0
    &&& fld(m, P_TYPE, envelope_id) == ENVELOPE_TYPE_SPREADING
    &&& fld(m, P_CREATOR, envelope_id) == creator
    &&& fld(m, P_ACTIVE, envelope_id) != 0
    &&& now > fld(m, P_EXPIRY, envelope_id)
}

/// Model of [`Ledger::reclaim_envelope`].
pub open spec fn reclaim_envelope_spec(
    m: Map<Addr, i64>,
    now: i64,
    envelope_id: i64,
    creator: i64,
) -> (Map<Addr, i64>, i64) {
    if !reclaim_envelope_allowed(m, now, envelope_id, creator) {
        (m, 0)
    } else {
        let refund = fld(m, P_REMAINING, envelope_id);
        if refund <= 0 {
            (m, 0)
        } else {
            let m1 = m.insert(field_key(P_REMAINING, envelope_id), 0);
            let m2 = m1.insert(field_key(P_ACTIVE, envelope_id), 0);
            (m2, refund)
        }
    }
}

/// Model of [`Ledger::transfer`]: custody of a spreading envelope or a
/// claim moves to `to` when the token exists and the system is unpaused.
pub open spec fn transfer_spec(m: Map<Addr, i64>, token_id: i64, to: i64) -> (Map<Addr, i64>, bool) {
    if meta_val(m, K_PAUSED) != 0 || to == 0 || fld(m, P_TOKEN_OWNER, token_id) == 0 {
        (m, false)
    } else {
        let t = fld(m, P_TYPE, token_id);
        if !(t == ENVELOPE_TYPE_SPREADING || t == ENVELOPE_TYPE_CLAIM) {
            (m, false)
        } else {
            transfer_token_spec(m, token_id, fld(m, P_TOKEN_OWNER, token_id), to)
        }
    }
}

/// Model of [`Ledger::transfer_envelope`]: a caller-asserted transfer of
/// a spreading envelope.
pub open spec fn transfer_envelope_spec(
    m: Map<Addr, i64>,
    envelope_id: i64,
    from: i64,
    to: i64,
) -> Map<Addr, i64> {
    if meta_val(m, K_PAUSED) != 0 || from == 0 || to == 0 || fld(m, P_CREATOR, envelope_id) == 0
        || fld(m, P_TYPE, envelope_id) != ENVELOPE_TYPE_SPREADING || fld(
        m,
        P_TOKEN_OWNER,
        envelope_id,
    ) != from {
        m
    } else {
        transfer_token_spec(m, envelope_id, from, to).0
    }
}

/// Model of [`Ledger::transfer_claim`]: a caller-asserted transfer of a
/// claim token.
pub open spec fn transfer_claim_spec(m: Map<Addr, i64>, claim_id: i64, from: i64, to: i64) -> Map<
    Addr,
    i64,
> {
    if meta_val(m, K_PAUSED) != 0 || from == 0 || to == 0 || fld(m, P_CREATOR, claim_id) == 0 || fld(
        m,
        P_TYPE,
        claim_id,
    ) != ENVELOPE_TYPE_CLAIM || fld(m, P_TOKEN_OWNER, claim_id) != from {
        m
    } else {
        transfer_token_spec(m, claim_id, from, to).0
    }
}

/// Guard of [`Ledger::claim_from_pool`]: the system is unpaused, the
/// claimer is a real account, the entity is an active, unexpired,
/// not-fully-claimed pool, and the claimer holds no prior claim receipt.
pub open spec fn claim_from_pool_allowed(
    m: Map<Addr, i64>,
    now: i64,
    pool_id: i64,
    claimer: i64,
) -> bool {
    &&& meta_val(m, K_PAUSED) == 0
    &&& claimer != 0
    &&& fld(m, P_CREATOR, pool_id) != 0
    &&& fld(m, P_TYPE, pool_id) == ENVELOPE_TYPE_POOL
    &&& fld(m, P_ACTIVE, pool_id) != 0
    &&& fld(m, P_OPENED, pool_id) < fld(m, P_PACKET, pool_id)
    &&& now <= fld(m, P_EXPIRY, pool_id)
    &&& rcpt(m, P_POOL_CLAIMED, pool_id, claimer) <= 0
}

/// Model of [`Ledger::claim_from_pool`]: draw one packet, record the
/// claimer's receipt, and spawn a fresh single-packet claim owned by the
/// claimer, indexed under the pool's claim sequence.
pub open spec fn claim_from_pool_spec(
    m: Map<Addr, i64>,
    now: i64,
    entropy: i64,
    pool_id: i64,
    claimer: i64,
) -> (Map<Addr, i64>, i64) {
    if !claim_from_pool_allowed(m, now, pool_id, claimer) {
        (m, 0)
    } else {
        let opened = fld(m, P_OPENED, pool_id);
        let packet = fld(m, P_PACKET, pool_id);
        let remaining = fld(m, P_REMAINING, pool_id);
        let total = fld(m, P_TOTAL, pool_id);
        let amount = calc_packet_spec(remaining, sat_i64(packet - opened), 0, total, packet, entropy);
        if amount <= 0 || amount > remaining {
            (m, 0)
        } else {
            let m1 = m.insert(receipt_key(P_POOL_CLAIMED, pool_id, claimer), amount);
            let opened2 = sat_i64(opened + 1);
            let m2 = m1.insert(field_key(P_OPENED, pool_id), opened2);
            let rem2 = sat_i64(remaining - amount);
            let m3 = m2.insert(field_key(P_REMAINING, pool_id), rem2);
            let m4 = if rem2 == 0 || opened2 >= packet {
                m3.insert(field_key(P_ACTIVE, pool_id), 0)
            } else {
                m3
            };
            let claim_id = sat_i64(meta_val(m4, K_NEXT_ID) + 1);
            let m5 = m4.insert(meta_key(K_NEXT_ID), claim_id);
            let m6 = m5.insert(field_key(P_CREATOR, claim_id), fld(m5, P_CREATOR, pool_id));
            let m7 = m6.insert(field_key(P_TOTAL, claim_id), amount);
            let m8 = m7.insert(field_key(P_PACKET, claim_id), 1);
            let m9 = m8.insert(field_key(P_TYPE, claim_id), ENVELOPE_TYPE_CLAIM);
            let m10 = m9.insert(field_key(P_PARENT, claim_id), pool_id);
            let m11 = m10.insert(field_key(P_OPENED, claim_id), 0);
            let m12 = m11.insert(field_key(P_REMAINING, claim_id), amount);
            let m13 = m12.insert(field_key(P_ACTIVE, claim_id), 1);
            let m14 = m13.insert(field_key(P_EXPIRY, claim_id), fld(m13, P_EXPIRY, pool_id));
            let m15 = mint_token_spec(m14, claim_id, claimer);
            let m16 = m15.insert(receipt_key(P_POOL_CLAIM_INDEX, pool_id, opened2), claim_id);
            (m16, claim_id)
        }
    }
}

/// One pass of the pool-expiry refund sweep over claim indices `i` up to
/// `opened`: every indexed entity that is a still-active, still-funded
/// claim is zeroed and deactivated, and its remainder folds into the
/// accumulating refund.
pub open spec fn sweep_claims(
    m: Map<Addr, i64>,
    pool_id: i64,
    i: int,
    opened: i64,
    refund: i64,
) -> (Map<Addr, i64>, i64)
    decreases opened - i + 1,
{
    if i > opened {
        (m, refund)
    } else {
        let claim_id = rcpt(m, P_POOL_CLAIM_INDEX, pool_id, i as i64);
        if claim_id > 0 && fld(m, P_TYPE, claim_id) == ENVELOPE_TYPE_CLAIM && fld(
            m,
            P_ACTIVE,
            claim_id,
        ) != 0 && fld(m, P_REMAINING, claim_id) > 0 {
            let rem = fld(m, P_REMAINING, claim_id);
            let m2 = m.insert(field_key(P_REMAINING, claim_id), 0).insert(
                field_key(P_ACTIVE, claim_id),
                0,
            );
            sweep_claims(m2, pool_id, i + 1, opened, sat_i64(refund + rem))
        } else {
            sweep_claims(m, pool_id, i + 1, opened, refund)
        }
    }
}

/// Guard of [`Ledger::reclaim_pool`]: the creator reclaims a pool
/// strictly after its expiry.
pub open spec fn reclaim_pool_allowed(m: Map<Addr, i64>, now: i64, pool_id: i64, creator: i64) -> bool {
    &&& meta_val(m, K_PAUSED) == 0
    &&& creator != 0
    &&& fld(m, P_CREATOR, pool_id) != 0
    &&& fld(m, P_TYPE, pool_id) == ENVELOPE_TYPE_POOL
    &&& fld(m, P_CREATOR, pool_id) == creator
    &&& now > fld(m, P_EXPIRY, pool_id)
}

/// Model of [`Ledger::reclaim_pool`]: sweep the spawned claims, then
/// retire the pool and refund everything unclaimed.
pub open spec fn reclaim_pool_spec(m: Map<Addr, i64>, now: i64, pool_id: i64, creator: i64) -> (
    Map<Addr, i64>,
    i64,
) {
    if !reclaim_pool_allowed(m, now, pool_id, creator) {
        (m, 0)
    } else {
        let swept = sweep_claims(
            m,
            pool_id,
            1,
            fld(m, P_OPENED, pool_id),
            fld(m, P_REMAINING, pool_id),
        );
        if swept.1 <= 0 {
            (swept.0, 0)
        } else {
            (
                (swept.0).insert(field_key(P_REMAINING, pool_id), 0).insert(
                    field_key(P_ACTIVE, pool_id),
                    0,
                ),
                swept.1,
            )
        }
    }
}

/// Decode an inbound-payment auxiliary payload into packet count, kind
/// tag and expiry: the additive encoding (with its sign-based
/// predecessor) above the base threshold, the legacy packed form for
/// other positive values, and the one-packet spreading default.
pub open spec fn decode_payment_data(data: i64) -> (i64, i64, i64) {
    if data >= ON_NEP17_ADAPTER_BASE {
        let packed0 = (data - ON_NEP17_ADAPTER_BASE) as i64;
        let is_pool = packed0 >= ON_NEP17_ADAPTER_TYPE_MULTIPLIER;
        let packed = if is_pool {
            (packed0 - ON_NEP17_ADAPTER_TYPE_MULTIPLIER) as i64
        } else {
            packed0
        };
        let ty = if is_pool {
            ENVELOPE_TYPE_POOL
        } else {
            ENVELOPE_TYPE_SPREADING
        };
        let pc = (packed as int % ON_NEP17_ADAPTER_EXPIRY_MULTIPLIER as int) as i64;
        let ae = (packed as int / ON_NEP17_ADAPTER_EXPIRY_MULTIPLIER as int) as i64;
        (pc, ty, if ae > 0 {
            ae
        } else {
            DEFAULT_EXPIRY_MS
        })
    } else if data <= -ON_NEP17_ADAPTER_BASE {
        let magnitude = if data == i64::MIN {
            i64::MAX
        } else {
            (-(data as int)) as i64
        };
        let packed = (magnitude - ON_NEP17_ADAPTER_BASE) as i64;
        let pc = (packed as int % ON_NEP17_ADAPTER_EXPIRY_MULTIPLIER as int) as i64;
        let ae = (packed as int / ON_NEP17_ADAPTER_EXPIRY_MULTIPLIER as int) as i64;
        (pc, ENVELOPE_TYPE_POOL, if ae > 0 {
            ae
        } else {
            DEFAULT_EXPIRY_MS
        })
    } else if data > 0 {
        let pp = (data as int / ON_NEP17_LEGACY_PACK_BASE as int) as i64;
        let pc = if pp > 0 {
            pp
        } else {
            1
        };
        let pt = (data - pp * ON_NEP17_LEGACY_PACK_BASE) as i64;
        let ty = if pt == ENVELOPE_TYPE_POOL {
            ENVELOPE_TYPE_POOL
        } else {
            ENVELOPE_TYPE_SPREADING
        };
        (pc, ty, DEFAULT_EXPIRY_MS)
    } else {
        (1, ENVELOPE_TYPE_SPREADING, DEFAULT_EXPIRY_MS)
    }
}

/// Model of [`Ledger::on_nep17_payment`]: decode the payload, re-run the
/// creation validation, and create the envelope with totals updated.
pub open spec fn on_nep17_payment_spec(
    m: Map<Addr, i64>,
    now: i64,
    from: i64,
    amount: i64,
    data: i64,
) -> Map<Addr, i64> {
    if meta_val(m, K_PAUSED) != 0 || from == 0 || amount < MIN_AMOUNT {
        m
    } else {
        let decoded = decode_payment_data(data);
        let pc = decoded.0;
        let ty = decoded.1;
        let exp = decoded.2;
        if pc <= 0 || pc > MAX_PACKETS || amount < pc * MIN_PER_PACKET || !(ty
            == ENVELOPE_TYPE_SPREADING || ty == ENVELOPE_TYPE_POOL) {
            m
        } else {
            create_envelope_spec(m, now, from, amount, pc, exp, ty, true).0
        }
    }
}

impl Ledger {
    /// Record `owner` as the holder of a freshly created token.
    pub fn mint_token(&mut self, token_id: i64, owner: i64)
        requires
            old(self).wf(),
        ensures
            final(self)@ == mint_token_spec(old(self)@, token_id, owner),
            final(self).wf(),
            final(self).host_unchanged(old(self)),
    {
        self.set_env(P_TOKEN_OWNER, token_id, owner);
        let bal = self.env(P_OWNER_BALANCE, owner);
        self.set_env(P_OWNER_BALANCE, owner, sat_add(bal, 1));
        let supply = self.get_key_i64(K_TOTAL_SUPPLY);
        self.put_key_i64(K_TOTAL_SUPPLY, sat_add(supply, 1));
    }

    /// Move a token from `from` to `to`; `true` exactly when `from` and
    /// `to` are real accounts and `from` is the current owner.
    pub fn transfer_token(&mut self, token_id: i64, from: i64, to: i64) -> (ok: bool)
        requires
            old(self).wf(),
        ensures
            (final(self)@, ok) == transfer_token_spec(old(self)@, token_id, from, to),
            final(self).wf(),
            final(self).host_unchanged(old(self)),
            ok == (from != 0 && to != 0 && fld(old(self)@, P_TOKEN_OWNER, token_id) == from),
            ok ==> fld(final(self)@, P_TOKEN_OWNER, token_id) == to,
            !ok ==> final(self)@ == old(self)@,
    {
        if from == 0 || to == 0 {
            return false;
        }
        if self.env(P_TOKEN_OWNER, token_id) != from {
            return false;
        }
        self.set_env(P_TOKEN_OWNER, token_id, to);

        let from_bal = self.env(P_OWNER_BALANCE, from);
        if from_bal > 0 {
            self.set_env(P_OWNER_BALANCE, from, from_bal - 1);
        }
        let to_bal = self.env(P_OWNER_BALANCE, to);
        self.set_env(P_OWNER_BALANCE, to, sat_add(to_bal, 1));
        true
    }

    /// Create a distribution unit funded with `amount` split over
    /// `packet_count` packets, expiring `expiry_ms` from now.  Returns
    /// the fresh id, or `0` with the ledger untouched when validation
    /// fails.  Immediately after a successful creation the unit's
    /// remaining funds equal its total, nothing is opened, and the unit
    /// is active.
    pub fn create_envelope(
        &mut self,
        from: i64,
        amount: i64,
        packet_count: i64,
        expiry_ms: i64,
        envelope_type: i64,
        update_totals: bool,
    ) -> (id: i64)
        requires
            old(self).wf(),
        ensures
            (final(self)@, id) == create_envelope_spec(
                old(self)@,
                now_spec(old(self)@, old(self).clock()),
                from,
                amount,
                packet_count,
                expiry_ms,
                envelope_type,
                update_totals,
            ),
            final(self).wf(),
            final(self).host_unchanged(old(self)),
            !create_valid(from, amount, packet_count, expiry_ms, envelope_type) ==> id == 0
                && final(self)@ == old(self)@,
            create_valid(from, amount, packet_count, expiry_ms, envelope_type) ==> ({
                &&& id == sat_i64(meta_val(old(self)@, K_NEXT_ID) + 1)
                &&& fld(final(self)@, P_CREATOR, id) == from
                &&& fld(final(self)@, P_TOTAL, id) == amount
                &&& fld(final(self)@, P_PACKET, id) == packet_count
                &&& fld(final(self)@, P_TYPE, id) == envelope_type
                &&& fld(final(self)@, P_PARENT, id) == 0
                &&& fld(final(self)@, P_OPENED, id) == 0
                &&& fld(final(self)@, P_REMAINING, id) == amount
                &&& fld(final(self)@, P_ACTIVE, id) == 1
                &&& fld(final(self)@, P_EXPIRY, id) == sat_i64(
                    now_spec(old(self)@, old(self).clock()) + expiry_ms,
                )
                &&& meta_val(final(self)@, K_NEXT_ID) == id
                &&& (envelope_type == ENVELOPE_TYPE_SPREADING ==> fld(
                    final(self)@,
                    P_TOKEN_OWNER,
                    id,
                ) == from)
            }),
    {
        if from == 0 || amount < MIN_AMOUNT || packet_count <= 0 || packet_count > MAX_PACKETS
            || amount < sat_mul_nonneg(packet_count, MIN_PER_PACKET) || expiry_ms <= 0
            || expiry_ms > MAX_EXPIRY_MS || !(envelope_type == ENVELOPE_TYPE_SPREADING
            || envelope_type == ENVELOPE_TYPE_POOL) {
            return 0;
        }

        let now = self.now_ms();
        let id = self.alloc_id();
        self.set_env(P_CREATOR, id, from);
        self.set_env(P_TOTAL, id, amount);
        self.set_env(P_PACKET, id, packet_count);
        self.set_env(P_TYPE, id, envelope_type);
        self.set_env(P_PARENT, id, 0);
        self.set_env(P_OPENED, id, 0);
        self.set_env(P_REMAINING, id, amount);
        self.set_env(P_ACTIVE, id, 1);
        self.set_env(P_EXPIRY, id, sat_add(now, expiry_ms));

        if envelope_type == ENVELOPE_TYPE_SPREADING {
            self.mint_token(id, from);
        }

        if update_totals {
            let count = self.get_key_i64(K_TOTAL_ENVELOPES);
            self.put_key_i64(K_TOTAL_ENVELOPES, sat_add(count, 1));
            let distributed = self.get_key_i64(K_TOTAL_DISTRIBUTED);
            self.put_key_i64(K_TOTAL_DISTRIBUTED, sat_add(distributed, amount));
        }

        id
    }

    /// Record the administrative owner; the zero account is rejected.
    pub fn set_owner(&mut self, new_owner: i64)
        requires
            old(self).wf(),
        ensures
            final(self)@ == (if new_owner == 0 {
                old(self)@
            } else {
                old(self)@.insert(meta_key(K_OWNER), new_owner)
            }),
            final(self).wf(),
            final(self).host_unchanged(old(self)),
    {
        if new_owner == 0 {
            return ;
        }
        self.put_key_i64(K_OWNER, new_owner);
    }

    /// Raise the global pause flag: every mutating operation no-ops.
    pub fn pause(&mut self)
        requires
            old(self).wf(),
        ensures
            final(self)@ == old(self)@.insert(meta_key(K_PAUSED), 1),
            final(self).wf(),
            final(self).host_unchanged(old(self)),
    {
        self.put_key_i64(K_PAUSED, 1);
    }

    /// Clear the global pause flag.
    pub fn resume(&mut self)
        requires
            old(self).wf(),
        ensures
            final(self)@ == old(self)@.insert(meta_key(K_PAUSED), 0),
            final(self).wf(),
            final(self).host_unchanged(old(self)),
    {
        self.put_key_i64(K_PAUSED, 0);
    }

    /// First-deployment initialization of every singleton slot, or an
    /// owner backfill on an update that finds none recorded.
    pub fn contract_deploy(&mut self, data: i64, update: bool)
        requires
            old(self).wf(),
        ensures
            final(self)@ == (if !update {
                old(self)@.insert(meta_key(K_OWNER), data).insert(meta_key(K_NEXT_ID), 0).insert(
                    meta_key(K_TOTAL_ENVELOPES),
                    0,
                ).insert(meta_key(K_TOTAL_DISTRIBUTED), 0).insert(
                    meta_key(K_TIME_OVERRIDE),
                    0,
                ).insert(meta_key(K_TOTAL_SUPPLY), 0).insert(meta_key(K_PAUSED), 0)
            } else if meta_val(old(self)@, K_OWNER) == 0 {
                old(self)@.insert(meta_key(K_OWNER), data)
            } else {
                old(self)@
            }),
            final(self).wf(),
            final(self).host_unchanged(old(self)),
    {
        if !update {
            self.put_key_i64(K_OWNER, data);
            self.put_key_i64(K_NEXT_ID, 0);
            self.put_key_i64(K_TOTAL_ENVELOPES, 0);
            self.put_key_i64(K_TOTAL_DISTRIBUTED, 0);
            self.put_key_i64(K_TIME_OVERRIDE, 0);
            self.put_key_i64(K_TOTAL_SUPPLY, 0);
            self.put_key_i64(K_PAUSED, 0);
        } else if self.get_key_i64(K_OWNER) == 0 {
            self.put_key_i64(K_OWNER, data);
        }
    }

    /// Open one packet of a spreading envelope.  Returns the amount paid
    /// out, or `0` with the ledger untouched when any precondition fails
    /// — in particular a second open by the same opener.  A successful
    /// open writes the opener's receipt, moves exactly the paid amount
    /// out of the remaining balance, and deactivates the envelope once it
    /// is exhausted.
    pub fn open_envelope(&mut self, envelope_id: i64, opener: i64) -> (r: i64)
        requires
            old(self).wf(),
        ensures
            (final(self)@, r) == open_envelope_spec(
                old(self)@,
                now_spec(old(self)@, old(self).clock()),
                old(self).entropy(),
                envelope_id,
                opener,
            ),
            final(self).wf(),
            final(self).host_unchanged(old(self)),
            rcpt(old(self)@, P_OPENED_AMOUNT, envelope_id, opener) > 0 ==> r == 0 && final(self)@
                == old(self)@,
            r == 0 ==> final(self)@ == old(self)@,
            r != 0 ==> ({
                &&& 0 < r <= fld(old(self)@, P_REMAINING, envelope_id)
                &&& rcpt(final(self)@, P_OPENED_AMOUNT, envelope_id, opener) == r
                &&& fld(final(self)@, P_OPENED, envelope_id) == sat_i64(
                    fld(old(self)@, P_OPENED, envelope_id) + 1,
                )
                &&& fld(final(self)@, P_REMAINING, envelope_id) == fld(
                    old(self)@,
                    P_REMAINING,
                    envelope_id,
                ) - r
                &&& fld(final(self)@, P_TOTAL, envelope_id) == fld(
                    old(self)@,
                    P_TOTAL,
                    envelope_id,
                )
                &&& fld(final(self)@, P_PACKET, envelope_id) == fld(
                    old(self)@,
                    P_PACKET,
                    envelope_id,
                )
                &&& ((fld(final(self)@, P_REMAINING, envelope_id) == 0 || fld(
                    final(self)@,
                    P_OPENED,
                    envelope_id,
                ) >= fld(old(self)@, P_PACKET, envelope_id)) ==> fld(
                    final(self)@,
                    P_ACTIVE,
                    envelope_id,
                ) == 0)
            }),
    {
        if self.is_paused_flag() || opener == 0 || !self.envelope_exists(envelope_id) || self.env(
            P_TYPE,
            envelope_id,
        ) != ENVELOPE_TYPE_SPREADING || self.env(P_ACTIVE, envelope_id) == 0 || self.env(
            P_OPENED,
            envelope_id,
        ) >= self.env(P_PACKET, envelope_id) || self.now_ms() > self.env(P_EXPIRY, envelope_id)
            || self.env(P_TOKEN_OWNER, envelope_id) != opener || self.get_rcpt(
            P_OPENED_AMOUNT,
            envelope_id,
            opener,
        ) > 0 {
            return 0;
        }

        let remaining = self.env(P_REMAINING, envelope_id);
        let opened = self.env(P_OPENED, envelope_id);
        let packet = self.env(P_PACKET, envelope_id);
        let total_amount = self.env(P_TOTAL, envelope_id);
        let amount = calc_packet(
            remaining,
            sat_sub(packet, opened),
            0,
            total_amount,
            packet,
            self.entropy_input(),
        );
        if amount <= 0 || amount > remaining {
            return 0;
        }

        self.put_rcpt(P_OPENED_AMOUNT, envelope_id, opener, amount);
        self.set_env(P_OPENED, envelope_id, sat_add(opened, 1));

        let rem2 = sat_sub(remaining, amount);
        self.set_env(P_REMAINING, envelope_id, rem2);
        if rem2 == 0 || sat_add(opened, 1) >= packet {
            self.set_env(P_ACTIVE, envelope_id, 0);
        }

        amount
    }

    /// Open a claim: a single-shot, terminal payout of its whole
    /// remaining balance to its current owner.  Returns `0` with the
    /// ledger untouched when any precondition fails, including a repeat
    /// open.
    pub fn open_claim(&mut self, claim_id: i64, opener: i64) -> (r: i64)
        requires
            old(self).wf(),
        ensures
            (final(self)@, r) == open_claim_spec(
                old(self)@,
                now_spec(old(self)@, old(self).clock()),
                claim_id,
                opener,
            ),
            final(self).wf(),
            final(self).host_unchanged(old(self)),
            r == 0 ==> final(self)@ == old(self)@,
            fld(old(self)@, P_OPENED, claim_id) > 0 ==> r == 0 && final(self)@ == old(self)@,
            r != 0 ==> ({
                &&& r == fld(old(self)@, P_REMAINING, claim_id)
                &&& fld(final(self)@, P_OPENED, claim_id) == 1
                &&& fld(final(self)@, P_REMAINING, claim_id) == 0
                &&& fld(final(self)@, P_ACTIVE, claim_id) == 0
                &&& fld(final(self)@, P_TOTAL, claim_id) == fld(old(self)@, P_TOTAL, claim_id)
            }),
    {
        if self.is_paused_flag() || opener == 0 || !self.envelope_exists(claim_id) || self.env(
            P_TYPE,
            claim_id,
        ) != ENVELOPE_TYPE_CLAIM || self.env(P_TOKEN_OWNER, claim_id) != opener || self.env(
            P_ACTIVE,
            claim_id,
        ) == 0 || self.env(P_OPENED, claim_id) > 0 || self.env(P_REMAINING, claim_id) <= 0
            || self.now_ms() > self.env(P_EXPIRY, claim_id) {
            return 0;
        }

        let amount = self.env(P_REMAINING, claim_id);
        self.set_env(P_OPENED, claim_id, 1);
        self.set_env(P_REMAINING, claim_id, 0);
        self.set_env(P_ACTIVE, claim_id, 0);
        amount
    }

    /// Refund the remaining balance of an expired spreading envelope to
    /// its creator and retire it.  Returns the refund, or `0` with the
    /// ledger untouched.
    pub fn reclaim_envelope(&mut self, envelope_id: i64, creator: i64) -> (r: i64)
        requires
            old(self).wf(),
        ensures
            (final(self)@, r) == reclaim_envelope_spec(
                old(self)@,
                now_spec(old(self)@, old(self).clock()),
                envelope_id,
                creator,
            ),
            final(self).wf(),
            final(self).host_unchanged(old(self)),
            r == 0 ==> final(self)@ == old(self)@,
            r != 0 ==> ({
                &&& r == fld(old(self)@, P_REMAINING, envelope_id)
                &&& fld(final(self)@, P_REMAINING, envelope_id) == 0
                &&& fld(final(self)@, P_ACTIVE, envelope_id) == 0
            }),
    {
        if self.is_paused_flag() || creator == 0 || !self.envelope_exists(envelope_id) || self.env(
            P_TYPE,
            envelope_id,
        ) != ENVELOPE_TYPE_SPREADING || self.env(P_CREATOR, envelope_id) != creator || self.env(
            P_ACTIVE,
            envelope_id,
        ) == 0 || self.now_ms() <= self.env(P_EXPIRY, envelope_id) {
            return 0;
        }

        let refund = self.env(P_REMAINING, envelope_id);
        if refund <= 0 {
            return 0;
        }

        self.set_env(P_REMAINING, envelope_id, 0);
        self.set_env(P_ACTIVE, envelope_id, 0);
        refund
    }

    /// Move custody of a spreading envelope or claim token from its
    /// current owner to `to`.  Custody transfer is independent of
    /// distribution eligibility, but honours the global pause flag.
    pub fn transfer(&mut self, to: i64, token_id: i64, data: i64) -> (ok: bool)
        requires
            old(self).wf(),
        ensures
            (final(self)@, ok) == transfer_spec(old(self)@, token_id, to),
            final(self).wf(),
            final(self).host_unchanged(old(self)),
            ok ==> fld(final(self)@, P_TOKEN_OWNER, token_id) == to,
            !ok ==> final(self)@ == old(self)@,
    {
        let _ = data;
        if self.is_paused_flag() || to == 0 || !self.token_exists(token_id) {
            return false;
        }

        let t = self.env(P_TYPE, token_id);
        if !(t == ENVELOPE_TYPE_SPREADING || t == ENVELOPE_TYPE_CLAIM) {
            return false;
        }

        let from = self.env(P_TOKEN_OWNER, token_id);
        if from == 0 {
            return false;
        }

        self.transfer_token(token_id, from, to)
    }

    /// Move custody of a spreading envelope, the holder asserting their
    /// own account; a no-op when any precondition fails.
    pub fn transfer_envelope(&mut self, envelope_id: i64, from: i64, to: i64, data: i64)
        requires
            old(self).wf(),
        ensures
            final(self)@ == transfer_envelope_spec(old(self)@, envelope_id, from, to),
            final(self).wf(),
            final(self).host_unchanged(old(self)),
    {
        let _ = data;
        if self.is_paused_flag() || from == 0 || to == 0 || !self.envelope_exists(envelope_id)
            || self.env(P_TYPE, envelope_id) != ENVELOPE_TYPE_SPREADING || self.env(
            P_TOKEN_OWNER,
            envelope_id,
        ) != from {
            return ;
        }

        let _ = self.transfer_token(envelope_id, from, to);
    }

    /// Move custody of a claim, the holder asserting their own account;
    /// a no-op when any precondition fails.
    pub fn transfer_claim(&mut self, claim_id: i64, from: i64, to: i64)
        requires
            old(self).wf(),
        ensures
            final(self)@ == transfer_claim_spec(old(self)@, claim_id, from, to),
            final(self).wf(),
            final(self).host_unchanged(old(self)),
    {
        if self.is_paused_flag() || from == 0 || to == 0 || !self.envelope_exists(claim_id)
            || self.env(P_TYPE, claim_id) != ENVELOPE_TYPE_CLAIM || self.env(
            P_TOKEN_OWNER,
            claim_id,
        ) != from {
            return ;
        }

        let _ = self.transfer_token(claim_id, from, to);
    }

    /// Draw one packet from a pool for `claimer`, spawning a fresh claim
    /// they own.  Returns the new claim's id, or `0` with the ledger
    /// untouched when any precondition fails — in particular a second
    /// claim by the same claimer.
    pub fn claim_from_pool(&mut self, pool_id: i64, claimer: i64) -> (r: i64)
        requires
            old(self).wf(),
        ensures
            (final(self)@, r) == claim_from_pool_spec(
                old(self)@,
                now_spec(old(self)@, old(self).clock()),
                old(self).entropy(),
                pool_id,
                claimer,
            ),
            final(self).wf(),
            final(self).host_unchanged(old(self)),
            rcpt(old(self)@, P_POOL_CLAIMED, pool_id, claimer) > 0 ==> r == 0 && final(self)@
                == old(self)@,
            !claim_from_pool_allowed(
                old(self)@,
                now_spec(old(self)@, old(self).clock()),
                pool_id,
                claimer,
            ) ==> r == 0 && final(self)@ == old(self)@,
            r != 0 ==> ({
                let amount = rcpt(final(self)@, P_POOL_CLAIMED, pool_id, claimer);
                &&& 0 < amount <= fld(old(self)@, P_REMAINING, pool_id)
                &&& r == sat_i64(meta_val(old(self)@, K_NEXT_ID) + 1)
                &&& meta_val(final(self)@, K_NEXT_ID) == r
                &&& (r != pool_id ==> ({
                    &&& fld(final(self)@, P_OPENED, pool_id) == sat_i64(
                        fld(old(self)@, P_OPENED, pool_id) + 1,
                    )
                    &&& fld(final(self)@, P_REMAINING, pool_id) == fld(
                        old(self)@,
                        P_REMAINING,
                        pool_id,
                    ) - amount
                    &&& fld(final(self)@, P_TOTAL, pool_id) == fld(old(self)@, P_TOTAL, pool_id)
                    &&& fld(final(self)@, P_TYPE, r) == ENVELOPE_TYPE_CLAIM
                    &&& fld(final(self)@, P_PARENT, r) == pool_id
                    &&& fld(final(self)@, P_TOTAL, r) == amount
                    &&& fld(final(self)@, P_REMAINING, r) == amount
                    &&& fld(final(self)@, P_OPENED, r) == 0
                    &&& fld(final(self)@, P_ACTIVE, r) == 1
                    &&& fld(final(self)@, P_PACKET, r) == 1
                    &&& fld(final(self)@, P_EXPIRY, r) == fld(old(self)@, P_EXPIRY, pool_id)
                    &&& fld(final(self)@, P_TOKEN_OWNER, r) == claimer
                    &&& rcpt(
                        final(self)@,
                        P_POOL_CLAIM_INDEX,
                        pool_id,
                        sat_i64(fld(old(self)@, P_OPENED, pool_id) + 1),
                    ) == r
                }))
            }),
    {
        if self.is_paused_flag() || claimer == 0 || !self.envelope_exists(pool_id) || self.env(
            P_TYPE,
            pool_id,
        ) != ENVELOPE_TYPE_POOL || self.env(P_ACTIVE, pool_id) == 0 || self.env(P_OPENED, pool_id)
            >= self.env(P_PACKET, pool_id) || self.now_ms() > self.env(P_EXPIRY, pool_id)
            || self.get_rcpt(P_POOL_CLAIMED, pool_id, claimer) > 0 {
            return 0;
        }

        let opened = self.env(P_OPENED, pool_id);
        let packet = self.env(P_PACKET, pool_id);
        let remaining = self.env(P_REMAINING, pool_id);
        let total_amount = self.env(P_TOTAL, pool_id);
        let amount = calc_packet(
            remaining,
            sat_sub(packet, opened),
            0,
            total_amount,
            packet,
            self.entropy_input(),
        );
        if amount <= 0 || amount > remaining {
            return 0;
        }

        self.put_rcpt(P_POOL_CLAIMED, pool_id, claimer, amount);

        let opened2 = sat_add(opened, 1);
        self.set_env(P_OPENED, pool_id, opened2);

        let rem2 = sat_sub(remaining, amount);
        self.set_env(P_REMAINING, pool_id, rem2);
        if rem2 == 0 || opened2 >= packet {
            self.set_env(P_ACTIVE, pool_id, 0);
        }

        let claim_id = self.alloc_id();
        let pool_creator = self.env(P_CREATOR, pool_id);
        self.set_env(P_CREATOR, claim_id, pool_creator);
        self.set_env(P_TOTAL, claim_id, amount);
        self.set_env(P_PACKET, claim_id, 1);
        self.set_env(P_TYPE, claim_id, ENVELOPE_TYPE_CLAIM);
        self.set_env(P_PARENT, claim_id, pool_id);
        self.set_env(P_OPENED, claim_id, 0);
        self.set_env(P_REMAINING, claim_id, amount);
        self.set_env(P_ACTIVE, claim_id, 1);
        let pool_expiry = self.env(P_EXPIRY, pool_id);
        self.set_env(P_EXPIRY, claim_id, pool_expiry);

        self.mint_token(claim_id, claimer);
        self.put_rcpt(P_POOL_CLAIM_INDEX, pool_id, opened2, claim_id);

        claim_id
    }

    /// Refund an expired pool to its creator: the pool's own remainder
    /// plus the remainder of every spawned claim that is still active and
    /// un-opened; each such claim is zeroed and deactivated.  Returns the
    /// refund, or `0` when a precondition fails.
    pub fn reclaim_pool(&mut self, pool_id: i64, creator: i64) -> (r: i64)
        requires
            old(self).wf(),
        ensures
            (final(self)@, r) == reclaim_pool_spec(
                old(self)@,
                now_spec(old(self)@, old(self).clock()),
                pool_id,
                creator,
            ),
            final(self).wf(),
            final(self).host_unchanged(old(self)),
            !reclaim_pool_allowed(
                old(self)@,
                now_spec(old(self)@, old(self).clock()),
                pool_id,
                creator,
            ) ==> r == 0 && final(self)@ == old(self)@,
            r != 0 ==> fld(final(self)@, P_REMAINING, pool_id) == 0 && fld(
                final(self)@,
                P_ACTIVE,
                pool_id,
            ) == 0,
    {
        if self.is_paused_flag() || creator == 0 || !self.envelope_exists(pool_id) || self.env(
            P_TYPE,
            pool_id,
        ) != ENVELOPE_TYPE_POOL || self.env(P_CREATOR, pool_id) != creator || self.now_ms()
            <= self.env(P_EXPIRY, pool_id) {
            return 0;
        }

        let opened = self.env(P_OPENED, pool_id);
        let mut refund = self.env(P_REMAINING, pool_id);
        let ghost m0 = self@;
        let ghost refund0 = refund;
        let ghost pre_clock = self.clock();
        let ghost pre_entropy = self.entropy();

        let mut i: i64 = 1;
        let mut done = opened < 1;
        while !done
            invariant
                self.wf(),
                self.clock() == pre_clock,
                self.entropy() == pre_entropy,
                !done ==> 1 <= i <= opened,
                sweep_claims(m0, pool_id, 1, opened, refund0) == sweep_claims(
                    self@,
                    pool_id,
                    if done {
                        opened + 1
                    } else {
                        i as int
                    },
                    opened,
                    refund,
                ),
            decreases opened - i + (if done {
                0int
            } else {
                1int
            }),
        {
            let claim_id = self.get_rcpt(P_POOL_CLAIM_INDEX, pool_id, i);
            if claim_id > 0 && self.env(P_TYPE, claim_id) == ENVELOPE_TYPE_CLAIM && self.env(
                P_ACTIVE,
                claim_id,
            ) != 0 {
                let rem = self.env(P_REMAINING, claim_id);
                if rem > 0 {
                    refund = sat_add(refund, rem);
                    self.set_env(P_REMAINING, claim_id, 0);
                    self.set_env(P_ACTIVE, claim_id, 0);
                }
            }
            if i < opened {
                i = i + 1;
            } else {
                done = true;
            }
        }

        if refund <= 0 {
            return 0;
        }

        self.set_env(P_REMAINING, pool_id, 0);
        self.set_env(P_ACTIVE, pool_id, 0);
        refund
    }

    /// The inbound-payment trigger: decode the auxiliary payload into
    /// packet count, kind and expiry (tolerating the legacy packed form
    /// and the absence of any payload), validate, and create the funded
    /// unit with the contract-wide totals updated.
    pub fn on_nep17_payment(&mut self, from: i64, amount: i64, data: i64)
        requires
            old(self).wf(),
        ensures
            final(self)@ == on_nep17_payment_spec(
                old(self)@,
                now_spec(old(self)@, old(self).clock()),
                from,
                amount,
                data,
            ),
            final(self).wf(),
            final(self).host_unchanged(old(self)),
    {
        if self.is_paused_flag() || from == 0 || amount < MIN_AMOUNT {
            return ;
        }

        let mut packet_count: i64 = 1;
        let mut envelope_type: i64 = ENVELOPE_TYPE_SPREADING;
        let mut expiry_ms: i64 = DEFAULT_EXPIRY_MS;

        if data >= ON_NEP17_ADAPTER_BASE {
            let mut packed = data - ON_NEP17_ADAPTER_BASE;
            if packed >= ON_NEP17_ADAPTER_TYPE_MULTIPLIER {
                packed = packed - ON_NEP17_ADAPTER_TYPE_MULTIPLIER;
                envelope_type = ENVELOPE_TYPE_POOL;
            }
            packet_count = packed % ON_NEP17_ADAPTER_EXPIRY_MULTIPLIER;
            let adapter_expiry = packed / ON_NEP17_ADAPTER_EXPIRY_MULTIPLIER;
            if adapter_expiry > 0 {
                expiry_ms = adapter_expiry;
            }
        } else if data <= -ON_NEP17_ADAPTER_BASE {
            let magnitude = if data == i64::MIN {
                i64::MAX
            } else {
                -data
            };
            let packed = magnitude - ON_NEP17_ADAPTER_BASE;
            packet_count = packed % ON_NEP17_ADAPTER_EXPIRY_MULTIPLIER;
            let adapter_expiry = packed / ON_NEP17_ADAPTER_EXPIRY_MULTIPLIER;
            if adapter_expiry > 0 {
                expiry_ms = adapter_expiry;
            }
            envelope_type = ENVELOPE_TYPE_POOL;
        } else if data > 0 {
            proof {
                vstd::arithmetic::div_mod::lemma_fundamental_div_mod(data as int, 10);
            }
            let packed_packets = data / ON_NEP17_LEGACY_PACK_BASE;
            if packed_packets > 0 {
                packet_count = packed_packets;
            }
            let packed_type = data - packed_packets * ON_NEP17_LEGACY_PACK_BASE;
            if packed_type == ENVELOPE_TYPE_POOL {
                envelope_type = ENVELOPE_TYPE_POOL;
            }
        }
        proof {
            assert((packet_count, envelope_type, expiry_ms) == decode_payment_data(data));
        }

        if packet_count <= 0 || packet_count > MAX_PACKETS || amount < packet_count
            * MIN_PER_PACKET || !(envelope_type == ENVELOPE_TYPE_SPREADING || envelope_type
            == ENVELOPE_TYPE_POOL) {
            return ;
        }

        let _ = self.create_envelope(from, amount, packet_count, expiry_ms, envelope_type, true);
    }
}

} // verus!
