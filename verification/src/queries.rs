//! The read-only query surface: the eligibility taxonomy, packet
//! previews, and the per-entity and contract-wide getters.

use crate::constants::{
    ELIGIBILITY_OK, ENVELOPE_TYPE_CLAIM, ENVELOPE_TYPE_POOL, ENVELOPE_TYPE_SPREADING,
    E_ALREADY_CLAIMED, E_ALREADY_OPENED, E_DEPLETED, E_EXPIRED, E_INVALID_TYPE, E_NOT_ACTIVE,
    E_NOT_FOUND, E_NOT_HOLDER, K_OWNER, K_PAUSED, K_TOTAL_DISTRIBUTED, K_TOTAL_ENVELOPES,
    K_TOTAL_SUPPLY, MIN_AMOUNT, P_ACTIVE, P_CREATOR, P_EXPIRY, P_OPENED, P_OPENED_AMOUNT,
    P_OWNER_BALANCE, P_PACKET, P_POOL_CLAIMED, P_POOL_CLAIM_INDEX, P_REMAINING, P_TOKEN_OWNER,
    P_TOTAL, P_TYPE,
};
use crate::packet::{calc_packet, calc_packet_spec, sat_i64, sat_sub};
use crate::store::{fld, meta_val, now_spec, rcpt, Addr, Ledger};
use vstd::prelude::*;

verus! {

/// The ordered rejection taxonomy of the eligibility query: not found,
/// not active, then (for action checks) expired, depleted, a replayed
/// claim or open, a holder mismatch, and an unknown kind tag.
pub open spec fn eligibility_spec(
    m: Map<Addr, i64>,
    now: i64,
    envelope_id: i64,
    user: i64,
    include_action_checks: bool,
) -> i64 {
    if fld(m, P_CREATOR, envelope_id) == 0 {
        E_NOT_FOUND
    } else if fld(m, P_ACTIVE, envelope_id) == 0 {
        E_NOT_ACTIVE
    } else if include_action_checks {
        if now > fld(m, P_EXPIRY, envelope_id) {
            E_EXPIRED
        } else if fld(m, P_OPENED, envelope_id) >= fld(m, P_PACKET, envelope_id) || fld(
            m,
            P_REMAINING,
            envelope_id,
        ) <= 0 {
            E_DEPLETED
        } else {
            let t = fld(m, P_TYPE, envelope_id);
            if t == ENVELOPE_TYPE_POOL {
                if rcpt(m, P_POOL_CLAIMED, envelope_id, user) > 0 {
                    E_ALREADY_CLAIMED
                } else {
                    ELIGIBILITY_OK
                }
            } else if t == ENVELOPE_TYPE_SPREADING || t == ENVELOPE_TYPE_CLAIM {
                if t == ENVELOPE_TYPE_SPREADING && rcpt(m, P_OPENED_AMOUNT, envelope_id, user)
                    > 0 {
                    E_ALREADY_OPENED
                } else if t == ENVELOPE_TYPE_CLAIM && fld(m, P_OPENED, envelope_id) > 0 {
                    E_ALREADY_OPENED
                } else if fld(m, P_TOKEN_OWNER, envelope_id) != user {
                    E_NOT_HOLDER
                } else {
                    ELIGIBILITY_OK
                }
            } else {
                E_INVALID_TYPE
            }
        }
    } else {
        ELIGIBILITY_OK
    }
}

impl Ledger {
    /// Classify why `user` may or may not act on an entity, in the
    /// documented priority order.
    pub fn eligibility_status(
        &self,
        envelope_id: i64,
        user: i64,
        include_action_checks: bool,
    ) -> (r: i64)
        requires
            self.wf(),
        ensures
            r == eligibility_spec(
                self@,
                now_spec(self@, self.clock()),
                envelope_id,
                user,
                include_action_checks,
            ),
    {
        if !self.envelope_exists(envelope_id) {
            return E_NOT_FOUND;
        }
        if self.env(P_ACTIVE, envelope_id) == 0 {
            return E_NOT_ACTIVE;
        }
        if include_action_checks {
            if self.now_ms() > self.env(P_EXPIRY, envelope_id) {
                return E_EXPIRED;
            }
            if self.env(P_OPENED, envelope_id) >= self.env(P_PACKET, envelope_id) || self.env(
                P_REMAINING,
                envelope_id,
            ) <= 0 {
                return E_DEPLETED;
            }
            let t = self.env(P_TYPE, envelope_id);
            if t == ENVELOPE_TYPE_POOL {
                if self.get_rcpt(P_POOL_CLAIMED, envelope_id, user) > 0 {
                    return E_ALREADY_CLAIMED;
                }
            } else if t == ENVELOPE_TYPE_SPREADING || t == ENVELOPE_TYPE_CLAIM {
                if t == ENVELOPE_TYPE_SPREADING && self.get_rcpt(
                    P_OPENED_AMOUNT,
                    envelope_id,
                    user,
                ) > 0 {
                    return E_ALREADY_OPENED;
                }
                if t == ENVELOPE_TYPE_CLAIM && self.env(P_OPENED, envelope_id) > 0 {
                    return E_ALREADY_OPENED;
                }
                if self.env(P_TOKEN_OWNER, envelope_id) != user {
                    return E_NOT_HOLDER;
                }
            } else {
                return E_INVALID_TYPE;
            }
        }
        ELIGIBILITY_OK
    }

    /// The eligibility taxonomy without the action checks.
    pub fn check_eligibility(&self, envelope_id: i64, user: i64) -> (r: i64)
        requires
            self.wf(),
        ensures
            r == eligibility_spec(self@, now_spec(self@, self.clock()), envelope_id, user, false),
    {
        self.eligibility_status(envelope_id, user, false)
    }

    /// The eligibility taxonomy with the action checks.
    pub fn check_open_eligibility(&self, envelope_id: i64, user: i64) -> (r: i64)
        requires
            self.wf(),
        ensures
            r == eligibility_spec(self@, now_spec(self@, self.clock()), envelope_id, user, true),
    {
        self.eligibility_status(envelope_id, user, true)
    }

    /// Preview the amount the packet at `packet_index` would be sized at,
    /// given the entity's current remaining funds.
    pub fn calculate_packet_amount(&self, envelope_id: i64, packet_index: i64) -> (r: i64)
        requires
            self.wf(),
        ensures
            r == (if fld(self@, P_CREATOR, envelope_id) == 0 {
                0
            } else {
                let packet = fld(self@, P_PACKET, envelope_id);
                let remaining = fld(self@, P_REMAINING, envelope_id);
                let remaining_packets = sat_i64(packet - packet_index);
                if remaining <= 0 || remaining_packets <= 0 {
                    0
                } else {
                    calc_packet_spec(
                        remaining,
                        remaining_packets,
                        0,
                        fld(self@, P_TOTAL, envelope_id),
                        packet,
                        self.entropy(),
                    )
                }
            }),
    {
        if !self.envelope_exists(envelope_id) {
            return 0;
        }
        let packet = self.env(P_PACKET, envelope_id);
        let remaining = self.env(P_REMAINING, envelope_id);
        let remaining_packets = sat_sub(packet, packet_index);
        if remaining <= 0 || remaining_packets <= 0 {
            return 0;
        }
        calc_packet(
            remaining,
            remaining_packets,
            0,
            self.env(P_TOTAL, envelope_id),
            packet,
            self.entropy_input(),
        )
    }

    /// Ticker constant of the NEP-11 surface.
    pub fn symbol() -> (r: i64)
        ensures
            r == 1,
    {
        1
    }

    /// Decimal places of the NEP-11 surface.
    pub fn decimals() -> (r: i64)
        ensures
            r == 0,
    {
        0
    }

    /// Number of tokens ever minted.
    pub fn total_supply(&self) -> (r: i64)
        requires
            self.wf(),
        ensures
            r == meta_val(self@, K_TOTAL_SUPPLY),
    {
        self.get_key_i64(K_TOTAL_SUPPLY)
    }

    /// Held-token count of an account; `0` for the zero account.
    pub fn balance_of(&self, account: i64) -> (r: i64)
        requires
            self.wf(),
        ensures
            r == (if account == 0 {
                0
            } else {
                fld(self@, P_OWNER_BALANCE, account)
            }),
    {
        if account == 0 {
            return 0;
        }
        self.env(P_OWNER_BALANCE, account)
    }

    /// Current owner of a token; `0` when unminted.
    pub fn owner_of(&self, token_id: i64) -> (r: i64)
        requires
            self.wf(),
        ensures
            r == fld(self@, P_TOKEN_OWNER, token_id),
    {
        self.env(P_TOKEN_OWNER, token_id)
    }

    /// Kind tag of an existing token, `0` otherwise.
    pub fn properties(&self, token_id: i64) -> (r: i64)
        requires
            self.wf(),
        ensures
            r == (if fld(self@, P_TOKEN_OWNER, token_id) == 0 {
                0
            } else {
                fld(self@, P_TYPE, token_id)
            }),
    {
        if !self.token_exists(token_id) {
            return 0;
        }
        self.env(P_TYPE, token_id)
    }

    /// Token enumeration stand-in: the minted count.
    pub fn tokens(&self) -> (r: i64)
        requires
            self.wf(),
        ensures
            r == meta_val(self@, K_TOTAL_SUPPLY),
    {
        self.total_supply()
    }

    /// Per-owner token enumeration stand-in: the held count.
    pub fn tokens_of(&self, owner: i64) -> (r: i64)
        requires
            self.wf(),
        ensures
            r == (if owner == 0 {
                0
            } else {
                fld(self@, P_OWNER_BALANCE, owner)
            }),
    {
        self.balance_of(owner)
    }

    /// The administrative owner account.
    pub fn get_owner(&self) -> (r: i64)
        requires
            self.wf(),
        ensures
            r == meta_val(self@, K_OWNER),
    {
        self.get_key_i64(K_OWNER)
    }

    /// Whether an administrative owner is on record.
    pub fn is_owner(&self) -> (r: bool)
        requires
            self.wf(),
        ensures
            r == (meta_val(self@, K_OWNER) != 0),
    {
        self.get_key_i64(K_OWNER) != 0
    }

    /// The witness check of the administrative surface: an owner is on
    /// record.
    pub fn verify(&self) -> (r: bool)
        requires
            self.wf(),
        ensures
            r == (meta_val(self@, K_OWNER) != 0),
    {
        self.is_owner()
    }

    /// Whether the global pause flag is set.
    pub fn is_paused(&self) -> (r: bool)
        requires
            self.wf(),
        ensures
            r == (meta_val(self@, K_PAUSED) != 0),
    {
        self.get_key_i64(K_PAUSED) != 0
    }

    /// Identifier-as-URI of an existing token, `0` otherwise.
    pub fn token_uri(&self, token_id: i64) -> (r: i64)
        requires
            self.wf(),
        ensures
            r == (if fld(self@, P_TOKEN_OWNER, token_id) == 0 {
                0
            } else {
                token_id
            }),
    {
        if self.token_exists(token_id) {
            token_id
        } else {
            0
        }
    }

    /// Remaining funds of an existing entity, `0` otherwise.
    pub fn get_envelope_state(&self, envelope_id: i64) -> (r: i64)
        requires
            self.wf(),
        ensures
            r == (if fld(self@, P_CREATOR, envelope_id) == 0 {
                0
            } else {
                fld(self@, P_REMAINING, envelope_id)
            }),
    {
        if !self.envelope_exists(envelope_id) {
            return 0;
        }
        self.env(P_REMAINING, envelope_id)
    }

    /// Remaining funds of an existing claim entity, `0` otherwise.
    pub fn get_claim_state(&self, claim_id: i64) -> (r: i64)
        requires
            self.wf(),
        ensures
            r == (if fld(self@, P_CREATOR, claim_id) == 0 || fld(self@, P_TYPE, claim_id)
                != ENVELOPE_TYPE_CLAIM {
                0
            } else {
                fld(self@, P_REMAINING, claim_id)
            }),
    {
        if !self.envelope_exists(claim_id) || self.env(P_TYPE, claim_id) != ENVELOPE_TYPE_CLAIM {
            return 0;
        }
        self.env(P_REMAINING, claim_id)
    }

    /// Whether `opener` already opened this spreading envelope.
    pub fn has_opened(&self, envelope_id: i64, opener: i64) -> (r: bool)
        requires
            self.wf(),
        ensures
            r == (rcpt(self@, P_OPENED_AMOUNT, envelope_id, opener) > 0),
    {
        self.get_rcpt(P_OPENED_AMOUNT, envelope_id, opener) > 0
    }

    /// The amount `opener` drew from this spreading envelope, `0` if none.
    pub fn get_opened_amount(&self, envelope_id: i64, opener: i64) -> (r: i64)
        requires
            self.wf(),
        ensures
            r == rcpt(self@, P_OPENED_AMOUNT, envelope_id, opener),
    {
        self.get_rcpt(P_OPENED_AMOUNT, envelope_id, opener)
    }

    /// Whether `claimer` already claimed from this pool.
    pub fn has_claimed_from_pool(&self, pool_id: i64, claimer: i64) -> (r: bool)
        requires
            self.wf(),
        ensures
            r == (rcpt(self@, P_POOL_CLAIMED, pool_id, claimer) > 0),
    {
        self.get_rcpt(P_POOL_CLAIMED, pool_id, claimer) > 0
    }

    /// The amount `claimer` drew from this pool, `0` if none.
    pub fn get_pool_claimed_amount(&self, pool_id: i64, claimer: i64) -> (r: i64)
        requires
            self.wf(),
        ensures
            r == rcpt(self@, P_POOL_CLAIMED, pool_id, claimer),
    {
        self.get_rcpt(P_POOL_CLAIMED, pool_id, claimer)
    }

    /// The smallest accepted deposit, exposed for calculation clients.
    pub fn get_calculation_constants() -> (r: i64)
        ensures
            r == MIN_AMOUNT,
    {
        MIN_AMOUNT
    }

    /// Number of distribution units created through the payment trigger.
    pub fn get_total_envelopes(&self) -> (r: i64)
        requires
            self.wf(),
        ensures
            r == meta_val(self@, K_TOTAL_ENVELOPES),
    {
        self.get_key_i64(K_TOTAL_ENVELOPES)
    }

    /// Sum of amounts deposited through the payment trigger.
    pub fn get_total_distributed(&self) -> (r: i64)
        requires
            self.wf(),
        ensures
            r == meta_val(self@, K_TOTAL_DISTRIBUTED),
    {
        self.get_key_i64(K_TOTAL_DISTRIBUTED)
    }

    /// The claim spawned by the `claim_index`-th successful pool claim.
    pub fn get_pool_claim_id_by_index(&self, pool_id: i64, claim_index: i64) -> (r: i64)
        requires
            self.wf(),
        ensures
            r == rcpt(self@, P_POOL_CLAIM_INDEX, pool_id, claim_index),
    {
        self.get_rcpt(P_POOL_CLAIM_INDEX, pool_id, claim_index)
    }
}

} // verus!
