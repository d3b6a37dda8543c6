//! Tuning constants, entity kind tags, eligibility codes and storage
//! category tags shared by the whole ledger.

use vstd::prelude::*;

verus! {

/// Smallest deposit that may fund a distribution unit.
pub const MIN_AMOUNT: i64 = 100_000_000;
/// Largest packet count a distribution unit may be created with.
pub const MAX_PACKETS: i64 = 100;
/// Floor below which no packet may be sized (except the final one, which
/// always takes whatever remains).
pub const MIN_PER_PACKET: i64 = 10_000_000;
/// Basis-point denominator.
pub const PERCENT_BASE: i64 = 10_000;
/// A single packet may never exceed this share of the whole unit.
pub const MAX_SINGLE_PACKET_BPS: i64 = 2_000;
/// A single packet may never exceed this multiple of the naive average.
pub const MAX_SINGLE_PACKET_AVG_BPS: i64 = 18_000;
/// Units with at least this many packets use the narrowest volatility band.
pub const DENSE_PACKET_THRESHOLD: i64 = 50;
/// Units with at least this many packets use the medium volatility band.
pub const MEDIUM_PACKET_THRESHOLD: i64 = 20;
pub const DENSE_VOLATILITY_LOW_BPS: i64 = 7_000;
pub const DENSE_VOLATILITY_HIGH_BPS: i64 = 13_000;
pub const MEDIUM_VOLATILITY_LOW_BPS: i64 = 5_000;
pub const MEDIUM_VOLATILITY_HIGH_BPS: i64 = 17_000;
pub const SPARSE_VOLATILITY_LOW_BPS: i64 = 3_000;
pub const SPARSE_VOLATILITY_HIGH_BPS: i64 = 23_000;
/// Expiry applied when an inbound payment carries no custom expiry.
pub const DEFAULT_EXPIRY_MS: i64 = 604_800_000;
/// Longest expiry a unit may be created with.
pub const MAX_EXPIRY_MS: i64 = 604_800_000;

/// Kind tag: a funded envelope opened once per distinct opener.
pub const ENVELOPE_TYPE_SPREADING: i64 = 0;
/// Kind tag: a funded pool from which distinct claimers each draw a packet.
pub const ENVELOPE_TYPE_POOL: i64 = 1;
/// Kind tag: a single-packet entity spawned by a pool claim.
pub const ENVELOPE_TYPE_CLAIM: i64 = 2;

/// Inbound-payment payload at or above this value uses the additive encoding.
pub const ON_NEP17_ADAPTER_BASE: i64 = 1_000_000_000_000;
/// Additive-encoding offset that selects the pool kind.
pub const ON_NEP17_ADAPTER_TYPE_MULTIPLIER: i64 = 1_000_000_000_000;
/// Additive-encoding multiplier that separates expiry digits from the count.
pub const ON_NEP17_ADAPTER_EXPIRY_MULTIPLIER: i64 = 1_000;
/// Legacy packed payload: `packetCount * 10 + kind`.
pub const ON_NEP17_LEGACY_PACK_BASE: i64 = 10;

/// Eligibility query outcome: the requested action is allowed.
pub const ELIGIBILITY_OK: i64 = 0;
pub const E_NOT_FOUND: i64 = 1;
pub const E_NOT_ACTIVE: i64 = 2;
pub const E_EXPIRED: i64 = 3;
pub const E_DEPLETED: i64 = 4;
pub const E_ALREADY_OPENED: i64 = 5;
pub const E_ALREADY_CLAIMED: i64 = 6;
pub const E_NOT_HOLDER: i64 = 7;
pub const E_INVALID_TYPE: i64 = 10;

/// Singleton (contract-wide) slots.
pub const K_OWNER: u8 = 0x01;
pub const K_NEXT_ID: u8 = 0x02;
pub const K_TOTAL_ENVELOPES: u8 = 0x03;
pub const K_TOTAL_DISTRIBUTED: u8 = 0x04;
pub const K_TIME_OVERRIDE: u8 = 0x05;
pub const K_TOTAL_SUPPLY: u8 = 0x06;
pub const K_PAUSED: u8 = 0x07;

/// Per-entity fields, keyed by entity id.
pub const P_CREATOR: u8 = 0x10;
pub const P_TOTAL: u8 = 0x11;
pub const P_PACKET: u8 = 0x12;
pub const P_TYPE: u8 = 0x13;
pub const P_PARENT: u8 = 0x14;
pub const P_OPENED: u8 = 0x15;
pub const P_REMAINING: u8 = 0x16;
pub const P_ACTIVE: u8 = 0x17;
pub const P_EXPIRY: u8 = 0x18;

/// Ownership and receipt records, keyed by token id or (entity, account).
pub const P_TOKEN_OWNER: u8 = 0x20;
pub const P_OPENED_AMOUNT: u8 = 0x21;
pub const P_POOL_CLAIMED: u8 = 0x22;
pub const P_POOL_CLAIM_INDEX: u8 = 0x23;
pub const P_OWNER_BALANCE: u8 = 0x24;

/// Raw key of the probe slot that no operation ever writes; reading it
/// yields the store's "absent" representation for comparison.
pub const NULL_PROBE_KEY: i64 = -9_223_372_036_854_775_000i64;

} // verus!
