//! A verified red-envelope distribution ledger.
//!
//! A fixed deposited amount is split into a bounded number of packets that
//! are opened over time by distinct claimants.  Three entity kinds share one
//! schema: a `Spreading` envelope (opened once per distinct opener), a `Pool`
//! (each distinct claimer draws one packet, spawning a `Claim`), and a
//! `Claim` (a single-packet token opened exactly once by its owner).  All
//! state lives in a key-value ledger; the host's clock and entropy are
//! injected as plain values so every operation is a deterministic function
//! of the stored state and those inputs.

pub mod addressing;
pub mod constants;
pub mod history;
pub mod laws;
pub mod lifecycle;
pub mod packet;
pub mod queries;
pub mod store;
