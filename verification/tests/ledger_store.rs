//! Tests of the ledger accessors, the absent-vs-zero discipline, the
//! hashed raw-key derivation, and the administrative surface.

use red_envelope::addressing::{k2, k3, key, mix64, positive_key};
use red_envelope::constants::{
    K_OWNER, K_PAUSED, K_TIME_OVERRIDE, P_OPENED, P_OWNER_BALANCE, P_TOKEN_OWNER,
};
use red_envelope::store::Ledger;

#[test]
fn get_on_never_written_key_is_zero() {
    let ledger = Ledger::new();
    assert_eq!(ledger.get_key_i64(K_OWNER), 0);
    assert_eq!(ledger.env(P_OPENED, 42), 0);
}

#[test]
fn stored_zero_reads_back_as_zero() {
    let mut ledger = Ledger::new();
    ledger.put_key_i64(K_OWNER, 0);
    assert_eq!(ledger.get_key_i64(K_OWNER), 0);
    ledger.set_env(P_OPENED, 42, 0);
    assert_eq!(ledger.env(P_OPENED, 42), 0);
}

#[test]
fn negative_values_are_not_corrupted() {
    let mut ledger = Ledger::new();
    ledger.put_key_i64(K_OWNER, -1);
    assert_eq!(ledger.get_key_i64(K_OWNER), -1);
    ledger.set_env(P_OPENED, 7, i64::MIN);
    assert_eq!(ledger.env(P_OPENED, 7), i64::MIN);
}

#[test]
fn later_writes_shadow_earlier_ones() {
    let mut ledger = Ledger::new();
    ledger.set_env(P_OPENED, 1, 10);
    ledger.set_env(P_OPENED, 1, 20);
    assert_eq!(ledger.env(P_OPENED, 1), 20);
    assert_eq!(ledger.env(P_OPENED, 2), 0);
}

#[test]
fn alloc_id_is_monotonic() {
    let mut ledger = Ledger::new();
    assert_eq!(ledger.alloc_id(), 1);
    assert_eq!(ledger.alloc_id(), 2);
    assert_eq!(ledger.alloc_id(), 3);
}

#[test]
fn stored_time_override_beats_host_clock() {
    let mut ledger = Ledger::new();
    ledger.set_clock(1_000);
    assert_eq!(ledger.now_ms(), 1_000);
    ledger.put_key_i64(K_TIME_OVERRIDE, 77);
    assert_eq!(ledger.now_ms(), 77);
    ledger.put_key_i64(K_TIME_OVERRIDE, 0);
    assert_eq!(ledger.now_ms(), 1_000);
}

#[test]
fn entropy_word_is_sign_folded() {
    let mut ledger = Ledger::new();
    ledger.set_entropy(0);
    assert_eq!(ledger.runtime_entropy(), 1);
    ledger.set_entropy(-9);
    assert_eq!(ledger.runtime_entropy(), 9);
    ledger.set_entropy(i64::MIN);
    assert_eq!(ledger.runtime_entropy(), i64::MAX);
    ledger.set_entropy(5);
    assert_eq!(ledger.runtime_entropy(), 5);
}

#[test]
fn pause_resume_toggle_the_flag() {
    let mut ledger = Ledger::new();
    assert!(!ledger.is_paused());
    ledger.pause();
    assert!(ledger.is_paused());
    assert!(ledger.is_paused_flag());
    ledger.resume();
    assert!(!ledger.is_paused());
}

#[test]
fn owner_administration() {
    let mut ledger = Ledger::new();
    assert!(!ledger.is_owner());
    ledger.set_owner(0);
    assert_eq!(ledger.get_owner(), 0);
    ledger.set_owner(99);
    assert_eq!(ledger.get_owner(), 99);
    assert!(ledger.is_owner());
}

#[test]
fn deploy_initializes_singletons() {
    let mut ledger = Ledger::new();
    ledger.set_env(P_OPENED, 5, 3);
    ledger.contract_deploy(1234, false);
    assert_eq!(ledger.get_owner(), 1234);
    assert_eq!(ledger.get_total_envelopes(), 0);
    assert_eq!(ledger.get_total_distributed(), 0);
    assert_eq!(ledger.total_supply(), 0);
    assert!(!ledger.is_paused());
    // An update only backfills a missing owner.
    ledger.contract_deploy(5678, true);
    assert_eq!(ledger.get_owner(), 1234);
    ledger.put_key_i64(K_OWNER, 0);
    ledger.contract_deploy(5678, true);
    assert_eq!(ledger.get_owner(), 5678);
    let _ = ledger.get_key_i64(K_PAUSED);
}

#[test]
fn mint_and_transfer_update_ownership_ledger() {
    let mut ledger = Ledger::new();
    ledger.mint_token(1, 100);
    assert_eq!(ledger.owner_of(1), 100);
    assert_eq!(ledger.balance_of(100), 1);
    assert_eq!(ledger.total_supply(), 1);
    assert!(ledger.token_exists(1));
    assert!(!ledger.token_exists(2));

    assert!(!ledger.transfer_token(1, 0, 200));
    assert!(!ledger.transfer_token(1, 100, 0));
    assert!(!ledger.transfer_token(1, 999, 200));
    assert!(ledger.transfer_token(1, 100, 200));
    assert_eq!(ledger.owner_of(1), 200);
    assert_eq!(ledger.balance_of(100), 0);
    assert_eq!(ledger.balance_of(200), 1);
    // The record persists after transfer-away; balances never go negative.
    assert!(ledger.transfer_token(1, 200, 100));
    assert_eq!(ledger.balance_of(200), 0);
    assert_eq!(ledger.env(P_OWNER_BALANCE, 200), 0);
    assert_eq!(ledger.env(P_TOKEN_OWNER, 1), 100);
}

#[test]
fn derived_keys_avoid_the_absent_sentinel() {
    for prefix in [0x01u8, 0x10, 0x20, 0xff] {
        for id in [i64::MIN, -1, 0, 1, 42, i64::MAX] {
            assert!(k2(prefix, id) >= 1);
            assert!(k3(prefix, id, -id) >= 1);
        }
    }
    assert_eq!(positive_key(0), 1);
    assert_eq!(positive_key(7), 7);
    assert_eq!(key(0x24), 0x24);
}

#[test]
fn derived_keys_are_deterministic() {
    assert_eq!(mix64(12345), mix64(12345));
    assert_eq!(k2(0x10, 7), k2(0x10, 7));
    assert_eq!(k3(0x22, 7, 9), k3(0x22, 7, 9));
    // The avalanche mix separates nearby tuples in practice.
    assert_ne!(k2(0x10, 7), k2(0x11, 7));
    assert_ne!(k2(0x10, 7), k2(0x10, 8));
    assert_ne!(k3(0x22, 7, 9), k3(0x22, 9, 7));
}

#[test]
fn nep11_constants() {
    let ledger = Ledger::new();
    assert_eq!(Ledger::symbol(), 1);
    assert_eq!(Ledger::decimals(), 0);
    assert_eq!(Ledger::get_calculation_constants(), 100_000_000);
    assert_eq!(ledger.tokens(), 0);
    assert_eq!(ledger.tokens_of(5), 0);
    assert_eq!(ledger.balance_of(0), 0);
    assert_eq!(ledger.token_uri(3), 0);
    assert_eq!(ledger.properties(3), 0);
}
