//! The swap lifecycle: opening, completing, refunding, the administrative
//! paths, and every rejection the engine can produce.

use atomic_swap::contract::{
    execute_complete_swap, execute_emergency_refund, execute_initiate_swap, execute_refund_swap,
    execute_update_config, instantiate, migrate, query_swap, DEFAULT_MAX_TIMELOCK_DURATION,
    DEFAULT_MIN_TIMELOCK_DURATION, DEFAULT_MINIMUM_SAFETY_DEPOSIT,
};
use atomic_swap::error::ContractError;
use atomic_swap::msg::{InstantiateMsg, MigrateMsg};
use atomic_swap::state::{Coin, Htlc, SwapState};
use sha2::Digest;

const NOW: u64 = 1_700_000_000;
const HEIGHT: u64 = 12345;

fn sha_hex(secret: &str) -> String {
    hex::encode(sha2::Sha256::digest(secret.as_bytes()))
}

fn coin(denom: &str, amount: u128) -> Coin {
    Coin { denom: denom.to_string(), amount }
}

fn fresh_engine(sender: &str) -> Htlc {
    let msg = InstantiateMsg {
        admin: None,
        minimum_safety_deposit: None,
        min_timelock_duration: None,
        max_timelock_duration: None,
    };
    instantiate(&sender.to_string(), msg)
}

fn open_swap(h: &mut Htlc, initiator: &str, participant: &str, hashlock: &str) -> String {
    let funds = vec![coin("ujuno", DEFAULT_MINIMUM_SAFETY_DEPOSIT)];
    let r = execute_initiate_swap(
        h,
        NOW,
        HEIGHT,
        &initiator.to_string(),
        &funds,
        participant.to_string(),
        coin("ujuno", 1000),
        hashlock.to_string(),
        NOW + 7200,
        "0xabc".to_string(),
        "1".to_string(),
    );
    r.expect("initiate should succeed").swap_id.expect("initiate reports the id")
}

#[test]
fn instantiate_uses_defaults() {
    let h = fresh_engine("alice");
    assert_eq!(h.config.admin, "alice");
    assert_eq!(h.config.minimum_safety_deposit, DEFAULT_MINIMUM_SAFETY_DEPOSIT);
    assert_eq!(h.config.min_timelock_duration, DEFAULT_MIN_TIMELOCK_DURATION);
    assert_eq!(h.config.max_timelock_duration, DEFAULT_MAX_TIMELOCK_DURATION);
    assert_eq!(DEFAULT_MIN_TIMELOCK_DURATION, 3600);
    assert_eq!(DEFAULT_MAX_TIMELOCK_DURATION, 604800);
    assert!(!h.config.paused);
    assert_eq!(h.swaps.len(), 0);
    assert_eq!(h.stats.total_swaps, 0);
}

#[test]
fn instantiate_takes_overrides() {
    let msg = InstantiateMsg {
        admin: Some("carol".to_string()),
        minimum_safety_deposit: Some(5),
        min_timelock_duration: Some(60),
        max_timelock_duration: Some(600),
    };
    let h = instantiate(&"alice".to_string(), msg);
    assert_eq!(h.config.admin, "carol");
    assert_eq!(h.config.minimum_safety_deposit, 5);
    assert_eq!(h.config.min_timelock_duration, 60);
    assert_eq!(h.config.max_timelock_duration, 600);
}

#[test]
fn initiate_then_complete_then_double_complete() {
    let mut h = fresh_engine("alice");
    let hashlock = sha_hex("secret1");
    let id = open_swap(&mut h, "alice", "bob", &hashlock);
    assert_eq!(id.len(), 64);
    assert!(id.chars().all(|c| c.is_ascii_hexdigit()));

    let r = execute_complete_swap(
        &mut h,
        NOW + 100,
        &"bob".to_string(),
        id.clone(),
        "secret1".to_string(),
    )
    .expect("complete with the right secret succeeds");
    assert_eq!(r.messages.len(), 2);
    assert_eq!(r.messages[0].to_address, "bob");
    assert_eq!(r.messages[0].denom, "ujuno");
    assert_eq!(r.messages[0].amount, 1000);
    assert_eq!(r.messages[1].to_address, "alice");
    assert_eq!(r.messages[1].amount, DEFAULT_MINIMUM_SAFETY_DEPOSIT);

    let stored = query_swap(&h, id.clone()).expect("the record is kept");
    assert!(matches!(stored.state, SwapState::Completed));
    assert_eq!(stored.secret, Some("secret1".to_string()));
    assert_eq!(stored.completed_at, Some(NOW + 100));

    let again = execute_complete_swap(
        &mut h,
        NOW + 200,
        &"bob".to_string(),
        id,
        "secret1".to_string(),
    );
    assert_eq!(again.unwrap_err(), ContractError::SwapAlreadyCompleted {});
}

#[test]
fn initiate_rejects_short_timelock() {
    let mut h = fresh_engine("alice");
    let funds = vec![coin("ujuno", DEFAULT_MINIMUM_SAFETY_DEPOSIT)];
    let r = execute_initiate_swap(
        &mut h,
        NOW,
        HEIGHT,
        &"alice".to_string(),
        &funds,
        "bob".to_string(),
        coin("ujuno", 1000),
        sha_hex("secret1"),
        NOW + 100,
        String::new(),
        String::new(),
    );
    assert_eq!(
        r.unwrap_err(),
        ContractError::InvalidTimelock { min: 3600, max: 604800 }
    );
    assert_eq!(h.swaps.len(), 0);
    assert_eq!(h.stats.total_swaps, 0);
}

#[test]
fn initiate_rejects_far_timelock() {
    let mut h = fresh_engine("alice");
    let funds = vec![coin("ujuno", DEFAULT_MINIMUM_SAFETY_DEPOSIT)];
    let r = execute_initiate_swap(
        &mut h,
        NOW,
        HEIGHT,
        &"alice".to_string(),
        &funds,
        "bob".to_string(),
        coin("ujuno", 1000),
        sha_hex("secret1"),
        NOW + DEFAULT_MAX_TIMELOCK_DURATION,
        String::new(),
        String::new(),
    );
    assert!(matches!(r, Err(ContractError::InvalidTimelock { .. })));
}

#[test]
fn initiate_rejects_zero_amount() {
    let mut h = fresh_engine("alice");
    let funds = vec![coin("ujuno", DEFAULT_MINIMUM_SAFETY_DEPOSIT)];
    let r = execute_initiate_swap(
        &mut h,
        NOW,
        HEIGHT,
        &"alice".to_string(),
        &funds,
        "bob".to_string(),
        coin("ujuno", 0),
        sha_hex("secret1"),
        NOW + 7200,
        String::new(),
        String::new(),
    );
    assert_eq!(r.unwrap_err(), ContractError::InvalidAmount {});
}

#[test]
fn initiate_rejects_malformed_hashlock() {
    let mut h = fresh_engine("alice");
    let funds = vec![coin("ujuno", DEFAULT_MINIMUM_SAFETY_DEPOSIT)];
    for bad in ["abc", "zz", &sha_hex("x")[..63], &format!("{}0", sha_hex("x"))] {
        let r = execute_initiate_swap(
            &mut h,
            NOW,
            HEIGHT,
            &"alice".to_string(),
            &funds,
            "bob".to_string(),
            coin("ujuno", 1000),
            bad.to_string(),
            NOW + 7200,
            String::new(),
            String::new(),
        );
        assert_eq!(r.unwrap_err(), ContractError::InvalidHashlock {});
    }
}

#[test]
fn initiate_rejects_low_deposit() {
    let mut h = fresh_engine("alice");
    // Too little in the swap denomination.
    let r = execute_initiate_swap(
        &mut h,
        NOW,
        HEIGHT,
        &"alice".to_string(),
        &vec![coin("ujuno", DEFAULT_MINIMUM_SAFETY_DEPOSIT - 1)],
        "bob".to_string(),
        coin("ujuno", 1000),
        sha_hex("secret1"),
        NOW + 7200,
        String::new(),
        String::new(),
    );
    assert_eq!(
        r.unwrap_err(),
        ContractError::SafetyDepositTooLow { minimum: DEFAULT_MINIMUM_SAFETY_DEPOSIT }
    );
    // Enough attached, but in the wrong denomination.
    let r = execute_initiate_swap(
        &mut h,
        NOW,
        HEIGHT,
        &"alice".to_string(),
        &vec![coin("uatom", DEFAULT_MINIMUM_SAFETY_DEPOSIT * 2)],
        "bob".to_string(),
        coin("ujuno", 1000),
        sha_hex("secret1"),
        NOW + 7200,
        String::new(),
        String::new(),
    );
    assert!(matches!(r, Err(ContractError::SafetyDepositTooLow { .. })));
}

#[test]
fn initiate_rejects_duplicate_parameters() {
    let mut h = fresh_engine("alice");
    let hashlock = sha_hex("secret1");
    let id = open_swap(&mut h, "alice", "bob", &hashlock);
    let funds = vec![coin("ujuno", DEFAULT_MINIMUM_SAFETY_DEPOSIT)];
    let r = execute_initiate_swap(
        &mut h,
        NOW,
        HEIGHT,
        &"alice".to_string(),
        &funds,
        "bob".to_string(),
        coin("ujuno", 1000),
        hashlock,
        NOW + 7200,
        "0xabc".to_string(),
        "1".to_string(),
    );
    assert_eq!(r.unwrap_err(), ContractError::SwapAlreadyExists { swap_id: id });
}

#[test]
fn complete_requires_participant() {
    let mut h = fresh_engine("alice");
    let id = open_swap(&mut h, "alice", "bob", &sha_hex("secret1"));
    // Even the right secret does not help the wrong caller.
    let r = execute_complete_swap(
        &mut h,
        NOW + 100,
        &"mallory".to_string(),
        id.clone(),
        "secret1".to_string(),
    );
    assert_eq!(r.unwrap_err(), ContractError::OnlyParticipant {});
    let r = execute_complete_swap(
        &mut h,
        NOW + 100,
        &"alice".to_string(),
        id,
        "secret1".to_string(),
    );
    assert_eq!(r.unwrap_err(), ContractError::OnlyParticipant {});
}

#[test]
fn complete_rejects_unknown_swap() {
    let mut h = fresh_engine("alice");
    let id = "ab".repeat(32);
    let r = execute_complete_swap(
        &mut h,
        NOW,
        &"bob".to_string(),
        id.clone(),
        "secret1".to_string(),
    );
    assert_eq!(r.unwrap_err(), ContractError::SwapNotFound { swap_id: id });
}

#[test]
fn complete_timelock_boundary() {
    let expiry = NOW + 7200;
    // At the timelock: expired.
    let mut h = fresh_engine("alice");
    let id = open_swap(&mut h, "alice", "bob", &sha_hex("secret1"));
    let r = execute_complete_swap(&mut h, expiry, &"bob".to_string(), id, "secret1".to_string());
    assert_eq!(
        r.unwrap_err(),
        ContractError::SwapExpired { current_time: expiry, expiry }
    );
    // One second earlier: succeeds.
    let mut h = fresh_engine("alice");
    let id = open_swap(&mut h, "alice", "bob", &sha_hex("secret1"));
    let r = execute_complete_swap(
        &mut h,
        expiry - 1,
        &"bob".to_string(),
        id,
        "secret1".to_string(),
    );
    assert!(r.is_ok());
}

#[test]
fn complete_rejects_wrong_secret() {
    let mut h = fresh_engine("alice");
    let hashlock = sha_hex("secret1");
    let id = open_swap(&mut h, "alice", "bob", &hashlock);
    let r = execute_complete_swap(
        &mut h,
        NOW + 100,
        &"bob".to_string(),
        id,
        "secret2".to_string(),
    );
    assert_eq!(
        r.unwrap_err(),
        ContractError::InvalidSecret { expected: hashlock, actual: sha_hex("secret2") }
    );
}

#[test]
fn complete_accepts_uppercase_hashlock() {
    let mut h = fresh_engine("alice");
    let hashlock = sha_hex("secret1").to_uppercase();
    let id = open_swap(&mut h, "alice", "bob", &hashlock);
    let r = execute_complete_swap(
        &mut h,
        NOW + 100,
        &"bob".to_string(),
        id,
        "secret1".to_string(),
    );
    assert!(r.is_ok());
}

#[test]
fn refund_flow_and_double_refund() {
    let expiry = NOW + 7200;
    let mut h = fresh_engine("alice");
    let id = open_swap(&mut h, "alice", "bob", &sha_hex("secret1"));
    // Too early, even one second before.
    let r = execute_refund_swap(&mut h, expiry - 1, &"alice".to_string(), id.clone());
    assert_eq!(
        r.unwrap_err(),
        ContractError::SwapNotExpired { current_time: expiry - 1, expiry }
    );
    // The wrong caller never refunds.
    let r = execute_refund_swap(&mut h, expiry, &"bob".to_string(), id.clone());
    assert_eq!(r.unwrap_err(), ContractError::OnlyInitiator {});
    // At the timelock the initiator gets both payouts.
    let r = execute_refund_swap(&mut h, expiry, &"alice".to_string(), id.clone()).unwrap();
    assert_eq!(r.messages.len(), 2);
    assert_eq!(r.messages[0].to_address, "alice");
    assert_eq!(r.messages[0].amount, 1000);
    assert_eq!(r.messages[1].to_address, "alice");
    assert_eq!(r.messages[1].amount, DEFAULT_MINIMUM_SAFETY_DEPOSIT);
    let stored = query_swap(&h, id.clone()).unwrap();
    assert!(matches!(stored.state, SwapState::Refunded));
    // Never twice.
    let r = execute_refund_swap(&mut h, expiry + 1, &"alice".to_string(), id.clone());
    assert_eq!(r.unwrap_err(), ContractError::SwapAlreadyRefunded {});
    // Nor completed afterwards.
    let r = execute_complete_swap(
        &mut h,
        expiry + 1,
        &"bob".to_string(),
        id,
        "secret1".to_string(),
    );
    assert_eq!(r.unwrap_err(), ContractError::SwapAlreadyRefunded {});
}

#[test]
fn pause_blocks_ordinary_operations() {
    let mut h = fresh_engine("alice");
    let id = open_swap(&mut h, "alice", "bob", &sha_hex("secret1"));
    execute_update_config(
        &mut h,
        &"alice".to_string(),
        None,
        None,
        None,
        None,
        Some(true),
    )
    .unwrap();
    let funds = vec![coin("ujuno", DEFAULT_MINIMUM_SAFETY_DEPOSIT)];
    let r = execute_initiate_swap(
        &mut h,
        NOW,
        HEIGHT,
        &"alice".to_string(),
        &funds,
        "bob".to_string(),
        coin("ujuno", 1000),
        sha_hex("secret2"),
        NOW + 7200,
        String::new(),
        String::new(),
    );
    assert_eq!(r.unwrap_err(), ContractError::ContractPaused {});
    let r = execute_complete_swap(
        &mut h,
        NOW + 100,
        &"bob".to_string(),
        id.clone(),
        "secret1".to_string(),
    );
    assert_eq!(r.unwrap_err(), ContractError::ContractPaused {});
    let r = execute_refund_swap(&mut h, NOW + 7200, &"alice".to_string(), id);
    assert_eq!(r.unwrap_err(), ContractError::ContractPaused {});
}

#[test]
fn emergency_refund_overrides_pause_and_timelock() {
    let mut h = fresh_engine("alice");
    let id = open_swap(&mut h, "alice", "bob", &sha_hex("secret1"));
    execute_update_config(
        &mut h,
        &"alice".to_string(),
        None,
        None,
        None,
        None,
        Some(true),
    )
    .unwrap();
    // A non-admin is turned away.
    let r = execute_emergency_refund(&mut h, NOW + 1, &"bob".to_string(), id.clone());
    assert_eq!(r.unwrap_err(), ContractError::Unauthorized {});
    // The admin succeeds while paused and long before the timelock.
    let r = execute_emergency_refund(&mut h, NOW + 1, &"alice".to_string(), id.clone()).unwrap();
    assert_eq!(r.messages.len(), 2);
    assert_eq!(r.messages[0].to_address, "alice");
    let stored = query_swap(&h, id.clone()).unwrap();
    assert!(matches!(stored.state, SwapState::Refunded));
    // And never twice.
    let r = execute_emergency_refund(&mut h, NOW + 2, &"alice".to_string(), id);
    assert_eq!(r.unwrap_err(), ContractError::SwapAlreadyRefunded {});
}

#[test]
fn update_config_is_admin_only_and_partial() {
    let mut h = fresh_engine("alice");
    let r = execute_update_config(
        &mut h,
        &"bob".to_string(),
        None,
        Some(1),
        None,
        None,
        None,
    );
    assert_eq!(r.unwrap_err(), ContractError::Unauthorized {});
    execute_update_config(
        &mut h,
        &"alice".to_string(),
        Some("carol".to_string()),
        Some(7),
        Some(10),
        None,
        None,
    )
    .unwrap();
    assert_eq!(h.config.admin, "carol");
    assert_eq!(h.config.minimum_safety_deposit, 7);
    assert_eq!(h.config.min_timelock_duration, 10);
    assert_eq!(h.config.max_timelock_duration, DEFAULT_MAX_TIMELOCK_DURATION);
    // The old admin lost the role; the new one holds it.
    let r = execute_update_config(&mut h, &"alice".to_string(), None, None, None, None, None);
    assert_eq!(r.unwrap_err(), ContractError::Unauthorized {});
    assert!(execute_update_config(&mut h, &"carol".to_string(), None, None, None, None, None)
        .is_ok());
}

#[test]
fn migrate_is_a_no_op() {
    let r = migrate(MigrateMsg {});
    assert_eq!(r.messages.len(), 0);
    assert!(r.swap_id.is_none());
}

#[test]
fn hashlock_with_non_ascii_characters_is_malformed() {
    let mut h = fresh_engine("alice");
    let funds = vec![coin("ujuno", DEFAULT_MINIMUM_SAFETY_DEPOSIT)];
    // 64 characters, but one of them is not a hex digit.
    let mut bad = sha_hex("x");
    bad.replace_range(0..1, "Ω");
    let r = execute_initiate_swap(
        &mut h,
        NOW,
        HEIGHT,
        &"alice".to_string(),
        &funds,
        "bob".to_string(),
        coin("ujuno", 1000),
        bad,
        NOW + 7200,
        String::new(),
        String::new(),
    );
    assert_eq!(r.unwrap_err(), ContractError::InvalidHashlock {});
}

#[test]
fn secret_may_contain_non_ascii_text() {
    let mut h = fresh_engine("alice");
    let secret = "päßwörd✓";
    let hashlock = sha_hex(secret);
    let id = open_swap(&mut h, "alice", "bob", &hashlock);
    let r = execute_complete_swap(
        &mut h,
        NOW + 100,
        &"bob".to_string(),
        id,
        secret.to_string(),
    );
    assert!(r.is_ok());
}
