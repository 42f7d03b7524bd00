//! Queries, statistics, pagination, identifier derivation, and the two
//! dispatchers.

use atomic_swap::contract::{
    execute, execute_complete_swap, execute_emergency_refund, execute_initiate_swap,
    execute_refund_swap, instantiate,
    query, query_config, query_swap, query_swap_stats, query_swaps_by_hashlock,
    query_swaps_by_initiator, query_swaps_by_participant, DEFAULT_MINIMUM_SAFETY_DEPOSIT,
};
use atomic_swap::crypto::verify_secret;
use atomic_swap::error::ContractError;
use atomic_swap::ids::generate_swap_id;
use atomic_swap::msg::{ExecuteMsg, InstantiateMsg, QueryAnswer, QueryMsg};
use atomic_swap::state::{Coin, Htlc};
use sha2::Digest;

const NOW: u64 = 1_700_000_000;

fn sha_hex(secret: &str) -> String {
    hex::encode(sha2::Sha256::digest(secret.as_bytes()))
}

fn coin(denom: &str, amount: u128) -> Coin {
    Coin { denom: denom.to_string(), amount }
}

fn fresh_engine(sender: &str) -> Htlc {
    let msg = InstantiateMsg {
        admin: None,
        minimum_safety_deposit: None,
        min_timelock_duration: None,
        max_timelock_duration: None,
    };
    instantiate(&sender.to_string(), msg)
}

fn open_swap_at(
    h: &mut Htlc,
    height: u64,
    initiator: &str,
    participant: &str,
    amount: Coin,
    hashlock: &str,
) -> String {
    let funds = vec![coin(&amount.denom.clone(), DEFAULT_MINIMUM_SAFETY_DEPOSIT)];
    let r = execute_initiate_swap(
        h,
        NOW,
        height,
        &initiator.to_string(),
        &funds,
        participant.to_string(),
        amount,
        hashlock.to_string(),
        NOW + 7200,
        String::new(),
        String::new(),
    );
    r.expect("initiate should succeed").swap_id.unwrap()
}

#[test]
fn swap_id_matches_a_recomputed_digest() {
    let hashlock = sha_hex("secret1");
    let id = generate_swap_id("alice", "bob", &hashlock, NOW + 7200, 42);
    let mut preimage: Vec<u8> = Vec::new();
    preimage.extend_from_slice("alice".as_bytes());
    preimage.extend_from_slice("bob".as_bytes());
    preimage.extend_from_slice(hashlock.as_bytes());
    preimage.extend_from_slice(&(NOW + 7200u64).to_be_bytes());
    preimage.extend_from_slice(&42u64.to_be_bytes());
    let expected = hex::encode(sha2::Sha256::digest(&preimage));
    assert_eq!(id, expected);
}

#[test]
fn swap_id_is_deterministic_and_input_sensitive() {
    let hashlock = sha_hex("secret1");
    let a = generate_swap_id("alice", "bob", &hashlock, 1000, 1);
    let b = generate_swap_id("alice", "bob", &hashlock, 1000, 1);
    assert_eq!(a, b);
    assert_ne!(a, generate_swap_id("alicia", "bob", &hashlock, 1000, 1));
    assert_ne!(a, generate_swap_id("alice", "bobby", &hashlock, 1000, 1));
    assert_ne!(a, generate_swap_id("alice", "bob", &sha_hex("secret2"), 1000, 1));
    assert_ne!(a, generate_swap_id("alice", "bob", &hashlock, 1001, 1));
    assert_ne!(a, generate_swap_id("alice", "bob", &hashlock, 1000, 2));
}

#[test]
fn verify_secret_checks_the_digest() {
    let hashlock = sha_hex("opensesame");
    assert!(verify_secret(&hashlock, "opensesame"));
    assert!(verify_secret(&hashlock.to_uppercase(), "opensesame"));
    assert!(!verify_secret(&hashlock, "wrong"));
    assert!(!verify_secret(&hashlock, ""));
}

#[test]
fn volume_accounts_per_denomination() {
    let mut h = fresh_engine("alice");
    let ida = open_swap_at(&mut h, 1, "alice", "bob", coin("denomA", 100), &sha_hex("s1"));
    open_swap_at(&mut h, 2, "alice", "bob", coin("denomA", 50), &sha_hex("s2"));
    let idb = open_swap_at(&mut h, 3, "carol", "bob", coin("denomB", 10), &sha_hex("s3"));

    let stats = query_swap_stats(&h);
    assert_eq!(stats.total_swaps, 3);
    assert_eq!(stats.active_swaps, 3);
    let volume_of = |st: &atomic_swap::msg::SwapStatsResponse, d: &str| {
        st.total_volume.iter().find(|c| c.denom == d).map(|c| c.amount)
    };
    assert_eq!(volume_of(&stats, "denomA"), Some(150));
    assert_eq!(volume_of(&stats, "denomB"), Some(10));
    assert_eq!(stats.total_volume.len(), 2);

    // Settling swaps never changes the recorded volume.
    execute_complete_swap(&mut h, NOW + 10, &"bob".to_string(), ida, "s1".to_string()).unwrap();
    execute_refund_swap(&mut h, NOW + 7200, &"carol".to_string(), idb).unwrap();
    let stats = query_swap_stats(&h);
    assert_eq!(stats.total_swaps, 3);
    assert_eq!(stats.completed_swaps, 1);
    assert_eq!(stats.refunded_swaps, 1);
    assert_eq!(stats.active_swaps, 1);
    assert_eq!(volume_of(&stats, "denomA"), Some(150));
    assert_eq!(volume_of(&stats, "denomB"), Some(10));
}

#[test]
fn listings_partition_the_ledger_and_page() {
    let mut h = fresh_engine("admin");
    let mut alice_ids: Vec<String> = Vec::new();
    let mut carol_ids: Vec<String> = Vec::new();
    for k in 0..5u64 {
        alice_ids.push(open_swap_at(
            &mut h,
            k,
            "alice",
            "bob",
            coin("ujuno", 100 + k as u128),
            &sha_hex(&format!("a{}", k)),
        ));
        carol_ids.push(open_swap_at(
            &mut h,
            k,
            "carol",
            "dave",
            coin("ujuno", 200 + k as u128),
            &sha_hex(&format!("c{}", k)),
        ));
    }
    alice_ids.sort();
    carol_ids.sort();

    let listed = query_swaps_by_initiator(&h, "alice".to_string(), None, None);
    let listed_ids: Vec<String> = listed.swaps.iter().map(|s| s.swap_id.clone()).collect();
    assert_eq!(listed_ids, alice_ids);
    for s in &listed.swaps {
        assert_eq!(s.initiator, "alice");
    }

    let listed = query_swaps_by_initiator(&h, "carol".to_string(), None, None);
    let listed_ids: Vec<String> = listed.swaps.iter().map(|s| s.swap_id.clone()).collect();
    assert_eq!(listed_ids, carol_ids);

    // The two listings together cover the whole ledger.
    assert_eq!(alice_ids.len() + carol_ids.len(), h.swaps.len());

    // Paging: limit, then resume with an exclusive cursor.
    let page1 = query_swaps_by_initiator(&h, "alice".to_string(), None, Some(2));
    assert_eq!(page1.swaps.len(), 2);
    assert_eq!(page1.swaps[0].swap_id, alice_ids[0]);
    assert_eq!(page1.swaps[1].swap_id, alice_ids[1]);
    let cursor = page1.swaps[1].swap_id.clone();
    let page2 = query_swaps_by_initiator(&h, "alice".to_string(), Some(cursor), Some(2));
    assert_eq!(page2.swaps.len(), 2);
    assert_eq!(page2.swaps[0].swap_id, alice_ids[2]);
    assert_eq!(page2.swaps[1].swap_id, alice_ids[3]);

    // The default page size is ten, the cap thirty.
    let deflt = query_swaps_by_initiator(&h, "alice".to_string(), None, None);
    assert_eq!(deflt.swaps.len(), 5);
    let capped = query_swaps_by_initiator(&h, "alice".to_string(), None, Some(1000));
    assert_eq!(capped.swaps.len(), 5);

    // By participant and by hashlock.
    let by_part = query_swaps_by_participant(&h, "dave".to_string(), None, None);
    let by_part_ids: Vec<String> = by_part.swaps.iter().map(|s| s.swap_id.clone()).collect();
    assert_eq!(by_part_ids, carol_ids);
    let hl = sha_hex("a0");
    let by_hl = query_swaps_by_hashlock(&h, hl.clone(), None, None);
    assert_eq!(by_hl.swaps.len(), 1);
    assert_eq!(by_hl.swaps[0].hashlock, hl);
    assert_eq!(by_hl.swaps[0].swap_id, alice_ids.iter().find(|i| **i == by_hl.swaps[0].swap_id).unwrap().clone());

    // An unknown key lists nothing.
    let none = query_swaps_by_initiator(&h, "nobody".to_string(), None, None);
    assert_eq!(none.swaps.len(), 0);
}

#[test]
fn default_page_size_is_ten() {
    let mut h = fresh_engine("admin");
    for k in 0..12u64 {
        open_swap_at(&mut h, k, "alice", "bob", coin("ujuno", 1 + k as u128), &sha_hex(&format!("s{}", k)));
    }
    let deflt = query_swaps_by_initiator(&h, "alice".to_string(), None, None);
    assert_eq!(deflt.swaps.len(), 10);
    let all = query_swaps_by_initiator(&h, "alice".to_string(), None, Some(30));
    assert_eq!(all.swaps.len(), 12);
    // The listing comes out in ascending identifier order.
    for w in all.swaps.windows(2) {
        assert!(w[0].swap_id < w[1].swap_id);
    }
}

#[test]
fn query_swap_reports_the_record_or_not_found() {
    let mut h = fresh_engine("alice");
    let id = open_swap_at(&mut h, 7, "alice", "bob", coin("ujuno", 555), &sha_hex("s"));
    let s = query_swap(&h, id.clone()).unwrap();
    assert_eq!(s.swap_id, id);
    assert_eq!(s.initiator, "alice");
    assert_eq!(s.participant, "bob");
    assert_eq!(s.amount.amount, 555);
    assert_eq!(s.created_at, NOW);
    assert_eq!(s.completed_at, None);
    assert!(s.secret.is_none());
    let missing = "cd".repeat(32);
    let r = query_swap(&h, missing.clone());
    assert_eq!(r.unwrap_err(), ContractError::SwapNotFound { swap_id: missing });
}

#[test]
fn dispatchers_route_commands_and_requests() {
    let mut h = fresh_engine("alice");
    let funds = vec![coin("ujuno", DEFAULT_MINIMUM_SAFETY_DEPOSIT)];
    let r = execute(
        &mut h,
        NOW,
        9,
        &"alice".to_string(),
        &funds,
        ExecuteMsg::InitiateSwap {
            participant: "bob".to_string(),
            amount: coin("ujuno", 1000),
            hashlock: sha_hex("secret1"),
            timelock: NOW + 7200,
            ethereum_recipient: "0xdef".to_string(),
            ethereum_chain_id: "1".to_string(),
        },
    )
    .unwrap();
    let id = r.swap_id.unwrap();

    let cfg = match query(&h, QueryMsg::Config {}).unwrap() {
        QueryAnswer::Config(c) => c,
        _ => panic!("config request answers with the configuration"),
    };
    assert_eq!(cfg.admin, "alice");
    assert_eq!(cfg.admin, query_config(&h).admin);

    match query(&h, QueryMsg::Swap { swap_id: id.clone() }).unwrap() {
        QueryAnswer::Swap(s) => assert_eq!(s.swap_id, id),
        _ => panic!("swap request answers with the record"),
    }
    match query(
        &h,
        QueryMsg::SwapsByInitiator {
            initiator: "alice".to_string(),
            start_after: None,
            limit: None,
        },
    )
    .unwrap()
    {
        QueryAnswer::Swaps(s) => assert_eq!(s.swaps.len(), 1),
        _ => panic!("listing answers with records"),
    }
    match query(&h, QueryMsg::SwapStats {}).unwrap() {
        QueryAnswer::Stats(st) => {
            assert_eq!(st.total_swaps, 1);
            assert_eq!(st.active_swaps, 1);
        },
        _ => panic!("stats request answers with the counters"),
    }

    let r = execute(
        &mut h,
        NOW + 10,
        9,
        &"bob".to_string(),
        &Vec::new(),
        ExecuteMsg::CompleteSwap { swap_id: id.clone(), secret: "secret1".to_string() },
    )
    .unwrap();
    assert_eq!(r.messages.len(), 2);

    let r = execute(
        &mut h,
        NOW + 20,
        9,
        &"alice".to_string(),
        &Vec::new(),
        ExecuteMsg::RefundSwap { swap_id: id },
    );
    assert_eq!(r.unwrap_err(), ContractError::SwapAlreadyCompleted {});

    let r = execute(
        &mut h,
        NOW + 30,
        9,
        &"alice".to_string(),
        &Vec::new(),
        ExecuteMsg::UpdateConfig {
            admin: None,
            minimum_safety_deposit: None,
            min_timelock_duration: None,
            max_timelock_duration: None,
            paused: Some(true),
        },
    );
    assert!(r.is_ok());
    assert!(h.config.paused);

    let r = execute(
        &mut h,
        NOW + 40,
        9,
        &"mallory".to_string(),
        &Vec::new(),
        ExecuteMsg::EmergencyRefund { swap_id: "ab".repeat(32) },
    );
    assert_eq!(r.unwrap_err(), ContractError::Unauthorized {});
}

#[test]
fn paging_edge_cases() {
    let mut h = fresh_engine("admin");
    let mut ids: Vec<String> = Vec::new();
    for k in 0..3u64 {
        ids.push(open_swap_at(&mut h, k, "alice", "bob", coin("ujuno", 1), &sha_hex(&format!("e{}", k))));
    }
    ids.sort();
    // A zero limit reports nothing.
    let none = query_swaps_by_initiator(&h, "alice".to_string(), None, Some(0));
    assert_eq!(none.swaps.len(), 0);
    // A cursor at the last identifier reports nothing further.
    let after_last =
        query_swaps_by_initiator(&h, "alice".to_string(), Some(ids[2].clone()), None);
    assert_eq!(after_last.swaps.len(), 0);
    // A cursor strictly before the first identifier reports everything.
    let all = query_swaps_by_initiator(&h, "alice".to_string(), Some(String::new()), None);
    assert_eq!(all.swaps.len(), 3);
}

#[test]
fn safety_deposit_takes_the_first_matching_coin() {
    let mut h = fresh_engine("alice");
    // The first coin of the swap denomination decides, as attached.
    let funds = vec![coin("ujuno", 10), coin("ujuno", DEFAULT_MINIMUM_SAFETY_DEPOSIT * 2)];
    let r = execute_initiate_swap(
        &mut h,
        NOW,
        1,
        &"alice".to_string(),
        &funds,
        "bob".to_string(),
        coin("ujuno", 1000),
        sha_hex("s"),
        NOW + 7200,
        String::new(),
        String::new(),
    );
    assert_eq!(
        r.unwrap_err(),
        ContractError::SafetyDepositTooLow { minimum: DEFAULT_MINIMUM_SAFETY_DEPOSIT }
    );
}

#[test]
fn emergency_refund_of_unknown_swap_is_not_found() {
    let mut h = fresh_engine("alice");
    let id = "ef".repeat(32);
    let r = execute_emergency_refund(&mut h, NOW, &"alice".to_string(), id.clone());
    assert_eq!(r.unwrap_err(), ContractError::SwapNotFound { swap_id: id });
}
