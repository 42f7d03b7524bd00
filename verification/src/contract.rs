//! The swap lifecycle engine: one executable function per operation, each
//! proved to agree with its transition function in `model`, plus the
//! read-only queries.

use crate::crypto::{hex_encode, sha256, verify_secret};
use crate::error::{ContractError, ErrorView};
use crate::hexstr::check_hashlock;
use crate::ids::generate_swap_id;
use crate::model::{
    SwapKey, complete_spec, emergency_refund_spec, eff_limit,
    find_swap, first_matching_amount, initiate_spec, key_of,
    lemma_filter_push, lemma_find_swap_at, lemma_find_swap_none, lemma_first_matching_at,
    lemma_first_matching_none, lemma_insert_sorted_at, lemma_set_swap_at, lemma_sorted_insert,
    lemma_sorted_update_same_id, list_pred, listed_swaps, opt_view, refund_spec,
    step_matches, take_up_to, update_config_spec,
};
use crate::msg::{
    ConfigResponse, ExecuteMsg, InstantiateMsg, MigrateMsg, QueryAnswer, QueryMsg, Response,
    SwapResponse, SwapStatsResponse, SwapsResponse, Transfer, resp_of,
};
use crate::order::{lemma_str_lt_connected, lemma_str_lt_irrefl, lemma_str_lt_trans, str_lt,
    string_lt};
use crate::state::{
    AtomicSwap, Coin, Config, Htlc, HtlcView, SwapState, SwapStats, SwapView, add_to_volume, coins_view,
    count_in_state, htlc_wf, ledger_sorted, lemma_add_volume_other, lemma_add_volume_same,
    lemma_add_volume_unique, lemma_count_insert, lemma_count_lt_len, lemma_count_update,
    lemma_state_partition, lemma_sum_insert, lemma_sum_update_amount_kept,
    lemma_two_counts_le_len, copy_volume, sum_for_denom, swap_wf, volume_of,
};
use vstd::prelude::*;

verus! {

/// Default lower bound on how far in the future a timelock must lie.
pub const DEFAULT_MIN_TIMELOCK_DURATION: u64 = 3600;

/// Default upper bound on how far in the future a timelock may lie.
pub const DEFAULT_MAX_TIMELOCK_DURATION: u64 = 7 * 24 * 3600;

/// Default minimum safety deposit.
pub const DEFAULT_MINIMUM_SAFETY_DEPOSIT: u128 = 1000000;

/// Creates the engine state: the sender becomes admin unless one is
/// named, absent parameters fall back to the defaults, the ledger and the
/// statistics start empty.
pub fn instantiate(sender: &String, msg: InstantiateMsg) -> (r: Htlc)
    ensures
        htlc_wf(r@),
        r@.config.admin == match msg.admin {
            Some(a) => a@,
            None => sender@,
        },
        r@.config.minimum_safety_deposit == match msg.minimum_safety_deposit {
            Some(d) => d,
            None => DEFAULT_MINIMUM_SAFETY_DEPOSIT,
        },
        r@.config.min_timelock_duration == match msg.min_timelock_duration {
            Some(d) => d,
            None => DEFAULT_MIN_TIMELOCK_DURATION,
        },
        r@.config.max_timelock_duration == match msg.max_timelock_duration {
            Some(d) => d,
            None => DEFAULT_MAX_TIMELOCK_DURATION,
        },
        !r@.config.paused,
        r@.swaps.len() == 0,
        r@.stats.total_swaps == 0,
        r@.stats.completed_swaps == 0,
        r@.stats.refunded_swaps == 0,
        r@.stats.total_volume.len() == 0,
{
    let admin = match msg.admin {
        Some(a) => a,
        None => sender.clone(),
    };
    let minimum_safety_deposit = match msg.minimum_safety_deposit {
        Some(d) => d,
        None => DEFAULT_MINIMUM_SAFETY_DEPOSIT,
    };
    let min_timelock_duration = match msg.min_timelock_duration {
        Some(d) => d,
        None => DEFAULT_MIN_TIMELOCK_DURATION,
    };
    let max_timelock_duration = match msg.max_timelock_duration {
        Some(d) => d,
        None => DEFAULT_MAX_TIMELOCK_DURATION,
    };
    let htlc = Htlc {
        config: Config {
            admin,
            minimum_safety_deposit,
            min_timelock_duration,
            max_timelock_duration,
            paused: false,
        },
        swaps: Vec::new(),
        stats: SwapStats {
            total_swaps: 0,
            completed_swaps: 0,
            refunded_swaps: 0,
            total_volume: Vec::new(),
        },
    };
    proof {
        assert(htlc@.swaps =~= Seq::<SwapView>::empty());
        assert(htlc@.stats.total_volume =~= Seq::<crate::state::CoinView>::empty());
        assert forall|d: Seq<char>|
            volume_of(htlc@.stats.total_volume, d) == #[trigger] sum_for_denom(
                htlc@.swaps,
                d,
            ) by {}
    }
    htlc
}

/// Finds the position of an identifier in the sorted ledger: the record's
/// index when present, or the insertion position when absent.
fn locate(swaps: &Vec<AtomicSwap>, id: &String) -> (r: (usize, bool))
    requires
        ledger_sorted(swaps@.map_values(|s: AtomicSwap| s@)),
    ensures
        ({
            let (i, found) = r;
            let sv = swaps@.map_values(|s: AtomicSwap| s@);
            &&& i <= sv.len()
            &&& found ==> i < sv.len() && sv[i as int].swap_id == id@ && find_swap(sv, id@)
                == Some(sv[i as int]) && (forall|j: int|
                0 <= j < i ==> (#[trigger] sv[j].swap_id) != id@)
            &&& !found ==> find_swap(sv, id@) is None && (forall|j: int|
                0 <= j < i ==> str_lt(#[trigger] sv[j].swap_id, id@)) && (i < sv.len()
                ==> str_lt(id@, sv[i as int].swap_id))
        }),
{
    let ghost sv = swaps@.map_values(|s: AtomicSwap| s@);
    let n = swaps.len();
    let mut i: usize = 0;
    while i < n
        invariant
            0 <= i <= n,
            n == sv.len(),
            sv == swaps@.map_values(|s: AtomicSwap| s@),
            ledger_sorted(sv),
            forall|j: int| 0 <= j < i ==> str_lt(#[trigger] sv[j].swap_id, id@),
        decreases n - i,
    {
        if swaps[i].swap_id == *id {
            proof {
                assert forall|j: int| 0 <= j < i implies (#[trigger] sv[j].swap_id) != id@ by {
                    if sv[j].swap_id == id@ {
                        lemma_str_lt_irrefl(id@);
                    }
                }
                lemma_find_swap_at(sv, id@, i as int);
            }
            return (i, true);
        }
        if !string_lt(swaps[i].swap_id.as_str(), id.as_str()) {
            proof {
                lemma_str_lt_connected(sv[i as int].swap_id, id@);
                assert(str_lt(id@, sv[i as int].swap_id));
                assert forall|j: int| 0 <= j < sv.len() implies (#[trigger] sv[j].swap_id)
                    != id@ by {
                    if j < i {
                        if sv[j].swap_id == id@ {
                            lemma_str_lt_irrefl(id@);
                        }
                    } else {
                        if j > i {
                            lemma_str_lt_trans(id@, sv[i as int].swap_id, sv[j].swap_id);
                        }
                        if sv[j].swap_id == id@ {
                            lemma_str_lt_irrefl(id@);
                        }
                    }
                }
                lemma_find_swap_none(sv, id@);
            }
            return (i, false);
        }
        i += 1;
    }
    proof {
        assert forall|j: int| 0 <= j < sv.len() implies (#[trigger] sv[j].swap_id) != id@ by {
            if sv[j].swap_id == id@ {
                lemma_str_lt_irrefl(id@);
            }
        }
        lemma_find_swap_none(sv, id@);
    }
    (n, false)
}

/// The portion of the attached funds that is in the swap's denomination.
fn deposit_of(funds: &Vec<Coin>, denom: &String) -> (r: u128)
    ensures
        r == first_matching_amount(coins_view(funds@), denom@),
{
    let n = funds.len();
    let mut i: usize = 0;
    while i < n
        invariant
            0 <= i <= n,
            n == funds@.len(),
            forall|j: int| 0 <= j < i ==> (#[trigger] coins_view(funds@)[j].denom) != denom@,
        decreases n - i,
    {
        if funds[i].denom == *denom {
            proof {
                assert(coins_view(funds@)[i as int].denom == denom@);
                lemma_first_matching_at(coins_view(funds@), denom@, i as int);
            }
            return funds[i].amount;
        }
        proof {
            assert(coins_view(funds@)[i as int].denom != denom@);
        }
        i += 1;
    }
    proof {
        lemma_first_matching_none(coins_view(funds@), denom@);
    }
    0
}

/// Refunds a swap: initiator only, once the timelock has elapsed.  Emits
/// the principal and any safety deposit back to the initiator.
pub fn execute_refund_swap(
    htlc: &mut Htlc,
    now: u64,
    sender: &String,
    swap_id: String,
) -> (r: Result<Response, ContractError>)
    requires
        htlc_wf(old(htlc)@),
    ensures
        htlc_wf(final(htlc)@),
        step_matches(old(htlc)@, final(htlc)@, r, refund_spec(old(htlc)@, now, sender@, swap_id@)),
{
    let ghost pre = old(htlc)@;
    let ghost sid = swap_id@;
    let ghost m = refund_spec(pre, now, sender@, sid);
    if htlc.config.paused {
        return Err(ContractError::ContractPaused {});
    }
    let (i, found) = locate(&htlc.swaps, &swap_id);
    if !found {
        return Err(ContractError::SwapNotFound { swap_id });
    }
    let ghost s = pre.swaps[i as int];
    if *sender != htlc.swaps[i].initiator {
        return Err(ContractError::OnlyInitiator {});
    }
    match htlc.swaps[i].state {
        SwapState::Initiated => {},
        SwapState::Completed => {
            return Err(ContractError::SwapAlreadyCompleted {});
        },
        SwapState::Refunded => {
            return Err(ContractError::SwapAlreadyRefunded {});
        },
    }
    if now < htlc.swaps[i].timelock {
        let expiry = htlc.swaps[i].timelock;
        return Err(ContractError::SwapNotExpired { current_time: now, expiry });
    }
    proof {
        lemma_count_lt_len(pre.swaps, SwapState::Refunded, i as int);
    }
    let resp = refund_record(htlc, now, i, Ghost(pre), Ghost(s), Ghost(sid));
    proof {
        assert(m is Ok);
        assert(htlc@ =~= m->Ok_0.state);
        assert(resp@ =~= m->Ok_0.response);
    }
    Ok(resp)
}

/// Refunds a swap by administrative override: admin only.  This is the
/// one path that ignores the pause flag and the timelock entirely; it is
/// a circuit-breaker for stuck or disputed swaps.
pub fn execute_emergency_refund(
    htlc: &mut Htlc,
    now: u64,
    sender: &String,
    swap_id: String,
) -> (r: Result<Response, ContractError>)
    requires
        htlc_wf(old(htlc)@),
    ensures
        htlc_wf(final(htlc)@),
        step_matches(
            old(htlc)@,
            final(htlc)@,
            r,
            emergency_refund_spec(old(htlc)@, now, sender@, swap_id@),
        ),
{
    let ghost pre = old(htlc)@;
    let ghost sid = swap_id@;
    let ghost m = emergency_refund_spec(pre, now, sender@, sid);
    if *sender != htlc.config.admin {
        return Err(ContractError::Unauthorized {});
    }
    let (i, found) = locate(&htlc.swaps, &swap_id);
    if !found {
        return Err(ContractError::SwapNotFound { swap_id });
    }
    let ghost s = pre.swaps[i as int];
    match htlc.swaps[i].state {
        SwapState::Initiated => {},
        SwapState::Completed => {
            return Err(ContractError::SwapAlreadyCompleted {});
        },
        SwapState::Refunded => {
            return Err(ContractError::SwapAlreadyRefunded {});
        },
    }
    proof {
        lemma_count_lt_len(pre.swaps, SwapState::Refunded, i as int);
    }
    let resp = refund_record(htlc, now, i, Ghost(pre), Ghost(s), Ghost(sid));
    proof {
        assert(m is Ok);
        assert(htlc@ =~= m->Ok_0.state);
        assert(resp@ =~= m->Ok_0.response);
    }
    Ok(resp)
}

/// The committed part shared by the two refund paths: move the record to
/// `Refunded`, count it, and emit both payouts to the initiator.
fn refund_record(
    htlc: &mut Htlc,
    now: u64,
    i: usize,
    Ghost(pre): Ghost<HtlcView>,
    Ghost(s): Ghost<SwapView>,
    Ghost(sid): Ghost<Seq<char>>,
) -> (resp: Response)
    requires
        old(htlc)@ == pre,
        htlc_wf(pre),
        i < pre.swaps.len(),
        s == pre.swaps[i as int],
        sid == s.swap_id,
        s.state is Initiated,
        forall|j: int| 0 <= j < i ==> (#[trigger] pre.swaps[j].swap_id) != sid,
        count_in_state(pre.swaps, SwapState::Refunded) < pre.swaps.len(),
    ensures
        htlc_wf(final(htlc)@),
        final(htlc)@ == crate::model::refund_step(pre, now, s, sid).state,
        resp@ == crate::model::refund_step(pre, now, s, sid).response,
{
    let old_rec = htlc.swaps.remove(i);
    let mut messages: Vec<Transfer> = Vec::new();
    messages.push(
        Transfer {
            to_address: old_rec.initiator.clone(),
            denom: old_rec.amount.denom.clone(),
            amount: old_rec.amount.amount,
        },
    );
    if old_rec.safety_deposit > 0 {
        messages.push(
            Transfer {
                to_address: old_rec.initiator.clone(),
                denom: old_rec.amount.denom.clone(),
                amount: old_rec.safety_deposit,
            },
        );
    }
    let new_rec = AtomicSwap {
        state: SwapState::Refunded,
        completed_at: Some(now),
        ..old_rec
    };
    htlc.swaps.insert(i, new_rec);
    htlc.stats.refunded_swaps = htlc.stats.refunded_swaps + 1;
    let resp = Response { messages, swap_id: None };
    proof {
        let st = crate::model::refund_step(pre, now, s, sid);
        let done = SwapView { state: SwapState::Refunded, completed_at: Some(now), ..s };
        assert(htlc@.swaps =~= pre.swaps.update(i as int, done));
        lemma_set_swap_at(pre.swaps, sid, done, i as int);
        lemma_sorted_update_same_id(pre.swaps, i as int, done);
        assert forall|k: int| 0 <= k < htlc@.swaps.len() implies swap_wf(
            #[trigger] htlc@.swaps[k],
        ) by {
            if k != i {
                assert(htlc@.swaps[k] == pre.swaps[k]);
            }
            assert(swap_wf(pre.swaps[k]));
        }
        lemma_count_update(pre.swaps, SwapState::Completed, done, i as int);
        lemma_count_update(pre.swaps, SwapState::Refunded, done, i as int);
        assert forall|d: Seq<char>|
            volume_of(htlc@.stats.total_volume, d) == #[trigger] sum_for_denom(
                htlc@.swaps,
                d,
            ) by {
            lemma_sum_update_amount_kept(pre.swaps, done, i as int, d);
            assert(volume_of(pre.stats.total_volume, d) == sum_for_denom(pre.swaps, d));
        }
        assert(htlc@ =~= st.state);
        assert(resp@.messages =~= crate::model::payout(s, s.initiator));
        assert(resp@ =~= st.response);
    }
    resp
}

/// Overwrites each supplied configuration field; admin only.  No
/// validation is applied to the new values: a misconfigured bound is the
/// admin's responsibility by policy.
pub fn execute_update_config(
    htlc: &mut Htlc,
    sender: &String,
    admin: Option<String>,
    minimum_safety_deposit: Option<u128>,
    min_timelock_duration: Option<u64>,
    max_timelock_duration: Option<u64>,
    paused: Option<bool>,
) -> (r: Result<Response, ContractError>)
    requires
        htlc_wf(old(htlc)@),
    ensures
        htlc_wf(final(htlc)@),
        step_matches(
            old(htlc)@,
            final(htlc)@,
            r,
            update_config_spec(
                old(htlc)@,
                sender@,
                opt_view(admin),
                minimum_safety_deposit,
                min_timelock_duration,
                max_timelock_duration,
                paused,
            ),
        ),
{
    if *sender != htlc.config.admin {
        return Err(ContractError::Unauthorized {});
    }
    if let Some(a) = admin {
        htlc.config.admin = a;
    }
    if let Some(d) = minimum_safety_deposit {
        htlc.config.minimum_safety_deposit = d;
    }
    if let Some(d) = min_timelock_duration {
        htlc.config.min_timelock_duration = d;
    }
    if let Some(d) = max_timelock_duration {
        htlc.config.max_timelock_duration = d;
    }
    if let Some(p) = paused {
        htlc.config.paused = p;
    }
    let r = Response { messages: Vec::new(), swap_id: None };
    proof {
        let m = update_config_spec(
            old(htlc)@,
            sender@,
            opt_view(admin),
            minimum_safety_deposit,
            min_timelock_duration,
            max_timelock_duration,
            paused,
        );
        assert(htlc@ =~= m->Ok_0.state);
        assert(r@ =~= m->Ok_0.response);
    }
    Ok(r)
}

/// Opens a swap: validates the call, derives the identifier, persists the
/// record at its sorted position and updates the statistics.  The funds
/// are already escrowed by the host's attachment mechanism, so no
/// transfer instruction is emitted.
pub fn execute_initiate_swap(
    htlc: &mut Htlc,
    now: u64,
    height: u64,
    sender: &String,
    funds: &Vec<Coin>,
    participant: String,
    amount: Coin,
    hashlock: String,
    timelock: u64,
    ethereum_recipient: String,
    ethereum_chain_id: String,
) -> (r: Result<Response, ContractError>)
    requires
        htlc_wf(old(htlc)@),
        old(htlc)@.stats.total_swaps < u64::MAX,
        volume_of(old(htlc)@.stats.total_volume, amount@.denom) + amount@.amount <= u128::MAX,
    ensures
        htlc_wf(final(htlc)@),
        step_matches(
            old(htlc)@,
            final(htlc)@,
            r,
            initiate_spec(
                old(htlc)@,
                now,
                height,
                sender@,
                coins_view(funds@),
                participant@,
                amount@,
                hashlock@,
                timelock,
                ethereum_recipient@,
                ethereum_chain_id@,
            ),
        ),
{
    let ghost pre = old(htlc)@;
    let ghost amt = amount@;
    let ghost m = initiate_spec(
        pre,
        now,
        height,
        sender@,
        coins_view(funds@),
        participant@,
        amount@,
        hashlock@,
        timelock,
        ethereum_recipient@,
        ethereum_chain_id@,
    );
    if htlc.config.paused {
        return Err(ContractError::ContractPaused {});
    }
    if amount.amount == 0 {
        return Err(ContractError::InvalidAmount {});
    }
    let min_dur = htlc.config.min_timelock_duration;
    let max_dur = htlc.config.max_timelock_duration;
    if (timelock as u128) <= (now as u128) + (min_dur as u128) || (timelock as u128) >= (
    now as u128) + (max_dur as u128) {
        return Err(ContractError::InvalidTimelock { min: min_dur, max: max_dur });
    }
    if !check_hashlock(hashlock.as_str()) {
        return Err(ContractError::InvalidHashlock {});
    }
    let safety_deposit = deposit_of(funds, &amount.denom);
    if safety_deposit < htlc.config.minimum_safety_deposit {
        let minimum = htlc.config.minimum_safety_deposit;
        return Err(ContractError::SafetyDepositTooLow { minimum });
    }
    let swap_id = generate_swap_id(
        sender.as_str(),
        participant.as_str(),
        hashlock.as_str(),
        timelock,
        height,
    );
    let (pos, found) = locate(&htlc.swaps, &swap_id);
    if found {
        return Err(ContractError::SwapAlreadyExists { swap_id });
    }
    htlc.stats.total_swaps = htlc.stats.total_swaps + 1;
    add_to_volume(&mut htlc.stats.total_volume, &amount);
    let swap = AtomicSwap {
        swap_id: swap_id.clone(),
        initiator: sender.clone(),
        participant,
        amount,
        hashlock,
        timelock,
        state: SwapState::Initiated,
        secret: None,
        ethereum_recipient,
        ethereum_chain_id,
        created_at: now,
        completed_at: None,
        safety_deposit,
    };
    let ghost swv = swap@;
    htlc.swaps.insert(pos, swap);
    let resp = Response { messages: Vec::new(), swap_id: Some(swap_id) };
    proof {
        assert(m is Ok);
        let st = m->Ok_0;
        assert(swv =~= SwapView {
            swap_id: swv.swap_id,
            initiator: sender@,
            participant: swv.participant,
            amount: amt,
            hashlock: swv.hashlock,
            timelock,
            state: SwapState::Initiated,
            secret: None,
            ethereum_recipient: swv.ethereum_recipient,
            ethereum_chain_id: swv.ethereum_chain_id,
            created_at: now,
            completed_at: None,
            safety_deposit: safety_deposit,
        });
        assert(htlc@.swaps =~= pre.swaps.insert(pos as int, swv));
        lemma_insert_sorted_at(pre.swaps, swv, pos as int);
        lemma_sorted_insert(pre.swaps, swv, pos as int);
        assert forall|k: int| 0 <= k < htlc@.swaps.len() implies swap_wf(
            #[trigger] htlc@.swaps[k],
        ) by {
            if k < pos {
                assert(htlc@.swaps[k] == pre.swaps[k]);
                assert(swap_wf(pre.swaps[k]));
            } else if k > pos {
                assert(htlc@.swaps[k] == pre.swaps[k - 1]);
                assert(swap_wf(pre.swaps[k - 1]));
            }
        }
        lemma_count_insert(pre.swaps, SwapState::Completed, swv, pos as int);
        lemma_count_insert(pre.swaps, SwapState::Refunded, swv, pos as int);
        lemma_add_volume_unique(pre.stats.total_volume, amt);
        assert forall|d: Seq<char>|
            volume_of(htlc@.stats.total_volume, d) == #[trigger] sum_for_denom(
                htlc@.swaps,
                d,
            ) by {
            lemma_sum_insert(pre.swaps, swv, pos as int, d);
            if d == amt.denom {
                lemma_add_volume_same(pre.stats.total_volume, amt);
            } else {
                lemma_add_volume_other(pre.stats.total_volume, amt, d);
            }
            assert(volume_of(pre.stats.total_volume, d) == sum_for_denom(pre.swaps, d));
        }
        assert(htlc@ =~= st.state);
        assert(resp@ =~= st.response);
    }
    Ok(resp)
}

/// Completes a swap: participant only, before the timelock, against a
/// revealed secret whose hash matches the stored hashlock.  Emits the
/// principal to the participant and returns any safety deposit to the
/// initiator.
pub fn execute_complete_swap(
    htlc: &mut Htlc,
    now: u64,
    sender: &String,
    swap_id: String,
    secret: String,
) -> (r: Result<Response, ContractError>)
    requires
        htlc_wf(old(htlc)@),
    ensures
        htlc_wf(final(htlc)@),
        step_matches(
            old(htlc)@,
            final(htlc)@,
            r,
            complete_spec(old(htlc)@, now, sender@, swap_id@, secret@),
        ),
{
    let ghost pre = old(htlc)@;
    let ghost sid = swap_id@;
    let ghost sec = secret@;
    let ghost m = complete_spec(pre, now, sender@, sid, sec);
    if htlc.config.paused {
        return Err(ContractError::ContractPaused {});
    }
    let (i, found) = locate(&htlc.swaps, &swap_id);
    if !found {
        return Err(ContractError::SwapNotFound { swap_id });
    }
    let ghost s = pre.swaps[i as int];
    if *sender != htlc.swaps[i].participant {
        return Err(ContractError::OnlyParticipant {});
    }
    match htlc.swaps[i].state {
        SwapState::Initiated => {},
        SwapState::Completed => {
            return Err(ContractError::SwapAlreadyCompleted {});
        },
        SwapState::Refunded => {
            return Err(ContractError::SwapAlreadyRefunded {});
        },
    }
    if now >= htlc.swaps[i].timelock {
        let expiry = htlc.swaps[i].timelock;
        return Err(ContractError::SwapExpired { current_time: now, expiry });
    }
    if !verify_secret(htlc.swaps[i].hashlock.as_str(), secret.as_str()) {
        let digest = sha256(secret.as_str().as_bytes());
        let actual = hex_encode(digest.as_slice());
        let expected = htlc.swaps[i].hashlock.clone();
        return Err(ContractError::InvalidSecret { expected, actual });
    }
    proof {
        lemma_count_lt_len(pre.swaps, SwapState::Completed, i as int);
    }
    let old_rec = htlc.swaps.remove(i);
    let mut messages: Vec<Transfer> = Vec::new();
    messages.push(
        Transfer {
            to_address: old_rec.participant.clone(),
            denom: old_rec.amount.denom.clone(),
            amount: old_rec.amount.amount,
        },
    );
    if old_rec.safety_deposit > 0 {
        messages.push(
            Transfer {
                to_address: old_rec.initiator.clone(),
                denom: old_rec.amount.denom.clone(),
                amount: old_rec.safety_deposit,
            },
        );
    }
    let new_rec = AtomicSwap {
        state: SwapState::Completed,
        secret: Some(secret),
        completed_at: Some(now),
        ..old_rec
    };
    htlc.swaps.insert(i, new_rec);
    htlc.stats.completed_swaps = htlc.stats.completed_swaps + 1;
    let resp = Response { messages, swap_id: None };
    proof {
        assert(m is Ok);
        let st = m->Ok_0;
        let done = SwapView {
            state: SwapState::Completed,
            secret: Some(sec),
            completed_at: Some(now),
            ..s
        };
        assert(htlc@.swaps =~= pre.swaps.update(i as int, done));
        assert forall|j: int| 0 <= j < i implies (#[trigger] pre.swaps[j].swap_id) != sid by {
            if pre.swaps[j].swap_id == sid {
                lemma_str_lt_irrefl(sid);
            }
        }
        lemma_set_swap_at(pre.swaps, sid, done, i as int);
        lemma_sorted_update_same_id(pre.swaps, i as int, done);
        assert forall|k: int| 0 <= k < htlc@.swaps.len() implies swap_wf(
            #[trigger] htlc@.swaps[k],
        ) by {
            if k != i {
                assert(htlc@.swaps[k] == pre.swaps[k]);
            }
            assert(swap_wf(pre.swaps[k]));
        }
        lemma_count_update(pre.swaps, SwapState::Completed, done, i as int);
        lemma_count_update(pre.swaps, SwapState::Refunded, done, i as int);
        assert forall|d: Seq<char>|
            volume_of(htlc@.stats.total_volume, d) == #[trigger] sum_for_denom(
                htlc@.swaps,
                d,
            ) by {
            lemma_sum_update_amount_kept(pre.swaps, done, i as int, d);
            assert(volume_of(pre.stats.total_volume, d) == sum_for_denom(pre.swaps, d));
        }
        assert(htlc@ =~= st.state);
        assert(resp@.messages =~= crate::model::payout(s, s.participant));
        assert(resp@ =~= st.response);
    }
    Ok(resp)
}

/// Migration is a no-op: the state carries over unchanged.
pub fn migrate(_msg: MigrateMsg) -> (r: Response)
    ensures
        r@.messages.len() == 0,
        r@.swap_id is None,
{
    Response { messages: Vec::new(), swap_id: None }
}

/// Dispatches a command to its operation.
pub fn execute(
    htlc: &mut Htlc,
    now: u64,
    height: u64,
    sender: &String,
    funds: &Vec<Coin>,
    msg: ExecuteMsg,
) -> (r: Result<Response, ContractError>)
    requires
        htlc_wf(old(htlc)@),
        msg matches ExecuteMsg::InitiateSwap { amount, .. } ==> old(htlc)@.stats.total_swaps
            < u64::MAX && volume_of(old(htlc)@.stats.total_volume, amount@.denom) + amount@.amount
            <= u128::MAX,
    ensures
        htlc_wf(final(htlc)@),
        match msg {
            ExecuteMsg::InitiateSwap {
                participant,
                amount,
                hashlock,
                timelock,
                ethereum_recipient,
                ethereum_chain_id,
            } => step_matches(
                old(htlc)@,
                final(htlc)@,
                r,
                initiate_spec(
                    old(htlc)@,
                    now,
                    height,
                    sender@,
                    coins_view(funds@),
                    participant@,
                    amount@,
                    hashlock@,
                    timelock,
                    ethereum_recipient@,
                    ethereum_chain_id@,
                ),
            ),
            ExecuteMsg::CompleteSwap { swap_id, secret } => step_matches(
                old(htlc)@,
                final(htlc)@,
                r,
                complete_spec(old(htlc)@, now, sender@, swap_id@, secret@),
            ),
            ExecuteMsg::RefundSwap { swap_id } => step_matches(
                old(htlc)@,
                final(htlc)@,
                r,
                refund_spec(old(htlc)@, now, sender@, swap_id@),
            ),
            ExecuteMsg::UpdateConfig {
                admin,
                minimum_safety_deposit,
                min_timelock_duration,
                max_timelock_duration,
                paused,
            } => step_matches(
                old(htlc)@,
                final(htlc)@,
                r,
                update_config_spec(
                    old(htlc)@,
                    sender@,
                    opt_view(admin),
                    minimum_safety_deposit,
                    min_timelock_duration,
                    max_timelock_duration,
                    paused,
                ),
            ),
            ExecuteMsg::EmergencyRefund { swap_id } => step_matches(
                old(htlc)@,
                final(htlc)@,
                r,
                emergency_refund_spec(old(htlc)@, now, sender@, swap_id@),
            ),
        },
{
    match msg {
        ExecuteMsg::InitiateSwap {
            participant,
            amount,
            hashlock,
            timelock,
            ethereum_recipient,
            ethereum_chain_id,
        } => execute_initiate_swap(
            htlc,
            now,
            height,
            sender,
            funds,
            participant,
            amount,
            hashlock,
            timelock,
            ethereum_recipient,
            ethereum_chain_id,
        ),
        ExecuteMsg::CompleteSwap { swap_id, secret } => execute_complete_swap(
            htlc,
            now,
            sender,
            swap_id,
            secret,
        ),
        ExecuteMsg::RefundSwap { swap_id } => execute_refund_swap(htlc, now, sender, swap_id),
        ExecuteMsg::UpdateConfig {
            admin,
            minimum_safety_deposit,
            min_timelock_duration,
            max_timelock_duration,
            paused,
        } => execute_update_config(
            htlc,
            sender,
            admin,
            minimum_safety_deposit,
            min_timelock_duration,
            max_timelock_duration,
            paused,
        ),
        ExecuteMsg::EmergencyRefund { swap_id } => execute_emergency_refund(
            htlc,
            now,
            sender,
            swap_id,
        ),
    }
}

/// Reports one ledger record.
fn to_response(s: &AtomicSwap) -> (r: SwapResponse)
    ensures
        r@ == resp_of(s@),
{
    let secret = match &s.secret {
        Some(x) => Some(x.clone()),
        None => None,
    };
    let r = SwapResponse {
        swap_id: s.swap_id.clone(),
        initiator: s.initiator.clone(),
        participant: s.participant.clone(),
        amount: Coin { denom: s.amount.denom.clone(), amount: s.amount.amount },
        hashlock: s.hashlock.clone(),
        timelock: s.timelock,
        state: s.state,
        secret,
        ethereum_recipient: s.ethereum_recipient.clone(),
        ethereum_chain_id: s.ethereum_chain_id.clone(),
        created_at: s.created_at,
        completed_at: s.completed_at,
    };
    proof {
        assert(r@ =~= resp_of(s@));
    }
    r
}

/// The field a listing matches against.
fn key_field<'a>(s: &'a AtomicSwap, k: SwapKey) -> (r: &'a String)
    ensures
        r@ == key_of(s@, k),
{
    match k {
        SwapKey::Initiator => &s.initiator,
        SwapKey::Participant => &s.participant,
        SwapKey::Hashlock => &s.hashlock,
    }
}

/// Walks the ledger in identifier order and reports the records matching
/// the key that lie after the cursor, up to the page size.
fn collect_swaps(
    htlc: &Htlc,
    k: SwapKey,
    key: &String,
    start_after: &Option<String>,
    limit: Option<u32>,
) -> (r: Vec<SwapResponse>)
    ensures
        r@.map_values(|x: SwapResponse| x@) == listed_swaps(
            htlc@.swaps,
            k,
            key@,
            opt_view(*start_after),
            limit,
        ).map_values(|s: SwapView| resp_of(s)),
{
    let ghost sv = htlc@.swaps;
    let ghost pred = list_pred(k, key@, opt_view(*start_after));
    let lim_u32: u32 = match limit {
        Some(l) => if l < 30 {
            l
        } else {
            30
        },
        None => 10,
    };
    let lim = lim_u32 as usize;
    proof {
        assert(lim as int == eff_limit(limit));
    }
    let mut out: Vec<SwapResponse> = Vec::new();
    let n = htlc.swaps.len();
    let mut i: usize = 0;
    while i < n && out.len() < lim
        invariant
            0 <= i <= n,
            n == sv.len(),
            sv == htlc@.swaps,
            pred == list_pred(k, key@, opt_view(*start_after)),
            lim as int == eff_limit(limit),
            out@.len() <= lim,
            out@.len() == sv.take(i as int).filter(pred).len(),
            forall|kk: int|
                0 <= kk < out@.len() ==> (#[trigger] out@[kk])@ == resp_of(
                    sv.take(i as int).filter(pred)[kk],
                ),
        decreases n - i,
    {
        let s = &htlc.swaps[i];
        let matches_key = *key_field(s, k) == *key;
        let after = match start_after {
            Some(c) => string_lt(c.as_str(), s.swap_id.as_str()),
            None => true,
        };
        proof {
            assert(sv[i as int] == s@);
            assert(sv.take(i + 1) =~= sv.take(i as int).push(sv[i as int]));
            lemma_filter_push(sv.take(i as int), pred, sv[i as int]);
            assert((matches_key && after) == pred(sv[i as int]));
        }
        if matches_key && after {
            out.push(to_response(s));
        }
        i += 1;
    }
    proof {
        let full = sv.filter(pred);
        if i == n {
            assert(sv.take(n as int) =~= sv);
            assert(take_up_to(full, lim as int) == full);
        } else {
            assert(out@.len() == lim);
            assert(sv =~= sv.take(i as int) + sv.skip(i as int));
            Seq::filter_distributes_over_add(sv.take(i as int), sv.skip(i as int), pred);
            assert(full == sv.take(i as int).filter(pred) + sv.skip(i as int).filter(pred));
            if full.len() <= lim {
                assert(sv.skip(i as int).filter(pred).len() == 0);
                assert(full =~= sv.take(i as int).filter(pred));
            } else {
                assert(take_up_to(full, lim as int) =~= sv.take(i as int).filter(pred));
            }
        }
        let listed = listed_swaps(sv, k, key@, opt_view(*start_after), limit);
        assert(listed == sv.take(i as int).filter(pred));
        assert forall|kk: int| 0 <= kk < out@.len() implies resp_of(listed[kk]) == (
        #[trigger] out@[kk])@ by {
            assert(out@[kk]@ == resp_of(sv.take(i as int).filter(pred)[kk]));
        }
        assert(out@.map_values(|x: SwapResponse| x@) =~= listed.map_values(
            |s2: SwapView| resp_of(s2),
        ));
    }
    out
}

/// Reports the configuration.
pub fn query_config(htlc: &Htlc) -> (r: ConfigResponse)
    ensures
        r@ == htlc@.config,
{
    let r = ConfigResponse {
        admin: htlc.config.admin.clone(),
        minimum_safety_deposit: htlc.config.minimum_safety_deposit,
        min_timelock_duration: htlc.config.min_timelock_duration,
        max_timelock_duration: htlc.config.max_timelock_duration,
        paused: htlc.config.paused,
    };
    proof {
        assert(r@ =~= htlc@.config);
    }
    r
}

/// Reports one swap by identifier.
pub fn query_swap(htlc: &Htlc, swap_id: String) -> (r: Result<SwapResponse, ContractError>)
    requires
        htlc_wf(htlc@),
    ensures
        match find_swap(htlc@.swaps, swap_id@) {
            Some(s) => r matches Ok(resp) && resp@ == resp_of(s),
            None => r matches Err(e) && e@ == (ErrorView::SwapNotFound { swap_id: swap_id@ }),
        },
{
    let (i, found) = locate(&htlc.swaps, &swap_id);
    if found {
        Ok(to_response(&htlc.swaps[i]))
    } else {
        Err(ContractError::SwapNotFound { swap_id })
    }
}

/// Lists the swaps opened by an initiator, in ascending identifier order,
/// honoring the cursor and the page size.
pub fn query_swaps_by_initiator(
    htlc: &Htlc,
    initiator: String,
    start_after: Option<String>,
    limit: Option<u32>,
) -> (r: SwapsResponse)
    ensures
        r@ == listed_swaps(
            htlc@.swaps,
            SwapKey::Initiator,
            initiator@,
            opt_view(start_after),
            limit,
        ).map_values(|s: SwapView| resp_of(s)),
{
    SwapsResponse {
        swaps: collect_swaps(htlc, SwapKey::Initiator, &initiator, &start_after, limit),
    }
}

/// Lists the swaps naming a participant, in ascending identifier order.
pub fn query_swaps_by_participant(
    htlc: &Htlc,
    participant: String,
    start_after: Option<String>,
    limit: Option<u32>,
) -> (r: SwapsResponse)
    ensures
        r@ == listed_swaps(
            htlc@.swaps,
            SwapKey::Participant,
            participant@,
            opt_view(start_after),
            limit,
        ).map_values(|s: SwapView| resp_of(s)),
{
    SwapsResponse {
        swaps: collect_swaps(htlc, SwapKey::Participant, &participant, &start_after, limit),
    }
}

/// Lists the swaps under a hashlock, in ascending identifier order.
pub fn query_swaps_by_hashlock(
    htlc: &Htlc,
    hashlock: String,
    start_after: Option<String>,
    limit: Option<u32>,
) -> (r: SwapsResponse)
    ensures
        r@ == listed_swaps(
            htlc@.swaps,
            SwapKey::Hashlock,
            hashlock@,
            opt_view(start_after),
            limit,
        ).map_values(|s: SwapView| resp_of(s)),
{
    SwapsResponse {
        swaps: collect_swaps(htlc, SwapKey::Hashlock, &hashlock, &start_after, limit),
    }
}

/// Reports the statistics; the count of live swaps is derived from the
/// counters, which the well-formedness invariant keeps consistent.
pub fn query_swap_stats(htlc: &Htlc) -> (r: SwapStatsResponse)
    requires
        htlc_wf(htlc@),
    ensures
        r@.total_swaps == htlc@.stats.total_swaps,
        r@.completed_swaps == htlc@.stats.completed_swaps,
        r@.refunded_swaps == htlc@.stats.refunded_swaps,
        r@.active_swaps == htlc@.stats.total_swaps - htlc@.stats.completed_swaps
            - htlc@.stats.refunded_swaps,
        r@.active_swaps == count_in_state(htlc@.swaps, SwapState::Initiated),
        r@.total_volume == htlc@.stats.total_volume,
{
    proof {
        lemma_two_counts_le_len(htlc@.swaps, SwapState::Completed, SwapState::Refunded);
        lemma_state_partition(htlc@.swaps);
    }
    let active = htlc.stats.total_swaps - htlc.stats.completed_swaps - htlc.stats.refunded_swaps;
    SwapStatsResponse {
        total_swaps: htlc.stats.total_swaps,
        completed_swaps: htlc.stats.completed_swaps,
        refunded_swaps: htlc.stats.refunded_swaps,
        active_swaps: active,
        total_volume: copy_volume(&htlc.stats.total_volume),
    }
}

/// Dispatches a read-only request to its query.
pub fn query(htlc: &Htlc, msg: QueryMsg) -> (r: Result<QueryAnswer, ContractError>)
    requires
        htlc_wf(htlc@),
    ensures
        match msg {
            QueryMsg::Config {} => r matches Ok(QueryAnswer::Config(c)) && c@ == htlc@.config,
            QueryMsg::Swap { swap_id } => match find_swap(htlc@.swaps, swap_id@) {
                Some(s) => r matches Ok(QueryAnswer::Swap(resp)) && resp@ == resp_of(s),
                None => r matches Err(e) && e@ == (ErrorView::SwapNotFound { swap_id: swap_id@ }),
            },
            QueryMsg::SwapsByInitiator { initiator, start_after, limit } => r matches Ok(
                QueryAnswer::Swaps(sr),
            ) && sr@ == listed_swaps(
                htlc@.swaps,
                SwapKey::Initiator,
                initiator@,
                opt_view(start_after),
                limit,
            ).map_values(|s: SwapView| resp_of(s)),
            QueryMsg::SwapsByParticipant { participant, start_after, limit } => r matches Ok(
                QueryAnswer::Swaps(sr),
            ) && sr@ == listed_swaps(
                htlc@.swaps,
                SwapKey::Participant,
                participant@,
                opt_view(start_after),
                limit,
            ).map_values(|s: SwapView| resp_of(s)),
            QueryMsg::SwapsByHashlock { hashlock, start_after, limit } => r matches Ok(
                QueryAnswer::Swaps(sr),
            ) && sr@ == listed_swaps(
                htlc@.swaps,
                SwapKey::Hashlock,
                hashlock@,
                opt_view(start_after),
                limit,
            ).map_values(|s: SwapView| resp_of(s)),
            QueryMsg::SwapStats {} => r matches Ok(QueryAnswer::Stats(st))
                && st@.total_swaps == htlc@.stats.total_swaps && st@.completed_swaps
                == htlc@.stats.completed_swaps && st@.refunded_swaps == htlc@.stats.refunded_swaps
                && st@.active_swaps == htlc@.stats.total_swaps - htlc@.stats.completed_swaps
                - htlc@.stats.refunded_swaps && st@.total_volume == htlc@.stats.total_volume,
        },
{
    match msg {
        QueryMsg::Config {} => Ok(QueryAnswer::Config(query_config(htlc))),
        QueryMsg::Swap { swap_id } => match query_swap(htlc, swap_id) {
            Ok(s) => Ok(QueryAnswer::Swap(s)),
            Err(e) => Err(e),
        },
        QueryMsg::SwapsByInitiator { initiator, start_after, limit } => Ok(
            QueryAnswer::Swaps(query_swaps_by_initiator(htlc, initiator, start_after, limit)),
        ),
        QueryMsg::SwapsByParticipant { participant, start_after, limit } => Ok(
            QueryAnswer::Swaps(query_swaps_by_participant(htlc, participant, start_after, limit)),
        ),
        QueryMsg::SwapsByHashlock { hashlock, start_after, limit } => Ok(
            QueryAnswer::Swaps(query_swaps_by_hashlock(htlc, hashlock, start_after, limit)),
        ),
        QueryMsg::SwapStats {} => Ok(QueryAnswer::Stats(query_swap_stats(htlc))),
    }
}

} // verus!

