//! The functional model of the engine: lookup, update and insertion on
//! the ledger at the specification level, and one transition function per
//! operation.  Each executable operation is proved to agree with its
//! transition function exactly: same error on the same inputs, same new
//! state and same emitted transfers on success.

use crate::crypto::{secret_matches, sha256_of};
use crate::error::{ContractError, ErrorView};
use crate::hexstr::{hex_chars_of, valid_hashlock};
use crate::ids::swap_id_chars;
use crate::msg::{Response, ResponseView, TransferView};
use crate::order::str_lt;
use crate::state::{
    CoinView, HtlcView, StatsView, SwapState, SwapView, add_volume, count_in_state, ledger_sorted,
    volume_of,
};
use vstd::prelude::*;
use vstd::utf8::encode_utf8;

verus! {

/// The first record with this identifier, if any.
pub open spec fn find_swap(swaps: Seq<SwapView>, id: Seq<char>) -> Option<SwapView>
    decreases swaps.len(),
{
    if swaps.len() == 0 {
        None
    } else if swaps[0].swap_id == id {
        Some(swaps[0])
    } else {
        find_swap(swaps.drop_first(), id)
    }
}

pub open spec fn contains_id(swaps: Seq<SwapView>, id: Seq<char>) -> bool {
    find_swap(swaps, id) is Some
}

/// The ledger with the first record under `id` replaced by `s`.
pub open spec fn set_swap(swaps: Seq<SwapView>, id: Seq<char>, s: SwapView) -> Seq<SwapView>
    decreases swaps.len(),
{
    if swaps.len() == 0 {
        swaps
    } else if swaps[0].swap_id == id {
        seq![s] + swaps.drop_first()
    } else {
        seq![swaps[0]] + set_swap(swaps.drop_first(), id, s)
    }
}

/// The ledger with `s` inserted at its sorted position.
pub open spec fn insert_sorted(swaps: Seq<SwapView>, s: SwapView) -> Seq<SwapView>
    decreases swaps.len(),
{
    if swaps.len() == 0 {
        seq![s]
    } else if str_lt(s.swap_id, swaps[0].swap_id) {
        seq![s] + swaps
    } else {
        seq![swaps[0]] + insert_sorted(swaps.drop_first(), s)
    }
}

/// The amount of the first attached coin of the given denomination; zero
/// when none of the attached funds match.
pub open spec fn first_matching_amount(funds: Seq<CoinView>, denom: Seq<char>) -> u128
    decreases funds.len(),
{
    if funds.len() == 0 {
        0
    } else if funds[0].denom == denom {
        funds[0].amount
    } else {
        first_matching_amount(funds.drop_first(), denom)
    }
}

pub open spec fn opt_view(o: Option<String>) -> Option<Seq<char>> {
    match o {
        Some(s) => Some(s@),
        None => None,
    }
}

/// A committed transition: the state after it and the call's result.
#[verifier::ext_equal]
pub struct Step {
    pub state: HtlcView,
    pub response: ResponseView,
}

/// Relates an executable operation's outcome to its transition function:
/// on a modelled error the state is unchanged and exactly that error is
/// returned; on a modelled step exactly that state and response come out.
pub open spec fn step_matches(
    pre: HtlcView,
    post: HtlcView,
    r: Result<Response, ContractError>,
    m: Result<Step, ErrorView>,
) -> bool {
    match m {
        Ok(st) => r matches Ok(resp) && resp@ == st.response && post == st.state,
        Err(ev) => r matches Err(e) && e@ == ev && post == pre,
    }
}

/// The transfer instructions of a terminal transition: the principal to
/// `principal_to`, then the safety deposit back to the initiator when one
/// was attached.
pub open spec fn payout(s: SwapView, principal_to: Seq<char>) -> Seq<TransferView> {
    seq![TransferView { to_address: principal_to, denom: s.amount.denom, amount: s.amount.amount }]
        + if s.safety_deposit > 0 {
        seq![
            TransferView {
                to_address: s.initiator,
                denom: s.amount.denom,
                amount: s.safety_deposit,
            },
        ]
    } else {
        Seq::empty()
    }
}

/// The transition of initiate: every validation in order, then the new
/// record, the index entry implied by its position, and the statistics.
pub open spec fn initiate_spec(
    pre: HtlcView,
    now: u64,
    height: u64,
    sender: Seq<char>,
    funds: Seq<CoinView>,
    participant: Seq<char>,
    amount: CoinView,
    hashlock: Seq<char>,
    timelock: u64,
    ethereum_recipient: Seq<char>,
    ethereum_chain_id: Seq<char>,
) -> Result<Step, ErrorView> {
    let cfg = pre.config;
    if cfg.paused {
        Err(ErrorView::ContractPaused)
    } else if amount.amount == 0 {
        Err(ErrorView::InvalidAmount)
    } else if timelock <= now + cfg.min_timelock_duration || timelock >= now
        + cfg.max_timelock_duration {
        Err(
            ErrorView::InvalidTimelock {
                min: cfg.min_timelock_duration,
                max: cfg.max_timelock_duration,
            },
        )
    } else if !valid_hashlock(hashlock) {
        Err(ErrorView::InvalidHashlock)
    } else {
        let deposit = first_matching_amount(funds, amount.denom);
        if deposit < cfg.minimum_safety_deposit {
            Err(ErrorView::SafetyDepositTooLow { minimum: cfg.minimum_safety_deposit })
        } else {
            let id = swap_id_chars(sender, participant, hashlock, timelock, height);
            if contains_id(pre.swaps, id) {
                Err(ErrorView::SwapAlreadyExists { swap_id: id })
            } else {
                let swap = SwapView {
                    swap_id: id,
                    initiator: sender,
                    participant,
                    amount,
                    hashlock,
                    timelock,
                    state: SwapState::Initiated,
                    secret: None,
                    ethereum_recipient,
                    ethereum_chain_id,
                    created_at: now,
                    completed_at: None,
                    safety_deposit: deposit,
                };
                Ok(
                    Step {
                        state: HtlcView {
                            config: pre.config,
                            swaps: insert_sorted(pre.swaps, swap),
                            stats: StatsView {
                                total_swaps: (pre.stats.total_swaps + 1) as u64,
                                completed_swaps: pre.stats.completed_swaps,
                                refunded_swaps: pre.stats.refunded_swaps,
                                total_volume: add_volume(pre.stats.total_volume, amount),
                            },
                        },
                        response: ResponseView { messages: Seq::empty(), swap_id: Some(id) },
                    },
                )
            }
        }
    }
}

/// The transition of complete.
pub open spec fn complete_spec(
    pre: HtlcView,
    now: u64,
    sender: Seq<char>,
    swap_id: Seq<char>,
    secret: Seq<char>,
) -> Result<Step, ErrorView> {
    if pre.config.paused {
        Err(ErrorView::ContractPaused)
    } else {
        match find_swap(pre.swaps, swap_id) {
            None => Err(ErrorView::SwapNotFound { swap_id }),
            Some(s) => {
                if sender != s.participant {
                    Err(ErrorView::OnlyParticipant)
                } else if s.state is Completed {
                    Err(ErrorView::SwapAlreadyCompleted)
                } else if s.state is Refunded {
                    Err(ErrorView::SwapAlreadyRefunded)
                } else if now >= s.timelock {
                    Err(ErrorView::SwapExpired { current_time: now, expiry: s.timelock })
                } else if !secret_matches(s.hashlock, secret) {
                    Err(
                        ErrorView::InvalidSecret {
                            expected: s.hashlock,
                            actual: hex_chars_of(sha256_of(encode_utf8(secret))),
                        },
                    )
                } else {
                    let done = SwapView {
                        state: SwapState::Completed,
                        secret: Some(secret),
                        completed_at: Some(now),
                        ..s
                    };
                    Ok(
                        Step {
                            state: HtlcView {
                                config: pre.config,
                                swaps: set_swap(pre.swaps, swap_id, done),
                                stats: StatsView {
                                    completed_swaps: (pre.stats.completed_swaps + 1) as u64,
                                    ..pre.stats
                                },
                            },
                            response: ResponseView {
                                messages: payout(s, s.participant),
                                swap_id: None,
                            },
                        },
                    )
                }
            },
        }
    }
}

/// The shared terminal-refund step: the record moves to `Refunded`, the
/// refund counter grows, and both payouts go to the initiator.
pub open spec fn refund_step(pre: HtlcView, now: u64, s: SwapView, swap_id: Seq<char>) -> Step {
    let done = SwapView { state: SwapState::Refunded, completed_at: Some(now), ..s };
    Step {
        state: HtlcView {
            config: pre.config,
            swaps: set_swap(pre.swaps, swap_id, done),
            stats: StatsView { refunded_swaps: (pre.stats.refunded_swaps + 1) as u64, ..pre.stats },
        },
        response: ResponseView { messages: payout(s, s.initiator), swap_id: None },
    }
}

/// The transition of refund.
pub open spec fn refund_spec(
    pre: HtlcView,
    now: u64,
    sender: Seq<char>,
    swap_id: Seq<char>,
) -> Result<Step, ErrorView> {
    if pre.config.paused {
        Err(ErrorView::ContractPaused)
    } else {
        match find_swap(pre.swaps, swap_id) {
            None => Err(ErrorView::SwapNotFound { swap_id }),
            Some(s) => {
                if sender != s.initiator {
                    Err(ErrorView::OnlyInitiator)
                } else if s.state is Completed {
                    Err(ErrorView::SwapAlreadyCompleted)
                } else if s.state is Refunded {
                    Err(ErrorView::SwapAlreadyRefunded)
                } else if now < s.timelock {
                    Err(ErrorView::SwapNotExpired { current_time: now, expiry: s.timelock })
                } else {
                    Ok(refund_step(pre, now, s, swap_id))
                }
            },
        }
    }
}

/// The transition of emergency refund: admin only, indifferent to the
/// pause flag, and with no timelock check.
pub open spec fn emergency_refund_spec(
    pre: HtlcView,
    now: u64,
    sender: Seq<char>,
    swap_id: Seq<char>,
) -> Result<Step, ErrorView> {
    if sender != pre.config.admin {
        Err(ErrorView::Unauthorized)
    } else {
        match find_swap(pre.swaps, swap_id) {
            None => Err(ErrorView::SwapNotFound { swap_id }),
            Some(s) => {
                if s.state is Completed {
                    Err(ErrorView::SwapAlreadyCompleted)
                } else if s.state is Refunded {
                    Err(ErrorView::SwapAlreadyRefunded)
                } else {
                    Ok(refund_step(pre, now, s, swap_id))
                }
            },
        }
    }
}

/// The transition of update-config: admin only; each supplied field
/// overwrites its parameter, absent fields stay; no validation is applied
/// to the new values.
pub open spec fn update_config_spec(
    pre: HtlcView,
    sender: Seq<char>,
    admin: Option<Seq<char>>,
    minimum_safety_deposit: Option<u128>,
    min_timelock_duration: Option<u64>,
    max_timelock_duration: Option<u64>,
    paused: Option<bool>,
) -> Result<Step, ErrorView> {
    if sender != pre.config.admin {
        Err(ErrorView::Unauthorized)
    } else {
        Ok(
            Step {
                state: HtlcView {
                    config: crate::state::ConfigView {
                        admin: match admin {
                            Some(a) => a,
                            None => pre.config.admin,
                        },
                        minimum_safety_deposit: match minimum_safety_deposit {
                            Some(d) => d,
                            None => pre.config.minimum_safety_deposit,
                        },
                        min_timelock_duration: match min_timelock_duration {
                            Some(d) => d,
                            None => pre.config.min_timelock_duration,
                        },
                        max_timelock_duration: match max_timelock_duration {
                            Some(d) => d,
                            None => pre.config.max_timelock_duration,
                        },
                        paused: match paused {
                            Some(p) => p,
                            None => pre.config.paused,
                        },
                    },
                    swaps: pre.swaps,
                    stats: pre.stats,
                },
                response: ResponseView { messages: Seq::empty(), swap_id: None },
            },
        )
    }
}

/// If entry `i` is the first one under `id`, lookup returns it.
pub proof fn lemma_find_swap_at(swaps: Seq<SwapView>, id: Seq<char>, i: int)
    requires
        0 <= i < swaps.len(),
        swaps[i].swap_id == id,
        forall|j: int| 0 <= j < i ==> (#[trigger] swaps[j].swap_id) != id,
    ensures
        find_swap(swaps, id) == Some(swaps[i]),
    decreases i,
{
    if i > 0 {
        assert forall|j: int| 0 <= j < i - 1 implies (#[trigger] swaps.drop_first()[j].swap_id)
            != id by {
            assert(swaps.drop_first()[j] == swaps[j + 1]);
        }
        assert(swaps.drop_first()[i - 1] == swaps[i]);
        lemma_find_swap_at(swaps.drop_first(), id, i - 1);
    }
}

pub proof fn lemma_find_swap_none(swaps: Seq<SwapView>, id: Seq<char>)
    requires
        forall|j: int| 0 <= j < swaps.len() ==> (#[trigger] swaps[j].swap_id) != id,
    ensures
        find_swap(swaps, id) is None,
    decreases swaps.len(),
{
    if swaps.len() > 0 {
        assert forall|j: int|
            0 <= j < swaps.drop_first().len() implies (#[trigger] swaps.drop_first()[j].swap_id)
            != id by {
            assert(swaps.drop_first()[j] == swaps[j + 1]);
        }
        lemma_find_swap_none(swaps.drop_first(), id);
    }
}

/// If entry `i` is the first one under `id`, replacement updates it.
pub proof fn lemma_set_swap_at(swaps: Seq<SwapView>, id: Seq<char>, s: SwapView, i: int)
    requires
        0 <= i < swaps.len(),
        swaps[i].swap_id == id,
        forall|j: int| 0 <= j < i ==> (#[trigger] swaps[j].swap_id) != id,
    ensures
        set_swap(swaps, id, s) == swaps.update(i, s),
    decreases i,
{
    if i == 0 {
        assert(set_swap(swaps, id, s) =~= swaps.update(0, s));
    } else {
        assert forall|j: int| 0 <= j < i - 1 implies (#[trigger] swaps.drop_first()[j].swap_id)
            != id by {
            assert(swaps.drop_first()[j] == swaps[j + 1]);
        }
        assert(swaps.drop_first()[i - 1] == swaps[i]);
        lemma_set_swap_at(swaps.drop_first(), id, s, i - 1);
        assert(set_swap(swaps, id, s) =~= swaps.update(i, s));
    }
}

/// If position `i` is the sorted position of `s`, insertion puts it there.
pub proof fn lemma_insert_sorted_at(swaps: Seq<SwapView>, s: SwapView, i: int)
    requires
        0 <= i <= swaps.len(),
        forall|j: int| 0 <= j < i ==> str_lt(#[trigger] swaps[j].swap_id, s.swap_id),
        i < swaps.len() ==> str_lt(s.swap_id, swaps[i].swap_id),
        ledger_sorted(swaps),
    ensures
        insert_sorted(swaps, s) == swaps.insert(i, s),
    decreases i,
{
    if swaps.len() == 0 {
        assert(insert_sorted(swaps, s) =~= swaps.insert(0, s));
    } else if i == 0 {
        crate::order::lemma_str_lt_irrefl(s.swap_id);
        assert(insert_sorted(swaps, s) =~= swaps.insert(0, s));
    } else {
        assert forall|j: int| 0 <= j < i - 1 implies str_lt(
            #[trigger] swaps.drop_first()[j].swap_id,
            s.swap_id,
        ) by {
            assert(swaps.drop_first()[j] == swaps[j + 1]);
        }
        if i - 1 < swaps.drop_first().len() {
            assert(swaps.drop_first()[i - 1] == swaps[i]);
        }
        assert forall|a: int, b: int| 0 <= a < b < swaps.drop_first().len() implies str_lt(
            #[trigger] swaps.drop_first()[a].swap_id,
            #[trigger] swaps.drop_first()[b].swap_id,
        ) by {
            assert(swaps.drop_first()[a] == swaps[a + 1]);
            assert(swaps.drop_first()[b] == swaps[b + 1]);
        }
        if str_lt(s.swap_id, swaps[0].swap_id) {
            crate::order::lemma_str_lt_trans(s.swap_id, swaps[0].swap_id, s.swap_id);
            crate::order::lemma_str_lt_irrefl(s.swap_id);
        }
        lemma_insert_sorted_at(swaps.drop_first(), s, i - 1);
        assert(insert_sorted(swaps, s) =~= swaps.insert(i, s));
    }
}

/// Inserting at the sorted position keeps the ledger sorted.
pub proof fn lemma_sorted_insert(swaps: Seq<SwapView>, s: SwapView, i: int)
    requires
        0 <= i <= swaps.len(),
        forall|j: int| 0 <= j < i ==> str_lt(#[trigger] swaps[j].swap_id, s.swap_id),
        i < swaps.len() ==> str_lt(s.swap_id, swaps[i].swap_id),
        ledger_sorted(swaps),
    ensures
        ledger_sorted(swaps.insert(i, s)),
{
    let out = swaps.insert(i, s);
    assert forall|a: int, b: int| 0 <= a < b < out.len() implies str_lt(
        #[trigger] out[a].swap_id,
        #[trigger] out[b].swap_id,
    ) by {
        if a < i && b == i {
        } else if a == i && b > i {
            if b - 1 > i {
                crate::order::lemma_str_lt_trans(s.swap_id, swaps[i].swap_id, out[b].swap_id);
            }
        } else if a < i && b > i {
        } else {
        }
    }
}

/// Replacing a record with one under the same identifier keeps the ledger
/// sorted.
pub proof fn lemma_sorted_update_same_id(swaps: Seq<SwapView>, i: int, s: SwapView)
    requires
        0 <= i < swaps.len(),
        s.swap_id == swaps[i].swap_id,
        ledger_sorted(swaps),
    ensures
        ledger_sorted(swaps.update(i, s)),
{
    let out = swaps.update(i, s);
    assert forall|a: int, b: int| 0 <= a < b < out.len() implies str_lt(
        #[trigger] out[a].swap_id,
        #[trigger] out[b].swap_id,
    ) by {
        assert(str_lt(swaps[a].swap_id, swaps[b].swap_id));
    }
}

/// If the first `i` attached coins are of other denominations and coin
/// `i` matches, the deposit is that coin's amount.
pub proof fn lemma_first_matching_at(funds: Seq<CoinView>, denom: Seq<char>, i: int)
    requires
        0 <= i < funds.len(),
        funds[i].denom == denom,
        forall|j: int| 0 <= j < i ==> (#[trigger] funds[j].denom) != denom,
    ensures
        first_matching_amount(funds, denom) == funds[i].amount,
    decreases i,
{
    if i > 0 {
        assert forall|j: int| 0 <= j < i - 1 implies (#[trigger] funds.drop_first()[j].denom)
            != denom by {
            assert(funds.drop_first()[j] == funds[j + 1]);
        }
        assert(funds.drop_first()[i - 1] == funds[i]);
        lemma_first_matching_at(funds.drop_first(), denom, i - 1);
    }
}

pub proof fn lemma_first_matching_none(funds: Seq<CoinView>, denom: Seq<char>)
    requires
        forall|j: int| 0 <= j < funds.len() ==> (#[trigger] funds[j].denom) != denom,
    ensures
        first_matching_amount(funds, denom) == 0,
    decreases funds.len(),
{
    if funds.len() > 0 {
        assert forall|j: int|
            0 <= j < funds.drop_first().len() implies (#[trigger] funds.drop_first()[j].denom)
            != denom by {
            assert(funds.drop_first()[j] == funds[j + 1]);
        }
        lemma_first_matching_none(funds.drop_first(), denom);
    }
}

/// Which secondary view a listing goes through.
#[derive(Clone, Copy, Debug)]
pub enum SwapKey {
    Initiator,
    Participant,
    Hashlock,
}

/// The key a listing matches a record against.
pub open spec fn key_of(s: SwapView, k: SwapKey) -> Seq<char> {
    match k {
        SwapKey::Initiator => s.initiator,
        SwapKey::Participant => s.participant,
        SwapKey::Hashlock => s.hashlock,
    }
}

/// Whether a record's identifier lies strictly after the cursor.
pub open spec fn after_cursor(start: Option<Seq<char>>, id: Seq<char>) -> bool {
    match start {
        None => true,
        Some(c) => str_lt(c, id),
    }
}

/// The records a listing may report: matching key, after the cursor.
pub open spec fn list_pred(k: SwapKey, key: Seq<char>, start: Option<Seq<char>>) -> spec_fn(
    SwapView,
) -> bool {
    |s: SwapView| key_of(s, k) == key && after_cursor(start, s.swap_id)
}

/// The page size: the requested limit, ten by default, capped at thirty.
pub open spec fn eff_limit(limit: Option<u32>) -> int {
    let l = match limit {
        Some(l) => l as int,
        None => 10,
    };
    if l < 30 {
        l
    } else {
        30
    }
}

/// The first `n` elements, or all of them when fewer.
pub open spec fn take_up_to<A>(s: Seq<A>, n: int) -> Seq<A> {
    if s.len() <= n {
        s
    } else {
        s.take(n)
    }
}

/// What a listing reports: the matching records in ledger order, up to
/// the page size.
pub open spec fn listed_swaps(
    swaps: Seq<SwapView>,
    k: SwapKey,
    key: Seq<char>,
    start: Option<Seq<char>>,
    limit: Option<u32>,
) -> Seq<SwapView> {
    take_up_to(swaps.filter(list_pred(k, key, start)), eff_limit(limit))
}

/// Appending one element to a sequence extends its filtered view by that
/// element exactly when the element matches.
pub proof fn lemma_filter_push<A>(s: Seq<A>, p: spec_fn(A) -> bool, x: A)
    ensures
        s.push(x).filter(p) == if p(x) {
            s.filter(p).push(x)
        } else {
            s.filter(p)
        },
{
    reveal_with_fuel(Seq::filter, 2);
    assert(s.push(x).drop_last() =~= s);
    assert(s.push(x).last() == x);
}

} // verus!
