//! The engine's global guarantees, stated over the transition functions
//! of `model` and proved once and for all.  Every executable operation is
//! proved to agree with its transition function, so these laws carry over
//! to the running engine.

use crate::crypto::{secret_matches, sha256_of};
use crate::error::ErrorView;
use crate::hexstr::hex_chars_of;
use crate::model::{
    SwapKey, Step, complete_spec, emergency_refund_spec, find_swap, initiate_spec, list_pred,
    listed_swaps, refund_spec, set_swap,
};
use crate::order::str_lt;
use crate::state::{
    CoinView, HtlcView, SwapState, SwapView, htlc_wf, ledger_sorted, lemma_add_volume_other,
    lemma_add_volume_same, volume_of,
};
use vstd::prelude::*;
use vstd::utf8::encode_utf8;

verus! {

/// No double transition: once a swap has left the `Initiated` state,
/// every further complete, refund or emergency refund is rejected — and
/// the caller in the proper role, on an unpaused engine, is told exactly
/// which terminal state the swap already reached.  Since a rejected call
/// leaves the state unchanged, the record never changes again.
pub proof fn lemma_no_double_transition(
    v: HtlcView,
    now: u64,
    sender: Seq<char>,
    swap_id: Seq<char>,
    secret: Seq<char>,
    s: SwapView,
)
    requires
        find_swap(v.swaps, swap_id) == Some(s),
        !(s.state is Initiated),
    ensures
        complete_spec(v, now, sender, swap_id, secret) is Err,
        refund_spec(v, now, sender, swap_id) is Err,
        emergency_refund_spec(v, now, sender, swap_id) is Err,
        !v.config.paused && sender == s.participant ==> complete_spec(
            v,
            now,
            sender,
            swap_id,
            secret,
        ) == Err::<Step, ErrorView>(
            if s.state is Completed {
                ErrorView::SwapAlreadyCompleted
            } else {
                ErrorView::SwapAlreadyRefunded
            },
        ),
        !v.config.paused && sender == s.initiator ==> refund_spec(v, now, sender, swap_id)
            == Err::<Step, ErrorView>(
            if s.state is Completed {
                ErrorView::SwapAlreadyCompleted
            } else {
                ErrorView::SwapAlreadyRefunded
            },
        ),
        sender == v.config.admin ==> emergency_refund_spec(v, now, sender, swap_id) == Err::<
            Step,
            ErrorView,
        >(
            if s.state is Completed {
                ErrorView::SwapAlreadyCompleted
            } else {
                ErrorView::SwapAlreadyRefunded
            },
        ),
{
}

/// Role enforcement: on an unpaused engine, complete called by anyone but
/// the participant fails with exactly `OnlyParticipant`, whatever the
/// secret; refund called by anyone but the initiator fails with exactly
/// `OnlyInitiator`, whatever the time.
pub proof fn lemma_role_enforcement(
    v: HtlcView,
    now: u64,
    sender: Seq<char>,
    swap_id: Seq<char>,
    secret: Seq<char>,
    s: SwapView,
)
    requires
        !v.config.paused,
        find_swap(v.swaps, swap_id) == Some(s),
    ensures
        sender != s.participant ==> complete_spec(v, now, sender, swap_id, secret) == Err::<
            Step,
            ErrorView,
        >(ErrorView::OnlyParticipant),
        sender != s.initiator ==> refund_spec(v, now, sender, swap_id) == Err::<Step, ErrorView>(
            ErrorView::OnlyInitiator,
        ),
{
}

/// Timelock boundary: completion at the timelock itself is already
/// expired, one second before it succeeds with a correct secret; refund
/// one second before the timelock is premature, at the timelock it
/// succeeds.
pub proof fn lemma_timelock_boundary(
    v: HtlcView,
    sender: Seq<char>,
    swap_id: Seq<char>,
    secret: Seq<char>,
    s: SwapView,
)
    requires
        !v.config.paused,
        find_swap(v.swaps, swap_id) == Some(s),
        s.state is Initiated,
    ensures
        sender == s.participant ==> complete_spec(v, s.timelock, sender, swap_id, secret)
            == Err::<Step, ErrorView>(
            ErrorView::SwapExpired { current_time: s.timelock, expiry: s.timelock },
        ),
        sender == s.participant && s.timelock >= 1 && secret_matches(s.hashlock, secret)
            ==> complete_spec(v, (s.timelock - 1) as u64, sender, swap_id, secret) is Ok,
        sender == s.initiator && s.timelock >= 1 ==> refund_spec(
            v,
            (s.timelock - 1) as u64,
            sender,
            swap_id,
        ) == Err::<Step, ErrorView>(
            ErrorView::SwapNotExpired {
                current_time: (s.timelock - 1) as u64,
                expiry: s.timelock,
            },
        ),
        sender == s.initiator ==> refund_spec(v, s.timelock, sender, swap_id) is Ok,
{
}

/// Hash binding: with every other precondition met, completion succeeds
/// exactly when the SHA-256 digest of the revealed secret equals the
/// stored hashlock, compared as hex without regard to case; any other
/// secret fails with `InvalidSecret`, which carries both hashes.
pub proof fn lemma_hash_binding(
    v: HtlcView,
    now: u64,
    sender: Seq<char>,
    swap_id: Seq<char>,
    secret: Seq<char>,
    s: SwapView,
)
    requires
        !v.config.paused,
        find_swap(v.swaps, swap_id) == Some(s),
        s.state is Initiated,
        sender == s.participant,
        now < s.timelock,
    ensures
        complete_spec(v, now, sender, swap_id, secret) is Ok <==> secret_matches(
            s.hashlock,
            secret,
        ),
        !secret_matches(s.hashlock, secret) ==> complete_spec(v, now, sender, swap_id, secret)
            == Err::<Step, ErrorView>(
            ErrorView::InvalidSecret {
                expected: s.hashlock,
                actual: hex_chars_of(sha256_of(encode_utf8(secret))),
            },
        ),
{
}

/// Exactly one record per identifier: the ledger keeps its records
/// strictly ordered, so no two of them can share an identifier.
pub proof fn lemma_identifiers_unique(v: HtlcView)
    requires
        htlc_wf(v),
    ensures
        forall|i: int, j: int|
            0 <= i < j < v.swaps.len() ==> (#[trigger] v.swaps[i].swap_id) != (
            #[trigger] v.swaps[j].swap_id),
{
    assert forall|i: int, j: int|
        0 <= i < j < v.swaps.len() implies (#[trigger] v.swaps[i].swap_id) != (
    #[trigger] v.swaps[j].swap_id) by {
        if v.swaps[i].swap_id == v.swaps[j].swap_id {
            crate::order::lemma_str_lt_irrefl(v.swaps[i].swap_id);
        }
    }
}

/// A successful completion stores the revealed secret on the record it
/// closes, and only a secret whose digest matches the stored hashlock is
/// ever stored: the record moves to `Completed` with exactly that secret
/// and the completion time, and no other record changes.
pub proof fn lemma_completed_secret_binding(
    v: HtlcView,
    now: u64,
    sender: Seq<char>,
    swap_id: Seq<char>,
    secret: Seq<char>,
    s: SwapView,
)
    requires
        find_swap(v.swaps, swap_id) == Some(s),
        complete_spec(v, now, sender, swap_id, secret) is Ok,
    ensures
        secret_matches(s.hashlock, secret),
        ({
            let st = complete_spec(v, now, sender, swap_id, secret)->Ok_0;
            st.state.swaps == set_swap(
                v.swaps,
                swap_id,
                SwapView {
                    state: SwapState::Completed,
                    secret: Some(secret),
                    completed_at: Some(now),
                    ..s
                },
            )
        }),
{
}

/// Every element of a filtered sequence comes from the sequence.
proof fn lemma_filter_subset<A>(s: Seq<A>, p: spec_fn(A) -> bool)
    ensures
        forall|k: int| 0 <= k < s.filter(p).len() ==> s.contains(#[trigger] s.filter(p)[k]),
    decreases s.len(),
{
    reveal_with_fuel(Seq::filter, 2);
    if s.len() > 0 {
        lemma_filter_subset(s.drop_last(), p);
        assert forall|k: int| 0 <= k < s.filter(p).len() implies s.contains(
            #[trigger] s.filter(p)[k],
        ) by {
            let fl = s.filter(p);
            let dl = s.drop_last().filter(p);
            if k < dl.len() {
                assert(fl[k] == dl[k]);
                let j = choose|j: int| 0 <= j < s.drop_last().len() && s.drop_last()[j] == dl[k];
                assert(s[j] == dl[k]);
            } else {
                assert(fl[k] == s.last());
                assert(s[s.len() - 1] == s.last());
            }
        }
    }
}

/// A filter of a sorted ledger is sorted.
proof fn lemma_filter_sorted(s: Seq<SwapView>, p: spec_fn(SwapView) -> bool)
    requires
        ledger_sorted(s),
    ensures
        ledger_sorted(s.filter(p)),
    decreases s.len(),
{
    reveal_with_fuel(Seq::filter, 2);
    if s.len() > 0 {
        assert forall|a: int, b: int| 0 <= a < b < s.drop_last().len() implies str_lt(
            #[trigger] s.drop_last()[a].swap_id,
            #[trigger] s.drop_last()[b].swap_id,
        ) by {
            assert(s.drop_last()[a] == s[a]);
            assert(s.drop_last()[b] == s[b]);
        }
        lemma_filter_sorted(s.drop_last(), p);
        lemma_filter_subset(s.drop_last(), p);
        let fl = s.filter(p);
        let dl = s.drop_last().filter(p);
        assert forall|a: int, b: int| 0 <= a < b < fl.len() implies str_lt(
            #[trigger] fl[a].swap_id,
            #[trigger] fl[b].swap_id,
        ) by {
            if p(s.last()) && b == fl.len() - 1 && fl.len() == dl.len() + 1 {
                assert(fl[a] == dl[a]);
                assert(s.drop_last().contains(dl[a]));
                let j = choose|j: int|
                    0 <= j < s.drop_last().len() && s.drop_last()[j] == dl[a];
                assert(s[j] == dl[a]);
                assert(str_lt(s[j].swap_id, s[s.len() - 1].swap_id));
            } else {
                assert(fl[a] == dl[a]);
                assert(fl[b] == dl[b]);
            }
        }
    }
}

/// Index consistency: for any identity, the unpaginated listing by
/// initiator contains exactly the ledger records that identity opened, in
/// strictly ascending identifier order.  Taking the union over all
/// initiators therefore recovers the whole ledger, each record reported
/// under its own initiator and no other.
pub proof fn lemma_index_consistency(v: HtlcView, who: Seq<char>)
    requires
        htlc_wf(v),
    ensures
        ({
            let listed = v.swaps.filter(list_pred(SwapKey::Initiator, who, None));
            &&& forall|k: int|
                0 <= k < listed.len() ==> (#[trigger] listed[k]).initiator == who && v.swaps.contains(
                    listed[k],
                )
            &&& forall|j: int|
                0 <= j < v.swaps.len() && (#[trigger] v.swaps[j]).initiator == who
                    ==> listed.contains(v.swaps[j])
            &&& forall|a: int, b: int|
                0 <= a < b < listed.len() ==> str_lt(
                    #[trigger] listed[a].swap_id,
                    #[trigger] listed[b].swap_id,
                )
        }),
{
    let p = list_pred(SwapKey::Initiator, who, None);
    let listed = v.swaps.filter(p);
    lemma_filter_subset(v.swaps, p);
    lemma_filter_sorted(v.swaps, p);
    assert forall|k: int| 0 <= k < listed.len() implies (#[trigger] listed[k]).initiator == who
        && v.swaps.contains(listed[k]) by {
        v.swaps.lemma_filter_pred(p, k);
    }
    assert forall|j: int|
        0 <= j < v.swaps.len() && (#[trigger] v.swaps[j]).initiator == who implies listed.contains(
        v.swaps[j],
    ) by {
        assert(p(v.swaps[j]));
        v.swaps.lemma_filter_contains(p, j);
    }
}

/// A listing never reports more than its page size: the requested limit,
/// ten by default, and never more than thirty, whatever the ledger holds.
pub proof fn lemma_listing_bounded(
    swaps: Seq<SwapView>,
    k: SwapKey,
    key: Seq<char>,
    start: Option<Seq<char>>,
    limit: Option<u32>,
)
    ensures
        listed_swaps(swaps, k, key, start, limit).len() <= 30,
        limit matches Some(l) ==> (l <= 30 ==> listed_swaps(swaps, k, key, start, limit).len()
            <= l),
{
}

/// Volume accounting: a successful initiate adds exactly the principal to
/// its denomination's running total and leaves every other denomination
/// unchanged.
pub proof fn lemma_volume_accounting(
    v: HtlcView,
    now: u64,
    height: u64,
    sender: Seq<char>,
    funds: Seq<CoinView>,
    participant: Seq<char>,
    amount: CoinView,
    hashlock: Seq<char>,
    timelock: u64,
    ethereum_recipient: Seq<char>,
    ethereum_chain_id: Seq<char>,
    st: Step,
)
    requires
        initiate_spec(
            v,
            now,
            height,
            sender,
            funds,
            participant,
            amount,
            hashlock,
            timelock,
            ethereum_recipient,
            ethereum_chain_id,
        ) == Ok::<Step, ErrorView>(st),
        volume_of(v.stats.total_volume, amount.denom) + amount.amount <= u128::MAX,
    ensures
        volume_of(st.state.stats.total_volume, amount.denom) == volume_of(
            v.stats.total_volume,
            amount.denom,
        ) + amount.amount,
        forall|d: Seq<char>|
            d != amount.denom ==> volume_of(#[trigger] st.state.stats.total_volume, d)
                == volume_of(v.stats.total_volume, d),
{
    lemma_add_volume_same(v.stats.total_volume, amount);
    assert forall|d: Seq<char>| d != amount.denom implies volume_of(
        #[trigger] st.state.stats.total_volume,
        d,
    ) == volume_of(v.stats.total_volume, d) by {
        lemma_add_volume_other(v.stats.total_volume, amount, d);
    }
}

/// The running volume is an audit trail: no terminal transition ever
/// changes it, nor the total count of swaps.
pub proof fn lemma_volume_unchanged_by_settlement(
    v: HtlcView,
    now: u64,
    sender: Seq<char>,
    swap_id: Seq<char>,
    secret: Seq<char>,
)
    ensures
        complete_spec(v, now, sender, swap_id, secret) matches Ok(st)
            ==> st.state.stats.total_volume == v.stats.total_volume && st.state.stats.total_swaps
            == v.stats.total_swaps,
        refund_spec(v, now, sender, swap_id) matches Ok(st) ==> st.state.stats.total_volume
            == v.stats.total_volume && st.state.stats.total_swaps == v.stats.total_swaps,
        emergency_refund_spec(v, now, sender, swap_id) matches Ok(st)
            ==> st.state.stats.total_volume == v.stats.total_volume && st.state.stats.total_swaps
            == v.stats.total_swaps,
{
}

/// The administrative override: the admin may force a refund of a live
/// swap at any time, whether or not the engine is paused and whether or
/// not the timelock has elapsed; anyone else is turned away with
/// `Unauthorized` before anything is examined.
pub proof fn lemma_emergency_override(
    v: HtlcView,
    now: u64,
    sender: Seq<char>,
    swap_id: Seq<char>,
    s: SwapView,
)
    requires
        find_swap(v.swaps, swap_id) == Some(s),
        s.state is Initiated,
    ensures
        sender == v.config.admin ==> emergency_refund_spec(v, now, sender, swap_id) is Ok,
        sender != v.config.admin ==> emergency_refund_spec(v, now, sender, swap_id) == Err::<
            Step,
            ErrorView,
        >(ErrorView::Unauthorized),
{
}

} // verus!

