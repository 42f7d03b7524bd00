//! The data model: configuration, swap records, statistics, and the engine
//! state with its well-formedness invariant.

use crate::hexstr::valid_hashlock;
use crate::order::str_lt;
use vstd::prelude::*;

verus! {

/// The lifecycle state of a swap.  `Initiated` is the only state from
/// which a transition is permitted; the other two are terminal.
#[derive(Clone, Copy, Debug, PartialEq, Eq, Structural)]
pub enum SwapState {
    Initiated,
    Completed,
    Refunded,
}

/// An amount of one denomination.
#[derive(Debug)]
pub struct Coin {
    pub denom: String,
    pub amount: u128,
}

#[verifier::ext_equal]
pub struct CoinView {
    pub denom: Seq<char>,
    pub amount: u128,
}

impl View for Coin {
    type V = CoinView;

    open spec fn view(&self) -> CoinView {
        CoinView { denom: self.denom@, amount: self.amount }
    }
}

/// Administrative parameters consulted by every operation.
#[derive(Debug)]
pub struct Config {
    pub admin: String,
    pub minimum_safety_deposit: u128,
    pub min_timelock_duration: u64,
    pub max_timelock_duration: u64,
    pub paused: bool,
}

#[verifier::ext_equal]
pub struct ConfigView {
    pub admin: Seq<char>,
    pub minimum_safety_deposit: u128,
    pub min_timelock_duration: u64,
    pub max_timelock_duration: u64,
    pub paused: bool,
}

impl View for Config {
    type V = ConfigView;

    open spec fn view(&self) -> ConfigView {
        ConfigView {
            admin: self.admin@,
            minimum_safety_deposit: self.minimum_safety_deposit,
            min_timelock_duration: self.min_timelock_duration,
            max_timelock_duration: self.max_timelock_duration,
            paused: self.paused,
        }
    }
}

/// One swap record.  Created by initiate, mutated only by the terminal
/// transitions, never deleted.
#[derive(Debug)]
pub struct AtomicSwap {
    pub swap_id: String,
    pub initiator: String,
    pub participant: String,
    pub amount: Coin,
    pub hashlock: String,
    pub timelock: u64,
    pub state: SwapState,
    pub secret: Option<String>,
    pub ethereum_recipient: String,
    pub ethereum_chain_id: String,
    pub created_at: u64,
    pub completed_at: Option<u64>,
    pub safety_deposit: u128,
}

#[verifier::ext_equal]
pub struct SwapView {
    pub swap_id: Seq<char>,
    pub initiator: Seq<char>,
    pub participant: Seq<char>,
    pub amount: CoinView,
    pub hashlock: Seq<char>,
    pub timelock: u64,
    pub state: SwapState,
    pub secret: Option<Seq<char>>,
    pub ethereum_recipient: Seq<char>,
    pub ethereum_chain_id: Seq<char>,
    pub created_at: u64,
    pub completed_at: Option<u64>,
    pub safety_deposit: u128,
}

impl View for AtomicSwap {
    type V = SwapView;

    open spec fn view(&self) -> SwapView {
        SwapView {
            swap_id: self.swap_id@,
            initiator: self.initiator@,
            participant: self.participant@,
            amount: self.amount@,
            hashlock: self.hashlock@,
            timelock: self.timelock,
            state: self.state,
            secret: match self.secret {
                Some(s) => Some(s@),
                None => None,
            },
            ethereum_recipient: self.ethereum_recipient@,
            ethereum_chain_id: self.ethereum_chain_id@,
            created_at: self.created_at,
            completed_at: self.completed_at,
            safety_deposit: self.safety_deposit,
        }
    }
}

/// Running counters and per-denomination volume totals.  Counters only
/// ever grow; the volume is never decremented by a terminal transition.
#[derive(Debug)]
pub struct SwapStats {
    pub total_swaps: u64,
    pub completed_swaps: u64,
    pub refunded_swaps: u64,
    pub total_volume: Vec<Coin>,
}

#[verifier::ext_equal]
pub struct StatsView {
    pub total_swaps: u64,
    pub completed_swaps: u64,
    pub refunded_swaps: u64,
    pub total_volume: Seq<CoinView>,
}

impl View for SwapStats {
    type V = StatsView;

    open spec fn view(&self) -> StatsView {
        StatsView {
            total_swaps: self.total_swaps,
            completed_swaps: self.completed_swaps,
            refunded_swaps: self.refunded_swaps,
            total_volume: coins_view(self.total_volume@),
        }
    }
}

/// The whole engine state: configuration, the ledger of swap records kept
/// sorted by identifier, and the statistics.
#[derive(Debug)]
pub struct Htlc {
    pub config: Config,
    pub swaps: Vec<AtomicSwap>,
    pub stats: SwapStats,
}

#[verifier::ext_equal]
pub struct HtlcView {
    pub config: ConfigView,
    pub swaps: Seq<SwapView>,
    pub stats: StatsView,
}

impl View for Htlc {
    type V = HtlcView;

    open spec fn view(&self) -> HtlcView {
        HtlcView {
            config: self.config@,
            swaps: self.swaps@.map_values(|s: AtomicSwap| s@),
            stats: self.stats@,
        }
    }
}

pub open spec fn coins_view(s: Seq<Coin>) -> Seq<CoinView> {
    s.map_values(|c: Coin| c@)
}

/// A well-formed swap record: a valid hashlock, a positive amount, and a
/// secret and completion time consistent with the lifecycle state.
pub open spec fn swap_wf(s: SwapView) -> bool {
    &&& valid_hashlock(s.hashlock)
    &&& s.amount.amount > 0
    &&& (s.state is Completed <==> s.secret is Some)
    &&& (s.state is Initiated <==> s.completed_at is None)
}

/// The ledger keeps records strictly sorted by identifier, so identifiers
/// are unique and listings come out in ascending order.
pub open spec fn ledger_sorted(swaps: Seq<SwapView>) -> bool {
    forall|i: int, j: int|
        0 <= i < j < swaps.len() ==> str_lt(
            #[trigger] swaps[i].swap_id,
            #[trigger] swaps[j].swap_id,
        )
}

/// How many records are in the given state.
pub open spec fn count_in_state(swaps: Seq<SwapView>, st: SwapState) -> nat
    decreases swaps.len(),
{
    if swaps.len() == 0 {
        0
    } else {
        count_in_state(swaps.drop_last(), st) + (if swaps.last().state == st {
            1nat
        } else {
            0nat
        })
    }
}

/// The summed principal of the records in one denomination.  Records are
/// never deleted, so this is the cumulative principal ever initiated.
pub open spec fn sum_for_denom(swaps: Seq<SwapView>, d: Seq<char>) -> int
    decreases swaps.len(),
{
    if swaps.len() == 0 {
        0
    } else {
        sum_for_denom(swaps.drop_last(), d) + (if swaps.last().amount.denom == d {
            swaps.last().amount.amount as int
        } else {
            0
        })
    }
}

/// The volume table records, for every denomination, exactly the summed
/// principal of the ledger's records in it.
pub open spec fn volume_matches_ledger(v: HtlcView) -> bool {
    forall|d: Seq<char>|
        volume_of(v.stats.total_volume, d) == #[trigger] sum_for_denom(v.swaps, d)
}

/// The statistics agree with the ledger: the total count is the number of
/// records, the outcome counters count the records in each terminal
/// state, and the volume table sums the principals per denomination.
pub open spec fn stats_wf(v: HtlcView) -> bool {
    &&& v.stats.total_swaps == v.swaps.len()
    &&& v.stats.completed_swaps == count_in_state(v.swaps, SwapState::Completed)
    &&& v.stats.refunded_swaps == count_in_state(v.swaps, SwapState::Refunded)
    &&& denoms_unique(v.stats.total_volume)
    &&& volume_matches_ledger(v)
}

pub proof fn lemma_sum_insert(swaps: Seq<SwapView>, s: SwapView, i: int, d: Seq<char>)
    requires
        0 <= i <= swaps.len(),
    ensures
        sum_for_denom(swaps.insert(i, s), d) == sum_for_denom(swaps, d) + (if s.amount.denom
            == d {
            s.amount.amount as int
        } else {
            0
        }),
    decreases swaps.len(),
{
    if i == swaps.len() {
        assert(swaps.insert(i, s).drop_last() =~= swaps);
    } else {
        assert(swaps.insert(i, s).drop_last() =~= swaps.drop_last().insert(i, s));
        assert(swaps.insert(i, s).last() == swaps.last());
        lemma_sum_insert(swaps.drop_last(), s, i, d);
    }
}

pub proof fn lemma_sum_update_amount_kept(swaps: Seq<SwapView>, s: SwapView, i: int, d: Seq<char>)
    requires
        0 <= i < swaps.len(),
        s.amount == swaps[i].amount,
    ensures
        sum_for_denom(swaps.update(i, s), d) == sum_for_denom(swaps, d),
    decreases swaps.len(),
{
    if i == swaps.len() - 1 {
        assert(swaps.update(i, s).drop_last() =~= swaps.drop_last());
        assert(swaps.update(i, s).last() == s);
    } else {
        assert(swaps.update(i, s).drop_last() =~= swaps.drop_last().update(i, s));
        assert(swaps.update(i, s).last() == swaps.last());
        lemma_sum_update_amount_kept(swaps.drop_last(), s, i, d);
    }
}

/// Well-formedness of the whole engine state.
pub open spec fn htlc_wf(v: HtlcView) -> bool {
    &&& ledger_sorted(v.swaps)
    &&& forall|i: int| 0 <= i < v.swaps.len() ==> swap_wf(#[trigger] v.swaps[i])
    &&& stats_wf(v)
}

pub proof fn lemma_count_push(swaps: Seq<SwapView>, st: SwapState, s: SwapView)
    ensures
        count_in_state(swaps.push(s), st) == count_in_state(swaps, st) + (if s.state == st {
            1nat
        } else {
            0nat
        }),
{
    assert(swaps.push(s).drop_last() =~= swaps);
}

pub proof fn lemma_count_insert(swaps: Seq<SwapView>, st: SwapState, s: SwapView, i: int)
    requires
        0 <= i <= swaps.len(),
    ensures
        count_in_state(swaps.insert(i, s), st) == count_in_state(swaps, st) + (if s.state == st {
            1nat
        } else {
            0nat
        }),
    decreases swaps.len(),
{
    if i == swaps.len() {
        assert(swaps.insert(i, s) =~= swaps.push(s));
        lemma_count_push(swaps, st, s);
    } else {
        assert(swaps.insert(i, s).drop_last() =~= swaps.drop_last().insert(i, s));
        assert(swaps.insert(i, s).last() == swaps.last());
        lemma_count_insert(swaps.drop_last(), st, s, i);
    }
}

pub proof fn lemma_count_update(swaps: Seq<SwapView>, st: SwapState, s: SwapView, i: int)
    requires
        0 <= i < swaps.len(),
    ensures
        count_in_state(swaps.update(i, s), st) + (if swaps[i].state == st {
            1nat
        } else {
            0nat
        }) == count_in_state(swaps, st) + (if s.state == st {
            1nat
        } else {
            0nat
        }),
    decreases swaps.len(),
{
    if i == swaps.len() - 1 {
        assert(swaps.update(i, s).drop_last() =~= swaps.drop_last());
        assert(swaps.update(i, s).last() == s);
    } else {
        assert(swaps.update(i, s).drop_last() =~= swaps.drop_last().update(i, s));
        assert(swaps.update(i, s).last() == swaps.last());
        lemma_count_update(swaps.drop_last(), st, s, i);
    }
}

pub proof fn lemma_count_le_len(swaps: Seq<SwapView>, st: SwapState)
    ensures
        count_in_state(swaps, st) <= swaps.len(),
    decreases swaps.len(),
{
    if swaps.len() > 0 {
        lemma_count_le_len(swaps.drop_last(), st);
    }
}

/// A record in another state keeps the count strictly below the length.
pub proof fn lemma_count_lt_len(swaps: Seq<SwapView>, st: SwapState, i: int)
    requires
        0 <= i < swaps.len(),
        swaps[i].state != st,
    ensures
        count_in_state(swaps, st) < swaps.len(),
    decreases swaps.len(),
{
    if i == swaps.len() - 1 {
        lemma_count_le_len(swaps.drop_last(), st);
    } else {
        lemma_count_lt_len(swaps.drop_last(), st, i);
    }
}

/// Every record is in exactly one of the three states, so the three
/// counts partition the ledger.
pub proof fn lemma_state_partition(swaps: Seq<SwapView>)
    ensures
        count_in_state(swaps, SwapState::Initiated) + count_in_state(swaps, SwapState::Completed)
            + count_in_state(swaps, SwapState::Refunded) == swaps.len(),
    decreases swaps.len(),
{
    if swaps.len() > 0 {
        lemma_state_partition(swaps.drop_last());
    }
}

/// Two different states never count one record twice.
pub proof fn lemma_two_counts_le_len(swaps: Seq<SwapView>, st1: SwapState, st2: SwapState)
    requires
        st1 != st2,
    ensures
        count_in_state(swaps, st1) + count_in_state(swaps, st2) <= swaps.len(),
    decreases swaps.len(),
{
    if swaps.len() > 0 {
        lemma_two_counts_le_len(swaps.drop_last(), st1, st2);
    }
}

/// Copies a volume table.
pub fn copy_volume(src: &Vec<Coin>) -> (r: Vec<Coin>)
    ensures
        coins_view(r@) == coins_view(src@),
{
    let mut out: Vec<Coin> = Vec::new();
    let n = src.len();
    let mut i: usize = 0;
    while i < n
        invariant
            0 <= i <= n,
            n == src@.len(),
            out@.len() == i,
            forall|k: int| 0 <= k < i ==> (#[trigger] out@[k])@ == src@[k]@,
        decreases n - i,
    {
        let c = Coin { denom: src[i].denom.clone(), amount: src[i].amount };
        proof {
            assert(c@ == src@[i as int]@);
        }
        out.push(c);
        i += 1;
    }
    proof {
        assert(coins_view(out@) =~= coins_view(src@));
    }
    out
}

/// No two entries of the volume table carry the same denomination.
pub open spec fn denoms_unique(vol: Seq<CoinView>) -> bool {
    forall|i: int, j: int|
        0 <= i < j < vol.len() ==> (#[trigger] vol[i].denom) != (#[trigger] vol[j].denom)
}

/// The cumulative volume recorded for a denomination; zero if the
/// denomination has no entry.
pub open spec fn volume_of(vol: Seq<CoinView>, denom: Seq<char>) -> u128
    decreases vol.len(),
{
    if vol.len() == 0 {
        0
    } else if vol[0].denom == denom {
        vol[0].amount
    } else {
        volume_of(vol.drop_first(), denom)
    }
}

/// The volume table after adding an amount: the entry of its denomination
/// grows, or a new entry is appended.
pub open spec fn add_volume(vol: Seq<CoinView>, c: CoinView) -> Seq<CoinView>
    decreases vol.len(),
{
    if vol.len() == 0 {
        seq![c]
    } else if vol[0].denom == c.denom {
        seq![CoinView { denom: vol[0].denom, amount: (vol[0].amount + c.amount) as u128 }]
            + vol.drop_first()
    } else {
        seq![vol[0]] + add_volume(vol.drop_first(), c)
    }
}

/// Whether some entry carries the denomination.
pub open spec fn has_denom(vol: Seq<CoinView>, denom: Seq<char>) -> bool {
    exists|k: int| 0 <= k < vol.len() && (#[trigger] vol[k].denom) == denom
}

pub proof fn lemma_add_volume_same(vol: Seq<CoinView>, c: CoinView)
    requires
        volume_of(vol, c.denom) + c.amount <= u128::MAX,
    ensures
        volume_of(add_volume(vol, c), c.denom) == volume_of(vol, c.denom) + c.amount,
    decreases vol.len(),
{
    if vol.len() > 0 && vol[0].denom != c.denom {
        lemma_add_volume_same(vol.drop_first(), c);
        assert((seq![vol[0]] + add_volume(vol.drop_first(), c)).drop_first() =~= add_volume(
            vol.drop_first(),
            c,
        ));
    }
}

pub proof fn lemma_add_volume_other(vol: Seq<CoinView>, c: CoinView, d: Seq<char>)
    requires
        d != c.denom,
    ensures
        volume_of(add_volume(vol, c), d) == volume_of(vol, d),
    decreases vol.len(),
{
    reveal_with_fuel(volume_of, 3);
    if vol.len() > 0 {
        if vol[0].denom == c.denom {
            let out = add_volume(vol, c);
            assert(out.drop_first() =~= vol.drop_first());
            assert(out[0].denom == vol[0].denom);
            assert(volume_of(out, d) == volume_of(out.drop_first(), d));
            assert(volume_of(vol, d) == volume_of(vol.drop_first(), d));
        } else {
            lemma_add_volume_other(vol.drop_first(), c, d);
            assert((seq![vol[0]] + add_volume(vol.drop_first(), c)).drop_first() =~= add_volume(
                vol.drop_first(),
                c,
            ));
        }
    } else {
        let out = add_volume(vol, c);
        assert(out[0].denom == c.denom);
        assert(out.drop_first() =~= Seq::<CoinView>::empty());
    }
}

proof fn lemma_add_volume_has(vol: Seq<CoinView>, c: CoinView, d: Seq<char>)
    ensures
        has_denom(add_volume(vol, c), d) == (has_denom(vol, d) || d == c.denom),
    decreases vol.len(),
{
    let out = add_volume(vol, c);
    if vol.len() == 0 {
        assert(out[0].denom == c.denom);
        if has_denom(out, d) {
            let k = choose|k: int| 0 <= k < out.len() && out[k].denom == d;
            assert(k == 0);
        }
        if d == c.denom {
            assert(out[0].denom == d);
        }
    } else if vol[0].denom == c.denom {
        assert(out.drop_first() =~= vol.drop_first());
        assert(out[0].denom == vol[0].denom);
        assert forall|k: int| 0 <= k < out.len() implies out[k].denom == vol[k].denom by {
            if k > 0 {
                assert(out[k] == out.drop_first()[k - 1]);
                assert(vol[k] == vol.drop_first()[k - 1]);
            }
        }
        if has_denom(out, d) {
            let k = choose|k: int| 0 <= k < out.len() && out[k].denom == d;
            assert(vol[k].denom == d);
        }
        if has_denom(vol, d) {
            let k = choose|k: int| 0 <= k < vol.len() && vol[k].denom == d;
            assert(out[k].denom == d);
        }
        if d == c.denom {
            assert(vol[0].denom == d);
        }
    } else {
        lemma_add_volume_has(vol.drop_first(), c, d);
        let rest = add_volume(vol.drop_first(), c);
        assert(out.drop_first() =~= rest);
        if has_denom(out, d) {
            let k = choose|k: int| 0 <= k < out.len() && out[k].denom == d;
            if k == 0 {
                assert(vol[0].denom == d);
            } else {
                assert(rest[k - 1].denom == d);
                if has_denom(vol.drop_first(), d) {
                    let m = choose|m: int|
                        0 <= m < vol.drop_first().len() && vol.drop_first()[m].denom == d;
                    assert(vol[m + 1].denom == d);
                }
            }
        }
        if has_denom(vol, d) {
            let k = choose|k: int| 0 <= k < vol.len() && vol[k].denom == d;
            if k == 0 {
                assert(out[0].denom == d);
            } else {
                assert(vol.drop_first()[k - 1].denom == d);
                assert(has_denom(rest, d));
                let m = choose|m: int| 0 <= m < rest.len() && rest[m].denom == d;
                assert(out[m + 1].denom == d);
            }
        }
        if d == c.denom {
            assert(has_denom(rest, d));
            let m = choose|m: int| 0 <= m < rest.len() && rest[m].denom == d;
            assert(out[m + 1].denom == d);
        }
    }
}

#[verifier::rlimit(50)]
pub proof fn lemma_add_volume_unique(vol: Seq<CoinView>, c: CoinView)
    requires
        denoms_unique(vol),
    ensures
        denoms_unique(add_volume(vol, c)),
    decreases vol.len(),
{
    let out = add_volume(vol, c);
    if vol.len() == 0 {
    } else if vol[0].denom == c.denom {
        assert(out.drop_first() =~= vol.drop_first());
        assert forall|i: int, j: int| 0 <= i < j < out.len() implies (#[trigger] out[i].denom)
            != (#[trigger] out[j].denom) by {
            assert(out[j] == vol[j]);
            if i > 0 {
                assert(out[i] == vol[i]);
            }
        }
    } else {
        assert forall|i: int, j: int|
            0 <= i < j < vol.drop_first().len() implies (#[trigger] vol.drop_first()[i].denom)
            != (#[trigger] vol.drop_first()[j].denom) by {
            assert(vol.drop_first()[i] == vol[i + 1]);
            assert(vol.drop_first()[j] == vol[j + 1]);
        }
        lemma_add_volume_unique(vol.drop_first(), c);
        let rest = add_volume(vol.drop_first(), c);
        assert(out.drop_first() =~= rest);
        assert(!has_denom(vol.drop_first(), vol[0].denom)) by {
            if has_denom(vol.drop_first(), vol[0].denom) {
                let m = choose|m: int|
                    0 <= m < vol.drop_first().len() && vol.drop_first()[m].denom == vol[0].denom;
                assert(vol[m + 1].denom == vol[0].denom);
            }
        }
        lemma_add_volume_has(vol.drop_first(), c, vol[0].denom);
        assert forall|i: int, j: int| 0 <= i < j < out.len() implies (#[trigger] out[i].denom)
            != (#[trigger] out[j].denom) by {
            if i == 0 {
                assert(out[j] == rest[j - 1]);
                if out[0].denom == rest[j - 1].denom {
                    assert(has_denom(rest, vol[0].denom));
                }
            } else {
                assert(out[i] == rest[i - 1]);
                assert(out[j] == rest[j - 1]);
            }
        }
    }
}

/// If the first `i` entries carry other denominations and entry `i`
/// carries this one, the recorded volume is that entry's amount.
pub proof fn lemma_volume_of_at(vol: Seq<CoinView>, d: Seq<char>, i: int)
    requires
        0 <= i < vol.len(),
        vol[i].denom == d,
        forall|j: int| 0 <= j < i ==> (#[trigger] vol[j].denom) != d,
    ensures
        volume_of(vol, d) == vol[i].amount,
    decreases i,
{
    if i > 0 {
        assert forall|j: int| 0 <= j < i - 1 implies (#[trigger] vol.drop_first()[j].denom)
            != d by {
            assert(vol.drop_first()[j] == vol[j + 1]);
        }
        assert(vol.drop_first()[i - 1] == vol[i]);
        lemma_volume_of_at(vol.drop_first(), d, i - 1);
    }
}


proof fn lemma_add_volume_at(vol: Seq<CoinView>, c: CoinView, i: int)
    requires
        0 <= i < vol.len(),
        vol[i].denom == c.denom,
        forall|j: int| 0 <= j < i ==> (#[trigger] vol[j].denom) != c.denom,
    ensures
        add_volume(vol, c) == vol.update(
            i,
            CoinView { denom: vol[i].denom, amount: (vol[i].amount + c.amount) as u128 },
        ),
    decreases i,
{
    if i == 0 {
        assert(add_volume(vol, c) =~= vol.update(
            0,
            CoinView { denom: vol[0].denom, amount: (vol[0].amount + c.amount) as u128 },
        ));
    } else {
        assert forall|j: int| 0 <= j < i - 1 implies (#[trigger] vol.drop_first()[j].denom)
            != c.denom by {
            assert(vol.drop_first()[j] == vol[j + 1]);
        }
        assert(vol.drop_first()[i - 1] == vol[i]);
        lemma_add_volume_at(vol.drop_first(), c, i - 1);
        assert(add_volume(vol, c) =~= vol.update(
            i,
            CoinView { denom: vol[i].denom, amount: (vol[i].amount + c.amount) as u128 },
        ));
    }
}

proof fn lemma_add_volume_push(vol: Seq<CoinView>, c: CoinView)
    requires
        forall|j: int| 0 <= j < vol.len() ==> (#[trigger] vol[j].denom) != c.denom,
    ensures
        add_volume(vol, c) == vol.push(c),
    decreases vol.len(),
{
    if vol.len() == 0 {
        assert(add_volume(vol, c) =~= vol.push(c));
    } else {
        assert forall|j: int| 0 <= j < vol.drop_first().len() implies (#[trigger] vol.drop_first()[j].denom)
            != c.denom by {
            assert(vol.drop_first()[j] == vol[j + 1]);
        }
        lemma_add_volume_push(vol.drop_first(), c);
        assert(add_volume(vol, c) =~= vol.push(c));
    }
}

/// Adds an amount to the per-denomination volume table, creating the entry
/// if it is absent.
pub fn add_to_volume(volume: &mut Vec<Coin>, amount: &Coin)
    requires
        volume_of(coins_view(old(volume)@), amount@.denom) + amount@.amount <= u128::MAX,
    ensures
        coins_view(final(volume)@) == add_volume(coins_view(old(volume)@), amount@),
{
    let n = volume.len();
    let mut i: usize = 0;
    while i < n
        invariant
            0 <= i <= n,
            volume@ == old(volume)@,
            n == volume@.len(),
            volume_of(coins_view(old(volume)@), amount@.denom) + amount@.amount <= u128::MAX,
            forall|j: int|
                0 <= j < i ==> (#[trigger] coins_view(old(volume)@)[j].denom) != amount@.denom,
        decreases n - i,
    {
        if volume[i].denom == amount.denom {
            proof {
                assert(coins_view(old(volume)@)[i as int].denom == amount@.denom);
                lemma_volume_of_at(coins_view(old(volume)@), amount@.denom, i as int);
                lemma_add_volume_at(coins_view(old(volume)@), amount@, i as int);
            }
            let summed = volume[i].amount + amount.amount;
            let denom_copy = volume[i].denom.clone();
            volume[i] = Coin { denom: denom_copy, amount: summed };
            proof {
                assert(coins_view(volume@) =~= add_volume(coins_view(old(volume)@), amount@));
            }
            return ;
        }
        proof {
            assert(coins_view(old(volume)@)[i as int].denom != amount@.denom);
        }
        i += 1;
    }
    proof {
        lemma_add_volume_push(coins_view(old(volume)@), amount@);
    }
    volume.push(Coin { denom: amount.denom.clone(), amount: amount.amount });
    proof {
        assert(coins_view(volume@) =~= add_volume(coins_view(old(volume)@), amount@));
    }
}

} // verus!
