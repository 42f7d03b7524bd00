//! The request and response surface of the engine: operation messages,
//! query messages, responses, and the transfer instructions an operation
//! emits for the host to execute.

use crate::state::{Coin, CoinView, SwapState, SwapView, coins_view};
use vstd::prelude::*;

verus! {

/// Parameters of engine creation; absent fields fall back to defaults.
#[derive(Debug)]
pub struct InstantiateMsg {
    pub admin: Option<String>,
    pub minimum_safety_deposit: Option<u128>,
    pub min_timelock_duration: Option<u64>,
    pub max_timelock_duration: Option<u64>,
}

/// A state-changing command.
#[derive(Debug)]
pub enum ExecuteMsg {
    InitiateSwap {
        participant: String,
        amount: Coin,
        hashlock: String,
        timelock: u64,
        ethereum_recipient: String,
        ethereum_chain_id: String,
    },
    CompleteSwap { swap_id: String, secret: String },
    RefundSwap { swap_id: String },
    UpdateConfig {
        admin: Option<String>,
        minimum_safety_deposit: Option<u128>,
        min_timelock_duration: Option<u64>,
        max_timelock_duration: Option<u64>,
        paused: Option<bool>,
    },
    EmergencyRefund { swap_id: String },
}

/// A read-only request.
#[derive(Debug)]
pub enum QueryMsg {
    Config {},
    Swap { swap_id: String },
    SwapsByInitiator { initiator: String, start_after: Option<String>, limit: Option<u32> },
    SwapsByParticipant { participant: String, start_after: Option<String>, limit: Option<u32> },
    SwapsByHashlock { hashlock: String, start_after: Option<String>, limit: Option<u32> },
    SwapStats {},
}

#[derive(Debug)]
pub struct MigrateMsg {}

/// One asset-transfer instruction for the host to execute.
#[derive(Debug)]
pub struct Transfer {
    pub to_address: String,
    pub denom: String,
    pub amount: u128,
}

#[verifier::ext_equal]
pub struct TransferView {
    pub to_address: Seq<char>,
    pub denom: Seq<char>,
    pub amount: u128,
}

impl View for Transfer {
    type V = TransferView;

    open spec fn view(&self) -> TransferView {
        TransferView { to_address: self.to_address@, denom: self.denom@, amount: self.amount }
    }
}

/// The result of a successful operation: the transfer instructions to
/// execute, and the derived identifier when the operation created a swap.
#[derive(Debug)]
pub struct Response {
    pub messages: Vec<Transfer>,
    pub swap_id: Option<String>,
}

#[verifier::ext_equal]
pub struct ResponseView {
    pub messages: Seq<TransferView>,
    pub swap_id: Option<Seq<char>>,
}

impl View for Response {
    type V = ResponseView;

    open spec fn view(&self) -> ResponseView {
        ResponseView {
            messages: self.messages@.map_values(|t: Transfer| t@),
            swap_id: match self.swap_id {
                Some(s) => Some(s@),
                None => None,
            },
        }
    }
}

#[derive(Debug)]
pub struct ConfigResponse {
    pub admin: String,
    pub minimum_safety_deposit: u128,
    pub min_timelock_duration: u64,
    pub max_timelock_duration: u64,
    pub paused: bool,
}

impl View for ConfigResponse {
    type V = crate::state::ConfigView;

    open spec fn view(&self) -> crate::state::ConfigView {
        crate::state::ConfigView {
            admin: self.admin@,
            minimum_safety_deposit: self.minimum_safety_deposit,
            min_timelock_duration: self.min_timelock_duration,
            max_timelock_duration: self.max_timelock_duration,
            paused: self.paused,
        }
    }
}

/// One swap record as reported to a caller.
#[derive(Debug)]
pub struct SwapResponse {
    pub swap_id: String,
    pub initiator: String,
    pub participant: String,
    pub amount: Coin,
    pub hashlock: String,
    pub timelock: u64,
    pub state: SwapState,
    pub secret: Option<String>,
    pub ethereum_recipient: String,
    pub ethereum_chain_id: String,
    pub created_at: u64,
    pub completed_at: Option<u64>,
}

#[verifier::ext_equal]
pub struct SwapResponseView {
    pub swap_id: Seq<char>,
    pub initiator: Seq<char>,
    pub participant: Seq<char>,
    pub amount: CoinView,
    pub hashlock: Seq<char>,
    pub timelock: u64,
    pub state: SwapState,
    pub secret: Option<Seq<char>>,
    pub ethereum_recipient: Seq<char>,
    pub ethereum_chain_id: Seq<char>,
    pub created_at: u64,
    pub completed_at: Option<u64>,
}

impl View for SwapResponse {
    type V = SwapResponseView;

    open spec fn view(&self) -> SwapResponseView {
        SwapResponseView {
            swap_id: self.swap_id@,
            initiator: self.initiator@,
            participant: self.participant@,
            amount: self.amount@,
            hashlock: self.hashlock@,
            timelock: self.timelock,
            state: self.state,
            secret: match self.secret {
                Some(s) => Some(s@),
                None => None,
            },
            ethereum_recipient: self.ethereum_recipient@,
            ethereum_chain_id: self.ethereum_chain_id@,
            created_at: self.created_at,
            completed_at: self.completed_at,
        }
    }
}

/// How a ledger record is reported.
pub open spec fn resp_of(s: SwapView) -> SwapResponseView {
    SwapResponseView {
        swap_id: s.swap_id,
        initiator: s.initiator,
        participant: s.participant,
        amount: s.amount,
        hashlock: s.hashlock,
        timelock: s.timelock,
        state: s.state,
        secret: s.secret,
        ethereum_recipient: s.ethereum_recipient,
        ethereum_chain_id: s.ethereum_chain_id,
        created_at: s.created_at,
        completed_at: s.completed_at,
    }
}

#[derive(Debug)]
pub struct SwapsResponse {
    pub swaps: Vec<SwapResponse>,
}

impl View for SwapsResponse {
    type V = Seq<SwapResponseView>;

    open spec fn view(&self) -> Seq<SwapResponseView> {
        self.swaps@.map_values(|s: SwapResponse| s@)
    }
}

#[derive(Debug)]
pub struct SwapStatsResponse {
    pub total_swaps: u64,
    pub completed_swaps: u64,
    pub refunded_swaps: u64,
    pub active_swaps: u64,
    pub total_volume: Vec<Coin>,
}

#[verifier::ext_equal]
pub struct SwapStatsResponseView {
    pub total_swaps: u64,
    pub completed_swaps: u64,
    pub refunded_swaps: u64,
    pub active_swaps: u64,
    pub total_volume: Seq<CoinView>,
}

impl View for SwapStatsResponse {
    type V = SwapStatsResponseView;

    open spec fn view(&self) -> SwapStatsResponseView {
        SwapStatsResponseView {
            total_swaps: self.total_swaps,
            completed_swaps: self.completed_swaps,
            refunded_swaps: self.refunded_swaps,
            active_swaps: self.active_swaps,
            total_volume: coins_view(self.total_volume@),
        }
    }
}

/// The answer to a query, one variant per query kind.
#[derive(Debug)]
pub enum QueryAnswer {
    Config(ConfigResponse),
    Swap(SwapResponse),
    Swaps(SwapsResponse),
    Stats(SwapStatsResponse),
}

} // verus!
