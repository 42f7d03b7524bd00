//! A hash time-locked contract (HTLC) engine for atomic swaps.
//!
//! Party A locks funds under a hash commitment (`hashlock`) and an expiry
//! (`timelock`); party B claims them by revealing the preimage before the
//! expiry, after which party A may reclaim them instead.  The engine is a
//! state machine over an explicit ledger value: every operation takes the
//! current state and plain inputs (caller identity, attached funds, the
//! current time) and either rejects the call, leaving the state unchanged,
//! or commits a single transition and emits transfer instructions for the
//! host to execute.

pub mod contract;
pub mod crypto;
pub mod error;
pub mod hexstr;
pub mod ids;
pub mod laws;
pub mod model;
pub mod msg;
pub mod order;
pub mod state;
