//! Types of the consensus accounts module: deposits into and withdrawals
//! from this runtime, and the results of the consensus messages they send.
use vstd::prelude::*;

use crate::types::address::Address;
use crate::types::token::BaseUnits;

verus! {

/// The result of a consensus message: the module and code of its error
/// (code zero when it succeeded) and the message's index.
#[derive(Debug, Clone, PartialEq, Eq)]
pub struct MessageEvent {
    pub module: String,
    pub code: u32,
    pub index: u32,
}

impl MessageEvent {
    /// Whether the message succeeded.
    pub fn is_success(&self) -> (r: bool)
        ensures
            r == (self.code == 0),
    {
        self.code == 0
    }
}

/// Deposit into runtime call: transfer from consensus staking to an account
/// in this runtime.
#[derive(Debug)]
pub struct Deposit {
    pub to: Option<Address>,
    pub eth_to: [u8; 20],
    pub amount: BaseUnits,
}

/// Withdraw from runtime call: transfer from an account in this runtime to
/// consensus staking.
#[derive(Debug)]
pub struct Withdraw {
    pub eth_from: [u8; 20],
    pub to: Option<Address>,
    pub amount: BaseUnits,
}

/// Balance query.
#[derive(Debug, Clone, Copy)]
pub struct BalanceQuery {
    pub address: Address,
}

/// Consensus account query.
#[derive(Debug, Clone, Copy)]
pub struct ConsensusAccountQuery {
    pub address: Address,
}

/// The balance of an account.
#[derive(Debug, Clone, Copy, PartialEq, Eq)]
pub struct AccountBalance {
    pub balance: u128,
}

/// Context for consensus transfer message handler.
#[derive(Debug)]
pub struct ConsensusTransferContext {
    pub address: Address,
    pub eth_addr: [u8; 20],
    pub nonce: u64,
    pub to: Address,
    pub amount: BaseUnits,
}

/// Context for consensus withdraw message handler.
#[derive(Debug)]
pub struct ConsensusWithdrawContext {
    pub from: Address,
    pub nonce: u64,
    pub address: Address,
    pub eth_addr: [u8; 20],
    pub amount: BaseUnits,
}

/// Error details from the consensus layer.
#[derive(Debug, Clone)]
pub struct ConsensusError {
    pub module: String,
    pub code: u32,
}

/// The error details of a message result: its module and code.
impl From<MessageEvent> for ConsensusError {
    fn from(me: MessageEvent) -> (r: Self) {
        ConsensusError { module: me.module, code: me.code }
    }
}

impl vstd::std_specs::convert::FromSpecImpl<MessageEvent> for ConsensusError {
    open spec fn obeys_from_spec() -> bool {
        true
    }

    open spec fn from_spec(me: MessageEvent) -> Self {
        ConsensusError { module: me.module, code: me.code }
    }
}

} // verus!
