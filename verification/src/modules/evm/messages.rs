//! Handling the results of the consensus messages that deposits and
//! withdrawals send: the contract call to run and the event to emit.
use vstd::prelude::*;

use super::{
    call_sc_burn, call_sc_mint, sc_call_of, u128_to_h256, u128_word, Module, ScCallPlan,
    BURN_SELECTOR, DW_SYSTEM_ADDRESS, MINT_SELECTOR,
};
use crate::modules::consensus_accounts::{
    ConsensusError, ConsensusTransferContext, ConsensusWithdrawContext, MessageEvent,
};
use crate::types::address::Address;
use crate::types::token::BaseUnits;

verus! {

/// Events of the consensus accounts module about deposits and withdrawals;
/// `error` holds the consensus error where the transfer failed.
#[derive(Debug)]
pub enum ConsensusAccountsEvent {
    Deposit {
        from: Address,
        nonce: u64,
        to: Address,
        eth_to: [u8; 20],
        amount: BaseUnits,
        error: Option<ConsensusError>,
    },
    Withdraw {
        from: Address,
        eth_from: [u8; 20],
        nonce: u64,
        to: Address,
        amount: BaseUnits,
        error: Option<ConsensusError>,
    },
}

/// What handling a message result does: a contract call to run (`Skip`
/// where there is none) and an event to emit.
#[derive(Debug)]
pub struct MessageResultPlan {
    pub call: ScCallPlan,
    pub event: ConsensusAccountsEvent,
}

/// `plan` calls the contract's function `selector` with `address`, `amount`
/// and `by_system` (see `sc_call_of`) where contracts are executed, and
/// nothing otherwise.
pub open spec fn calls_contract(
    plan: ScCallPlan,
    should_execute_contracts: bool,
    selector: Seq<u8>,
    address: Seq<u8>,
    amount: Seq<u8>,
    by_system: bool,
) -> bool {
    if should_execute_contracts {
        plan matches ScCallPlan::Run(c) && sc_call_of(c, selector, address, amount, by_system)
    } else {
        plan is Skip
    }
}

/// The consensus error that a message result reports.
pub open spec fn error_of_message(me: MessageEvent) -> ConsensusError {
    ConsensusError { module: me.module, code: me.code }
}

impl Module {
    /// Handles the result of the consensus transfer that a deposit sent:
    /// where it failed, a failed deposit event and nothing to run; where it
    /// succeeded, a mint of the amount to the deposit's EVM address (not by
    /// the system) and a deposit event without error.
    pub fn message_result_withdraw(
        should_execute_contracts: bool,
        me: MessageEvent,
        context: ConsensusWithdrawContext,
    ) -> (r: MessageResultPlan)
        ensures
            me.code != 0 ==> r.call is Skip,
            me.code == 0 ==> calls_contract(
                r.call,
                should_execute_contracts,
                MINT_SELECTOR@,
                context.eth_addr@,
                u128_word(context.amount.amount),
                false,
            ),
            r.event matches ConsensusAccountsEvent::Deposit { from, nonce, to, eth_to, amount, error }
                && from == context.from && nonce == context.nonce && to == context.address
                && eth_to == context.eth_addr && amount.amount == context.amount.amount
                && amount.denomination@ == context.amount.denomination@ && (if me.code == 0 {
                error is None
            } else {
                error == Some(error_of_message(me))
            }),
    {
        if !me.is_success() {
            let error = ConsensusError::from(me);
            return MessageResultPlan {
                call: ScCallPlan::Skip,
                event: ConsensusAccountsEvent::Deposit {
                    from: context.from,
                    nonce: context.nonce,
                    to: context.address,
                    eth_to: context.eth_addr,
                    amount: context.amount,
                    error: Some(error),
                },
            };
        }
        let amt = u128_to_h256(context.amount.amount());
        let call = call_sc_mint(should_execute_contracts, &context.eth_addr, &amt, false);
        MessageResultPlan {
            call,
            event: ConsensusAccountsEvent::Deposit {
                from: context.from,
                nonce: context.nonce,
                to: context.address,
                eth_to: context.eth_addr,
                amount: context.amount,
                error: None,
            },
        }
    }

    /// Handles the result of the consensus transfer that a withdrawal sent:
    /// where it failed, the amount is minted back to the withdrawal's EVM
    /// address by the system and a failed withdrawal event comes; where it
    /// succeeded, the amount is burnt from the system address and a
    /// withdrawal event without error comes.
    pub fn message_result_transfer(
        should_execute_contracts: bool,
        me: MessageEvent,
        context: ConsensusTransferContext,
    ) -> (r: MessageResultPlan)
        ensures
            me.code != 0 ==> calls_contract(
                r.call,
                should_execute_contracts,
                MINT_SELECTOR@,
                context.eth_addr@,
                u128_word(context.amount.amount),
                true,
            ),
            me.code == 0 ==> calls_contract(
                r.call,
                should_execute_contracts,
                BURN_SELECTOR@,
                DW_SYSTEM_ADDRESS@,
                u128_word(context.amount.amount),
                false,
            ),
            r.event matches ConsensusAccountsEvent::Withdraw { from, eth_from, nonce, to, amount, error }
                && from == context.address && eth_from == context.eth_addr && nonce == context.nonce
                && to == context.to && amount.amount == context.amount.amount
                && amount.denomination@ == context.amount.denomination@ && (if me.code == 0 {
                error is None
            } else {
                error == Some(error_of_message(me))
            }),
    {
        let amt = u128_to_h256(context.amount.amount());
        if !me.is_success() {
            let call = call_sc_mint(should_execute_contracts, &context.eth_addr, &amt, true);
            let error = ConsensusError::from(me);
            return MessageResultPlan {
                call,
                event: ConsensusAccountsEvent::Withdraw {
                    from: context.address,
                    eth_from: context.eth_addr,
                    nonce: context.nonce,
                    to: context.to,
                    amount: context.amount,
                    error: Some(error),
                },
            };
        }
        let system = DW_SYSTEM_ADDRESS;
        let call = call_sc_burn(should_execute_contracts, &system, &amt, false);
        MessageResultPlan {
            call,
            event: ConsensusAccountsEvent::Withdraw {
                from: context.address,
                eth_from: context.eth_addr,
                nonce: context.nonce,
                to: context.to,
                amount: context.amount,
                error: None,
            },
        }
    }
}

} // verus!
