use runtime_sdk::context::Mode;
use runtime_sdk::keyed::KvStore;
use runtime_sdk::modules::accounts::auth::{AuthInfo, Fee, SignerInfo};
use runtime_sdk::modules::accounts::state::AccountsState;
use runtime_sdk::modules::accounts::{AccountsContext, GasCosts, Module as Accounts, Parameters};
use runtime_sdk::modules::consensus_accounts::{
    ConsensusTransferContext, ConsensusWithdrawContext, MessageEvent,
};
use runtime_sdk::modules::core_module::{Error as CoreError, TxGas};
use runtime_sdk::modules::evm::messages::ConsensusAccountsEvent;
use runtime_sdk::modules::evm::settle::EvmRun;
use runtime_sdk::modules::evm::u256::{checked_mul_u64_to_u128, difference, le, mul_u128_u64, to_u128};
use runtime_sdk::modules::evm::{
    u128_to_h256, Error, ExitError, ExitReason, ExitSucceed, Module, ScCallPlan, BURN_SELECTOR,
    DW_CONTRACT_ADDRESS, DW_SYSTEM_ADDRESS, MINT_SELECTOR,
};
use runtime_sdk::types::address::Address;
use runtime_sdk::types::token::{BaseUnits, Denomination};

fn addr(b: u8) -> Address {
    Address::from_bytes(&[b; 21]).unwrap()
}

fn native(amount: u128) -> BaseUnits {
    BaseUnits::new(amount, Denomination::native())
}

fn funded_ctx() -> AccountsContext {
    let state = AccountsState {
        params: Parameters {
            transfers_disabled: false,
            mintst_disabled: false,
            burnst_disabled: false,
            chain_initiator: addr(99),
            gas_costs: GasCosts { tx_transfer: 100, tx_managest: 200 },
            debug_disable_nonce_check: false,
            denomination_infos: KvStore::new(),
        },
        accounts: KvStore::new(),
        balances: KvStore::new(),
        total_supplies: KvStore::new(),
        roles: KvStore::new(),
        role_sequences: KvStore::new(),
        proposal_counter: None,
        proposals: KvStore::new(),
        mint_quorum: None,
        burn_quorum: None,
        whitelist_quorum: None,
        blacklist_quorum: None,
        config_quorum: None,
    };
    let mut ctx = AccountsContext {
        mode: Mode::ExecuteTx,
        round: 10,
        state,
        events: vec![],
        values: KvStore::new(),
        priority: 0,
        sender_meta: None,
        caller: addr(1),
        gas: TxGas { limit: 1_000_000, used: 0 },
    };
    Accounts::mint(&mut ctx, addr(1), &native(1000)).unwrap();
    ctx
}

fn auth(fee: u128, gas: u64) -> AuthInfo {
    AuthInfo {
        signer_info: vec![SignerInfo { address: addr(1), nonce: 0 }],
        fee: Fee { amount: native(fee), gas },
        not_before: None,
        not_after: None,
    }
}

fn balance(ctx: &AccountsContext, a: Address) -> u128 {
    ctx.state.get_balance(a, &Denomination::native()).unwrap()
}

#[test]
fn u256_arithmetic() {
    // (2^128 - 1) * (2^64 - 1) = 2^192 - 2^128 - 2^64 + 1.
    assert_eq!(mul_u128_u64(u128::MAX, u64::MAX), [1, u64::MAX, u64::MAX - 1, 0]);
    assert_eq!(mul_u128_u64(3, 7), [21, 0, 0, 0]);
    assert!(le(&[5, 0, 0, 0], &[0, 0, 1, 0]));
    assert!(!le(&[0, 0, 1, 0], &[u64::MAX, u64::MAX, 0, 0]));
    assert!(le(&[7, 1, 0, 0], &[7, 1, 0, 0]));
    // 2^128 - 1 borrows across the halves.
    assert_eq!(difference(&[0, 0, 1, 0], &[1, 0, 0, 0]), [u64::MAX, u64::MAX, 0, 0]);
    assert_eq!(difference(&[10, 2, 3, 4], &[4, 1, 1, 1]), [6, 1, 2, 3]);
    assert_eq!(to_u128(&[1, 2, 0, 0]), (2u128 << 64) + 1);
    assert_eq!(checked_mul_u64_to_u128(&[2, 0, 0, 0], 50), Some(100));
    assert_eq!(checked_mul_u64_to_u128(&[0, 0, 1, 0], 1), None);
    assert_eq!(checked_mul_u64_to_u128(&[0, 0, 1, 0], 0), Some(0));
    assert_eq!(checked_mul_u64_to_u128(&[0, 1 << 63, 0, 0], 2), None);
}

#[test]
fn settle_run_returns_data_and_unused_fee() {
    let mut ctx = funded_ctx();
    // Price 1000 per gas, a million gas left: 10^9 prepaid, 2.1 * 10^7 spent.
    let fee = Fee { amount: native(1_000_000), gas: 1000 };
    let run = EvmRun {
        exit_reason: ExitReason::Succeed(ExitSucceed::Returned),
        exit_value: vec![7, 8],
        used_gas: 21_000,
        fee: [21_000_000, 0, 0, 0],
    };
    let (out, return_fee) = Module::settle_run(&mut ctx, &fee, run).unwrap();
    assert_eq!(out, vec![7, 8]);
    assert_eq!(return_fee, [979_000_000, 0, 0, 0]);
    assert_eq!(ctx.gas.used, 0);
}

#[test]
fn settle_run_refuses_a_fee_beyond_the_prepaid_one() {
    let mut ctx = funded_ctx();
    ctx.gas.limit = 10;
    let fee = Fee { amount: native(100), gas: 10 };
    let run = EvmRun {
        exit_reason: ExitReason::Succeed(ExitSucceed::Stopped),
        exit_value: vec![],
        used_gas: 11,
        fee: [110, 0, 0, 0],
    };
    assert_eq!(Module::settle_run(&mut ctx, &fee, run), Err(Error::InsufficientBalance));
    assert_eq!(ctx.gas.used, 0);
}

#[test]
fn settle_run_of_a_failed_run_uses_its_gas() {
    let mut ctx = funded_ctx();
    let fee = Fee { amount: native(0), gas: 0 };
    let run = EvmRun {
        exit_reason: ExitReason::Revert,
        exit_value: vec![],
        used_gas: 500,
        fee: [0, 0, 0, 0],
    };
    assert_eq!(
        Module::settle_run(&mut ctx, &fee, run),
        Err(Error::Reverted("no revert reason".to_string()))
    );
    assert_eq!(ctx.gas.used, 500);
    let run = EvmRun {
        exit_reason: ExitReason::Error(ExitError::OutOfGas),
        exit_value: vec![],
        used_gas: 2_000_000,
        fee: [0, 0, 0, 0],
    };
    assert_eq!(
        Module::settle_run(&mut ctx, &fee, run),
        Err(Error::Core(CoreError::OutOfGas(1_000_000, 2_000_000)))
    );
    assert_eq!(ctx.gas.used, 500);
}

#[test]
fn settle_apply_pays_gas_and_returns_fee() {
    let mut ctx = funded_ctx();
    Accounts::authenticate_tx(&mut ctx, &auth(100, 10)).unwrap();
    assert_eq!(balance(&ctx, addr(1)), 900);
    let out = Module::settle_apply(
        &mut ctx,
        addr(1),
        &Denomination::native(),
        300,
        vec![1],
        [40, 0, 0, 0],
        ExitReason::Succeed(ExitSucceed::Stopped),
    );
    assert_eq!(out, Ok(vec![1]));
    assert_eq!(balance(&ctx, addr(1)), 940);
    assert_eq!(ctx.gas.used, 300);
    // More than the accumulator holds cannot be returned.
    let out = Module::settle_apply(
        &mut ctx,
        addr(1),
        &Denomination::native(),
        1,
        vec![1],
        [61, 0, 0, 0],
        ExitReason::Succeed(ExitSucceed::Stopped),
    );
    assert_eq!(out, Err(Error::InsufficientBalance));
    assert_eq!(ctx.gas.used, 301);
}

#[test]
fn settle_apply_of_a_failed_apply() {
    let mut ctx = funded_ctx();
    let out = Module::settle_apply(
        &mut ctx,
        addr(1),
        &Denomination::native(),
        70,
        vec![1],
        [0, 0, 0, 0],
        ExitReason::Error(ExitError::OutOfFund),
    );
    assert_eq!(out, Err(Error::ExecutionFailed("out of funds".to_string())));
    assert_eq!(ctx.gas.used, 70);
    let out = Module::settle_apply(
        &mut ctx,
        addr(1),
        &Denomination::native(),
        u64::MAX,
        vec![1],
        [0, 0, 0, 0],
        ExitReason::Succeed(ExitSucceed::Stopped),
    );
    assert_eq!(out, Err(Error::Core(CoreError::GasOverflow)));
    assert_eq!(ctx.gas.used, 70);
}

#[test]
fn simulated_call_fee() {
    let a = Module::simulate_call_auth_info(&[2, 0, 0, 0], 50, &Denomination::native()).unwrap();
    assert_eq!(a.fee.amount.amount, 100);
    assert_eq!(a.fee.gas, 50);
    assert!(a.signer_info.is_empty());
    assert!(a.not_before.is_none() && a.not_after.is_none());
    assert!(matches!(
        Module::simulate_call_auth_info(&[u64::MAX, u64::MAX, u64::MAX, u64::MAX], 2, &Denomination::native()),
        Err(Error::FeeOverflow)
    ));
    let a = Module::simulate_call_auth_info(&[0, 0, 0, 1], 0, &Denomination::native()).unwrap();
    assert_eq!(a.fee.amount.amount, 0);
}

fn failed() -> MessageEvent {
    MessageEvent { module: "staking".to_string(), code: 5, index: 0 }
}

fn succeeded() -> MessageEvent {
    MessageEvent { module: String::new(), code: 0, index: 0 }
}

fn call_data(selector: [u8; 4], address: [u8; 20], amount: u128, by_system: bool) -> Vec<u8> {
    let mut data = selector.to_vec();
    data.extend_from_slice(&[0u8; 12]);
    data.extend_from_slice(&address);
    data.extend_from_slice(&u128_to_h256(amount));
    let mut flag = [0u8; 32];
    flag[31] = by_system as u8;
    data.extend_from_slice(&flag);
    data
}

fn withdraw_context() -> ConsensusWithdrawContext {
    ConsensusWithdrawContext { from: addr(3), nonce: 4, address: addr(5), eth_addr: [9; 20], amount: native(77) }
}

fn transfer_context() -> ConsensusTransferContext {
    ConsensusTransferContext { address: addr(5), eth_addr: [9; 20], nonce: 4, to: addr(3), amount: native(77) }
}

#[test]
fn failed_deposit_emits_its_error_only() {
    let plan = Module::message_result_withdraw(true, failed(), withdraw_context());
    assert!(matches!(plan.call, ScCallPlan::Skip));
    match plan.event {
        ConsensusAccountsEvent::Deposit { from, nonce, to, eth_to, amount, error } => {
            assert_eq!((from, nonce, to, eth_to, amount.amount), (addr(3), 4, addr(5), [9; 20], 77));
            let e = error.unwrap();
            assert_eq!((e.module.as_str(), e.code), ("staking", 5));
        }
        _ => panic!("deposit event expected"),
    }
}

#[test]
fn successful_deposit_mints() {
    let plan = Module::message_result_withdraw(true, succeeded(), withdraw_context());
    match plan.call {
        ScCallPlan::Run(c) => {
            assert_eq!(c.caller, DW_SYSTEM_ADDRESS);
            assert_eq!(c.contract, DW_CONTRACT_ADDRESS);
            assert_eq!(c.data, call_data(MINT_SELECTOR, [9; 20], 77, false));
        }
        _ => panic!("a mint call expected"),
    }
    assert!(matches!(plan.event, ConsensusAccountsEvent::Deposit { error: None, .. }));
    let plan = Module::message_result_withdraw(false, succeeded(), withdraw_context());
    assert!(matches!(plan.call, ScCallPlan::Skip));
}

#[test]
fn failed_withdrawal_mints_back() {
    let plan = Module::message_result_transfer(true, failed(), transfer_context());
    match plan.call {
        ScCallPlan::Run(c) => assert_eq!(c.data, call_data(MINT_SELECTOR, [9; 20], 77, true)),
        _ => panic!("a mint call expected"),
    }
    match plan.event {
        ConsensusAccountsEvent::Withdraw { from, eth_from, nonce, to, amount, error } => {
            assert_eq!((from, eth_from, nonce, to, amount.amount), (addr(5), [9; 20], 4, addr(3), 77));
            assert_eq!(error.unwrap().code, 5);
        }
        _ => panic!("withdraw event expected"),
    }
}

#[test]
fn successful_withdrawal_burns_from_the_system() {
    let plan = Module::message_result_transfer(true, succeeded(), transfer_context());
    match plan.call {
        ScCallPlan::Run(c) => {
            assert_eq!(c.data, call_data(BURN_SELECTOR, DW_SYSTEM_ADDRESS, 77, false))
        }
        _ => panic!("a burn call expected"),
    }
    assert!(matches!(plan.event, ConsensusAccountsEvent::Withdraw { error: None, .. }));
}

#[test]
fn evm_transfer_moves_value_and_returns_unused_fee() {
    let mut ctx = funded_ctx();
    let a = auth(100, 100);
    Accounts::authenticate_tx(&mut ctx, &a).unwrap();
    // Price 1 per gas; 50 gas left beyond the transfer's 21000.
    ctx.gas.limit = 21_050;
    let out = Module::transfer(
        &mut ctx,
        true,
        addr(1),
        addr(2),
        [300, 0, 0, 0],
        &Denomination::native(),
        &a.fee,
    );
    assert_eq!(out, Ok(vec![]));
    assert_eq!(balance(&ctx, addr(1)), 1000 - 100 - 300 + 50);
    assert_eq!(balance(&ctx, addr(2)), 300);
    assert_eq!(ctx.gas.used, 21_000);
}

#[test]
fn evm_transfer_refusals() {
    let mut ctx = funded_ctx();
    let fee = Fee { amount: native(0), gas: 0 };
    assert_eq!(
        Module::transfer(&mut ctx, false, addr(1), addr(2), [300, 0, 0, 0], &Denomination::native(), &fee),
        Ok(vec![])
    );
    assert_eq!(balance(&ctx, addr(2)), 0);
    assert_eq!(
        Module::transfer(&mut ctx, true, addr(1), addr(2), [0, 0, 1, 0], &Denomination::native(), &fee),
        Err(Error::Reverted("too large value".to_string()))
    );
    assert_eq!(
        Module::transfer(&mut ctx, true, addr(1), addr(2), [5000, 0, 0, 0], &Denomination::native(), &fee),
        Err(Error::InvalidArgument)
    );
    assert_eq!(ctx.gas.used, 21_000);
}
