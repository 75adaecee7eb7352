//! Settling a transaction's EVM run: what is decided once the EVM has run
//! (the result, the gas used, the fee prepaid for the gas left) and once its
//! state changes were applied (the gas paid and the unused fee returned);
//! and the authentication of a simulated call.
use vstd::prelude::*;

use super::u256::{checked_mul_u64_to_u128, difference, le, mul_u128_u64, to_u128};
use super::{evm_result, process_evm_result, remaining_gas, u256_value, Error, ExitReason, Module};
use crate::modules::accounts::auth::{gas_price_of, move_from_outcome, AuthInfo, Fee};
use crate::modules::accounts::handlers::{gas_error, gas_fits};
use crate::modules::accounts::voting::paid;
use crate::modules::accounts::AccountsContext;
use crate::types::address::Address;
use crate::types::token::{BaseUnits, Denomination};

verus! {

/// What the EVM reported of a run: why it ended, what it returned, the gas
/// it used, and the fee of that gas at the transaction's gas price (a
/// 256-bit value, see `u256_value`).
pub struct EvmRun {
    pub exit_reason: ExitReason,
    pub exit_value: Vec<u8>,
    pub used_gas: u64,
    pub fee: [u64; 4],
}

/// A failed run's gas is used: where it fits, the run's error `err` comes
/// back and the gas is paid; otherwise the gas error, with nothing paid.
pub open spec fn failed_run_paid(
    new: AccountsContext,
    old: AccountsContext,
    used_gas: u64,
    exit_reason: ExitReason,
    data: Seq<u8>,
    err: Option<Error>,
) -> bool {
    if gas_fits(old.gas, used_gas) {
        err matches Some(e) && evm_result(exit_reason, data, Err(e)) && new == paid(old, used_gas)
    } else {
        err == Some(Error::Core(gas_error(old.gas, used_gas))) && new == old
    }
}

/// The error of a result, if any.
pub open spec fn error_of<T>(r: Result<T, Error>) -> Option<Error> {
    match r {
        Ok(_) => None,
        Err(e) => Some(e),
    }
}

/// The first settlement of a run in a transaction whose fee pays `price`
/// per unit of gas: the prepaid fee is the price of the gas that was left
/// before the run. A run that did not succeed uses its gas and fails (see
/// `failed_run_paid`). One that succeeded is refused with
/// `InsufficientBalance` where its fee exceeds the prepaid fee; otherwise
/// its return data comes back with the difference, the fee to return.
/// Nothing else changes.
pub open spec fn run_settled(
    new: AccountsContext,
    old: AccountsContext,
    price: u128,
    run: EvmRun,
    r: Result<(Vec<u8>, [u64; 4]), Error>,
) -> bool {
    let max_fee = price * remaining_gas(old.gas.used, old.gas.limit);
    if run.exit_reason is Succeed {
        if u256_value(run.fee) > max_fee {
            r == Err::<(Vec<u8>, [u64; 4]), Error>(Error::InsufficientBalance) && new == old
        } else {
            r matches Ok((v, return_fee)) && v == run.exit_value && u256_value(return_fee) == max_fee
                - u256_value(run.fee) && new == old
        }
    } else {
        r is Err && failed_run_paid(new, old, run.used_gas, run.exit_reason, run.exit_value@, error_of(r))
    }
}

/// The second settlement, once the run's state changes were applied with
/// outcome `apply_reason`: where applying failed, the run's gas is used and
/// it fails (see `failed_run_paid`, with no data); otherwise the gas is used
/// (its error where it does not fit, with nothing paid) and `return_fee` in
/// `fee_d` goes from the fee accumulator back to `caller`, the return data
/// coming back where that succeeds and `InsufficientBalance` where not.
pub open spec fn apply_settled(
    new: AccountsContext,
    old: AccountsContext,
    caller: Address,
    used_gas: u64,
    exit_value: Vec<u8>,
    return_fee: [u64; 4],
    fee_d: Seq<u8>,
    apply_reason: ExitReason,
    r: Result<Vec<u8>, Error>,
) -> bool {
    if !(apply_reason is Succeed) {
        r is Err && failed_run_paid(new, old, used_gas, apply_reason, Seq::empty(), error_of(r))
    } else if !gas_fits(old.gas, used_gas) {
        r == Err::<Vec<u8>, Error>(Error::Core(gas_error(old.gas, used_gas))) && new == old
    } else {
        exists|mr: Result<(), crate::modules::core_module::Error>|
            #[trigger] move_from_outcome(
                new,
                paid(old, used_gas),
                caller,
                u256_value(return_fee) as u128,
                fee_d,
                mr,
            ) && if mr is Ok {
                r == Ok::<Vec<u8>, Error>(exit_value)
            } else {
                r == Err::<Vec<u8>, Error>(Error::InsufficientBalance)
            }
    }
}

/// The fee of a simulated call that pays `gas_price` per unit for
/// `gas_limit` gas: `None` where the product does not fit in 256 bits.
pub open spec fn simulated_fee(gas_price: [u64; 4], gas_limit: u64) -> Option<int> {
    let f = u256_value(gas_price) * gas_limit;
    if f < 0x1_0000_0000_0000_0000 * 0x1_0000_0000_0000_0000 * 0x1_0000_0000_0000_0000
        * 0x1_0000_0000_0000_0000 {
        Some(f)
    } else {
        None
    }
}

impl Module {
    /// Settles a transaction's EVM run once it has run (see `run_settled`);
    /// `fee` is the transaction's fee.
    pub fn settle_run(ctx: &mut AccountsContext, fee: &Fee, run: EvmRun) -> (r: Result<
        (Vec<u8>, [u64; 4]),
        Error,
    >)
        requires
            old(ctx).wf(),
        ensures
            final(ctx).wf(),
            run_settled(*final(ctx), *old(ctx), gas_price_of(fee.amount.amount, fee.gas), run, r),
    {
        let gas_limit = ctx.gas.remaining_tx_gas();
        let gas_price = fee.gas_price();
        let max_gas_fee = mul_u128_u64(gas_price, gas_limit);
        let ghost old_ctx = *ctx;
        let ghost reason = run.exit_reason;
        let ghost data = run.exit_value@;
        let EvmRun { exit_reason, exit_value, used_gas, fee: run_fee } = run;
        let exit_value = match process_evm_result(exit_reason, exit_value) {
            Ok(v) => v,
            Err(err) => {
                return match ctx.gas.use_tx_gas(used_gas) {
                    Ok(()) => {
                        proof {
                            assert(*ctx == paid(old_ctx, used_gas));
                        }
                        Err(err)
                    },
                    Err(e) => Err(Error::Core(e)),
                };
            },
        };
        if !le(&run_fee, &max_gas_fee) {
            return Err(Error::InsufficientBalance);
        }
        let return_fee = difference(&max_gas_fee, &run_fee);
        Ok((exit_value, return_fee))
    }

    /// Settles a transaction's EVM run once its state changes were applied
    /// (see `apply_settled`); `caller` is the run's sender mapped to an
    /// account and `fee_denomination` that of the transaction's fee.
    pub fn settle_apply(
        ctx: &mut AccountsContext,
        caller: Address,
        fee_denomination: &Denomination,
        used_gas: u64,
        exit_value: Vec<u8>,
        return_fee: [u64; 4],
        apply_reason: ExitReason,
    ) -> (r: Result<Vec<u8>, Error>)
        requires
            old(ctx).wf(),
            apply_reason is Succeed && gas_fits(old(ctx).gas, used_gas) ==> u256_value(return_fee)
                <= u128::MAX,
        ensures
            final(ctx).wf(),
            apply_settled(
                *final(ctx),
                *old(ctx),
                caller,
                used_gas,
                exit_value,
                return_fee,
                fee_denomination@,
                apply_reason,
                r,
            ),
    {
        let ghost old_ctx = *ctx;
        match process_evm_result(apply_reason, Vec::new()) {
            Ok(_) => {},
            Err(err) => {
                return match ctx.gas.use_tx_gas(used_gas) {
                    Ok(()) => {
                        proof {
                            assert(*ctx == paid(old_ctx, used_gas));
                        }
                        Err(err)
                    },
                    Err(e) => Err(Error::Core(e)),
                };
            },
        }
        match ctx.gas.use_tx_gas(used_gas) {
            Ok(()) => {},
            Err(e) => {
                return Err(Error::Core(e));
            },
        }
        proof {
            assert(*ctx == paid(old_ctx, used_gas));
        }
        let amount = to_u128(&return_fee);
        let units = BaseUnits::new(amount, fee_denomination.duplicate());
        let moved = super::super::accounts::Module::move_from_fee_accumulator(ctx, caller, &units);
        proof {
            assert(move_from_outcome(
                *ctx,
                paid(old_ctx, used_gas),
                caller,
                u256_value(return_fee) as u128,
                fee_denomination@,
                moved,
            ));
        }
        match moved {
            Ok(()) => Ok(exit_value),
            Err(_) => Err(Error::InsufficientBalance),
        }
    }

    /// The authentication of a simulated call that pays `gas_price` per
    /// unit for `gas_limit` gas in `denomination`: no signers, and a fee of
    /// the price of that gas; `FeeOverflow` where that does not fit in 256
    /// bits.
    pub fn simulate_call_auth_info(gas_price: &[u64; 4], gas_limit: u64, denomination: &Denomination) -> (r:
        Result<AuthInfo, Error>)
        requires
            simulated_fee(*gas_price, gas_limit) matches Some(f) ==> f <= u128::MAX,
        ensures
            simulated_fee(*gas_price, gas_limit) is None ==> r == Err::<AuthInfo, Error>(
                Error::FeeOverflow,
            ),
            simulated_fee(*gas_price, gas_limit) matches Some(f) ==> (r matches Ok(a) && a.signer_info@.len()
                == 0 && a.fee.amount.amount == f && a.fee.amount.denomination@ == denomination@ && a.fee.gas
                == gas_limit && a.not_before is None && a.not_after is None),
    {
        let amount = match checked_mul_u64_to_u128(gas_price, gas_limit) {
            Some(a) => a,
            None => {
                return Err(Error::FeeOverflow);
            },
        };
        Ok(
            AuthInfo {
                signer_info: Vec::new(),
                fee: Fee { amount: BaseUnits::new(amount, denomination.duplicate()), gas: gas_limit },
                not_before: None,
                not_after: None,
            },
        )
    }
}

} // verus!
