//! The errors of the core module that the other modules report, and the
//! transaction gas meter.
use vstd::prelude::*;

verus! {

/// Errors emitted by the core module.
#[derive(Debug, Clone, PartialEq, Eq)]
pub enum Error {
    MalformedTransaction,
    InvalidNonce,
    FutureNonce,
    NotAuthenticated,
    ExpiredTransaction,
    InsufficientFeeBalance,
    OutOfMessageSlots,
    GasOverflow,
    /// Gas limit and the gas that was asked for.
    OutOfGas(u64, u64),
    InvariantViolation(String),
}

/// The gas of one transaction: its limit and what it has used.
#[derive(Debug, Clone, Copy, PartialEq, Eq)]
pub struct TxGas {
    pub limit: u64,
    pub used: u64,
}

impl TxGas {
    /// Uses `gas` more: fails with `GasOverflow` where the sum overflows and
    /// with `OutOfGas` where it exceeds the limit, using nothing then.
    pub fn use_tx_gas(&mut self, gas: u64) -> (r: Result<(), Error>)
        ensures
            final(self).limit == old(self).limit,
            old(self).used + gas > u64::MAX ==> r == Err::<(), Error>(Error::GasOverflow),
            old(self).used + gas <= u64::MAX && old(self).used + gas > old(self).limit ==> r
                == Err::<(), Error>(Error::OutOfGas(old(self).limit, gas)),
            old(self).used + gas <= old(self).limit ==> r is Ok,
            r is Ok ==> final(self).used == old(self).used + gas,
            r is Err ==> final(self).used == old(self).used,
    {
        let sum = match self.used.checked_add(gas) {
            Some(s) => s,
            None => {
                return Err(Error::GasOverflow);
            },
        };
        if sum > self.limit {
            return Err(Error::OutOfGas(self.limit, gas));
        }
        self.used = sum;
        Ok(())
    }

    /// Gas that is left.
    pub fn remaining_tx_gas(&self) -> (r: u64)
        ensures
            r == if self.used <= self.limit {
                self.limit - self.used
            } else {
                0
            },
    {
        self.limit.saturating_sub(self.used)
    }
}

} // verus!
