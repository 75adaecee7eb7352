//! Accounts module: balances, total supplies, nonces, roles, and the proposal
//! governance that mints, burns, whitelists, blacklists, sets roles and sets
//! quorums.
use vstd::prelude::*;

use crate::context::{DefaultValue, Mode};
use crate::keyed::KvStore;
use crate::modules::core_module::TxGas;
use crate::types::address::Address;
use crate::types::role::Role;
use crate::types::token::{BaseUnits, Denomination};

pub mod auth;
pub mod block;
pub mod genesis;
pub mod handlers;
pub mod invariants;
pub mod keys;
pub mod laws;
pub mod prefetch;
pub mod queries;
pub mod voting;
pub mod state;
pub mod types;

use state::AccountsState;
use types::{Account, DenominationInfo};

verus! {

/// Maximum delta that the transaction nonce can be in the future from the
/// current nonce to still be accepted during transaction checks.
pub const MAX_CHECK_NONCE_FUTURE_DELTA: u64 = 0;

/// Context key for the fee accumulator.
pub const CONTEXT_KEY_FEE_ACCUMULATOR: &'static str = "accounts.FeeAccumulator";

/// Errors emitted by the accounts module.
#[derive(Debug, Clone, PartialEq, Eq)]
pub enum Error {
    InvalidArgument,
    InsufficientBalance,
    Forbidden,
    NotFound,
    InvalidRole,
    InvalidState,
    CounterOverflow,
    Core(crate::modules::core_module::Error),
    InvalidQuorum,
    InvalidRolesNo,
    VoteDup,
}

/// Events emitted by the accounts module.
#[derive(Debug)]
pub enum Event {
    Transfer { from: Address, to: Address, amount: BaseUnits },
    Burn { owner: Address, amount: BaseUnits },
    Mint { owner: Address, amount: BaseUnits },
}

/// An event with its amount taken as amount and denomination bytes.
pub enum EventView {
    Transfer { from: Address, to: Address, amount: u128, denomination: Seq<u8> },
    Burn { owner: Address, amount: u128, denomination: Seq<u8> },
    Mint { owner: Address, amount: u128, denomination: Seq<u8> },
}

impl View for Event {
    type V = EventView;

    open spec fn view(&self) -> EventView {
        match self {
            Event::Transfer { from, to, amount } => EventView::Transfer {
                from: *from,
                to: *to,
                amount: amount.amount,
                denomination: amount.denomination@,
            },
            Event::Burn { owner, amount } => EventView::Burn {
                owner: *owner,
                amount: amount.amount,
                denomination: amount.denomination@,
            },
            Event::Mint { owner, amount } => EventView::Mint {
                owner: *owner,
                amount: amount.amount,
                denomination: amount.denomination@,
            },
        }
    }
}

/// Gas costs.
#[derive(Debug, Clone, Copy, Default, PartialEq, Eq)]
pub struct GasCosts {
    pub tx_transfer: u64,
    /// Gas cost of the calls that manage the token: proposals, votes, owner
    /// initialization, mint and burn.
    pub tx_managest: u64,
}

/// Parameters for the accounts module.
#[derive(Debug)]
pub struct Parameters {
    pub transfers_disabled: bool,
    pub mintst_disabled: bool,
    pub burnst_disabled: bool,
    /// The address that initializes the owners and may burn.
    pub chain_initiator: Address,
    pub gas_costs: GasCosts,
    pub debug_disable_nonce_check: bool,
    pub denomination_infos: KvStore<Denomination, DenominationInfo>,
}

/// Errors emitted during parameter validation.
#[derive(Debug, Clone, PartialEq, Eq)]
pub enum ParameterValidationError {
    DebugOptionUsed(String),
}

impl Parameters {
    /// Refuses parameters that turn on a debug option.
    pub fn validate_basic(&self) -> (r: Result<(), ParameterValidationError>)
        ensures
            r is Ok <==> !self.debug_disable_nonce_check,
            r matches Err(ParameterValidationError::DebugOptionUsed(s)) ==> s@
                == "debug_disable_nonce_check"@,
    {
        if self.debug_disable_nonce_check {
            return Err(
                ParameterValidationError::DebugOptionUsed(
                    String::from_str("debug_disable_nonce_check"),
                ),
            );
        }
        Ok(())
    }
}

/// Genesis state for the accounts module.
#[derive(Debug)]
pub struct Genesis {
    pub parameters: Parameters,
    pub accounts: KvStore<Address, Account>,
    pub balances: KvStore<Address, KvStore<Denomination, u128>>,
    pub total_supplies: KvStore<Denomination, u128>,
    pub roles_accounts: KvStore<Role, Vec<Address>>,
}

/// The amount of `d` under an inner balance store (zero when absent).
pub open spec fn bal_of(inner: KvStore<Denomination, u128>, d: Seq<u8>) -> int {
    match inner.get_spec(d) {
        Some(v) => v as int,
        None => 0,
    }
}

/// The sum of the balances of `d` over a sequence of account balance stores.
pub open spec fn sum_balances(e: Seq<(Address, KvStore<Denomination, u128>)>, d: Seq<u8>) -> int
    decreases e.len(),
{
    if e.len() == 0 {
        0
    } else {
        sum_balances(e.drop_last(), d) + bal_of(e.last().1, d)
    }
}

pub proof fn lemma_sum_balances_nonneg(e: Seq<(Address, KvStore<Denomination, u128>)>, d: Seq<u8>)
    ensures
        sum_balances(e, d) >= 0,
    decreases e.len(),
{
    if e.len() > 0 {
        lemma_sum_balances_nonneg(e.drop_last(), d);
    }
}

/// Replacing one account's store changes the sum by the difference.
pub proof fn lemma_sum_balances_update(
    e: Seq<(Address, KvStore<Denomination, u128>)>,
    i: int,
    x: (Address, KvStore<Denomination, u128>),
    d: Seq<u8>,
)
    requires
        0 <= i < e.len(),
    ensures
        sum_balances(e.update(i, x), d) == sum_balances(e, d) - bal_of(e[i].1, d) + bal_of(x.1, d),
    decreases e.len(),
{
    let u = e.update(i, x);
    if i == e.len() - 1 {
        assert(u.drop_last() =~= e.drop_last());
    } else {
        assert(u.drop_last() =~= e.drop_last().update(i, x));
        lemma_sum_balances_update(e.drop_last(), i, x, d);
    }
}

/// Inserting one account's store adds its balance to the sum.
pub proof fn lemma_sum_balances_insert(
    e: Seq<(Address, KvStore<Denomination, u128>)>,
    i: int,
    x: (Address, KvStore<Denomination, u128>),
    d: Seq<u8>,
)
    requires
        0 <= i <= e.len(),
    ensures
        sum_balances(e.insert(i, x), d) == sum_balances(e, d) + bal_of(x.1, d),
    decreases e.len(),
{
    let u = e.insert(i, x);
    if i == e.len() {
        assert(u.drop_last() =~= e);
    } else {
        assert(u.drop_last() =~= e.drop_last().insert(i, x));
        lemma_sum_balances_insert(e.drop_last(), i, x, d);
    }
}

/// Each account's balance is at most the sum over all accounts.
pub proof fn lemma_sum_balances_bound(e: Seq<(Address, KvStore<Denomination, u128>)>, i: int, d: Seq<u8>)
    requires
        0 <= i < e.len(),
    ensures
        bal_of(e[i].1, d) <= sum_balances(e, d),
    decreases e.len(),
{
    lemma_sum_balances_nonneg(e.drop_last(), d);
    if i < e.len() - 1 {
        lemma_sum_balances_bound(e.drop_last(), i, d);
        assert(e.drop_last()[i] == e[i]);
        assert(bal_of(e.last().1, d) >= 0);
    }
}

/// A fee accumulator that stores fees from all transactions in a block.
#[derive(Debug)]
pub struct FeeAccumulator {
    pub total_fees: KvStore<Denomination, u128>,
}

/// The accumulated fee of `d` (zero when absent).
pub open spec fn fee_of(acc: FeeAccumulator, d: Seq<u8>) -> int {
    match acc.total_fees.get_spec(d) {
        Some(v) => v as int,
        None => 0,
    }
}

/// `new` is `old` with `amount` of `d` added.
pub open spec fn fee_added(new: FeeAccumulator, old: FeeAccumulator, amount: u128, d: Seq<u8>) -> bool {
    forall|d2: Seq<u8>| #[trigger]
        new.total_fees.get_spec(d2) == if d2 == d {
            Some((fee_of(old, d2) + amount) as u128)
        } else {
            old.total_fees.get_spec(d2)
        }
}

/// `new` is `old` after subtracting `amount` of `d` with result `r`: it
/// succeeds exactly where `old` holds enough; on failure the entry of `d`
/// is kept (created as zero where there was none) and `InsufficientBalance`
/// comes back.
pub open spec fn fee_subtracted(
    new: FeeAccumulator,
    old: FeeAccumulator,
    amount: u128,
    d: Seq<u8>,
    r: Result<(), Error>,
) -> bool {
    &&& r is Ok <==> amount <= fee_of(old, d)
    &&& r matches Err(e) ==> e == Error::InsufficientBalance
    &&& forall|d2: Seq<u8>| #[trigger]
        new.total_fees.get_spec(d2) == if d2 == d {
            if r is Ok {
                Some((fee_of(old, d2) - amount) as u128)
            } else {
                Some(fee_of(old, d2) as u128)
            }
        } else {
            old.total_fees.get_spec(d2)
        }
}

impl FeeAccumulator {
    /// An empty accumulator.
    pub fn default() -> (r: Self)
        ensures
            r.total_fees.wf(),
            r.total_fees.entries@.len() == 0,
    {
        FeeAccumulator { total_fees: KvStore::new() }
    }

    /// Adds the given fee to the accumulator.
    pub fn add(&mut self, fee: &BaseUnits)
        requires
            old(self).total_fees.wf(),
            fee_of(*old(self), fee.denomination@) + fee.amount <= u128::MAX,
        ensures
            final(self).total_fees.wf(),
            fee_added(*final(self), *old(self), fee.amount, fee.denomination@),
    {
        let current: u128 = match self.total_fees.get(fee.denomination()) {
            Some(c) => *c,
            None => 0,
        };
        self.total_fees.insert(fee.denomination().duplicate(), current + fee.amount());
    }

    /// Subtracts the given fee from the accumulator.
    ///
    /// The entry of the fee's denomination is created (as zero) before the
    /// subtraction, so it stays even when the subtraction fails.
    pub fn sub(&mut self, fee: &BaseUnits) -> (r: Result<(), Error>)
        requires
            old(self).total_fees.wf(),
        ensures
            final(self).total_fees.wf(),
            fee_subtracted(*final(self), *old(self), fee.amount, fee.denomination@, r),
    {
        let current: u128 = match self.total_fees.get(fee.denomination()) {
            Some(c) => *c,
            None => 0,
        };
        if current < fee.amount() {
            self.total_fees.insert(fee.denomination().duplicate(), current);
            return Err(Error::InsufficientBalance);
        }
        self.total_fees.insert(fee.denomination().duplicate(), current - fee.amount());
        Ok(())
    }
}

impl DefaultValue for FeeAccumulator {
    open spec fn is_default_value(&self) -> bool {
        self.total_fees.wf() && self.total_fees.entries@.len() == 0
    }

    fn default_value() -> (r: Self) {
        FeeAccumulator::default()
    }
}

/// Metadata of the sender of a checked transaction.
#[derive(Debug, Clone, Copy, PartialEq, Eq)]
pub struct SenderMeta {
    pub address: Address,
    pub tx_nonce: u64,
    pub state_nonce: u64,
}

/// What the accounts module reads and writes of its execution context: the
/// mode, the round of the last runtime block, the module's state, the events
/// it emitted, the per-context values (the fee accumulator), the transaction
/// priority and sender metadata that it hands to the core module, and the
/// caller and gas of the current transaction.
#[derive(Debug)]
pub struct AccountsContext {
    pub mode: Mode,
    pub round: u64,
    pub state: AccountsState,
    pub events: Vec<Event>,
    pub values: KvStore<String, FeeAccumulator>,
    pub priority: u64,
    pub sender_meta: Option<SenderMeta>,
    /// Address of the caller of the current transaction.
    pub caller: Address,
    /// Gas of the current transaction.
    pub gas: TxGas,
}

/// `new` is `old` with one more event, `ev`.
pub open spec fn event_pushed(new: Seq<Event>, old: Seq<Event>, ev: EventView) -> bool {
    &&& new.len() == old.len() + 1
    &&& new.take(old.len() as int) == old
    &&& new.last()@ == ev
}

impl AccountsContext {
    pub open spec fn wf(&self) -> bool {
        &&& self.state.wf()
        &&& self.values.wf()
        &&& forall|kb: Seq<u8>| #[trigger]
            self.values.get_spec(kb) matches Some(acc) ==> acc.total_fees.wf()
    }

    /// `self` is `old` with only the state changed.
    pub open spec fn only_state_changed(&self, old: AccountsContext) -> bool {
        &&& self.mode == old.mode
        &&& self.round == old.round
        &&& self.events == old.events
        &&& self.values == old.values
        &&& self.priority == old.priority
        &&& self.sender_meta == old.sender_meta
        &&& self.caller == old.caller
        &&& self.gas == old.gas
    }

    /// `self` is `old` with only the state and the events changed.
    pub open spec fn only_state_events_changed(&self, old: AccountsContext) -> bool {
        &&& self.mode == old.mode
        &&& self.round == old.round
        &&& self.values == old.values
        &&& self.priority == old.priority
        &&& self.sender_meta == old.sender_meta
        &&& self.caller == old.caller
        &&& self.gas == old.gas
    }
}

/// The outcome of transferring `amount` of `d` from `from` to `to`: nothing
/// happens when only checking; refused with `InsufficientBalance`, changing
/// nothing, where `from` holds less; refused with `InvalidArgument` after
/// lowering the balance of `from` where the balance of `to` would overflow;
/// otherwise moved, with a `Transfer` event, keeping the sum of the balances
/// of every denomination.
pub open spec fn transfer_outcome(
    new: AccountsContext,
    old: AccountsContext,
    from: Address,
    to: Address,
    amount: u128,
    d: Seq<u8>,
    r: Result<(), Error>,
) -> bool {
    let st = old.state;
    let after_sub = (st.balance(from@, d) - amount) as u128;
    let to_before = if to@ == from@ {
        after_sub as int
    } else {
        st.balance(to@, d)
    };
    &&& new.only_state_events_changed(old)
    &&& old.mode.is_check_only_spec() ==> r is Ok && new == old
    &&& !old.mode.is_check_only_spec() ==> {
        &&& amount > st.balance(from@, d) ==> r == Err::<(), Error>(Error::InsufficientBalance)
            && new == old
        &&& amount <= st.balance(from@, d) && to_before + amount > u128::MAX ==> r == Err::<
            (),
            Error,
        >(Error::InvalidArgument) && new.state.balance_set(st, from@, d, after_sub) && new.events
            == old.events
        &&& amount <= st.balance(from@, d) && to_before + amount <= u128::MAX ==> r is Ok
        &&& r is Ok ==> {
            &&& amount <= st.balance(from@, d)
            &&& to_before + amount <= u128::MAX
            &&& new.state.same_except_balances(st)
            &&& forall|a2: Seq<u8>, d2: Seq<u8>| #[trigger]
                new.state.balance_entry(a2, d2) == if d2 == d && a2 == to@ {
                    Some((to_before + amount) as u128)
                } else if d2 == d && a2 == from@ {
                    Some(after_sub)
                } else {
                    st.balance_entry(a2, d2)
                }
            &&& forall|d2: Seq<u8>| #[trigger]
                new.state.sum_of_balances(d2) == st.sum_of_balances(d2)
            &&& event_pushed(
                new.events@,
                old.events@,
                EventView::Transfer { from, to, amount, denomination: d },
            )
        }
    }
}

/// The outcome of minting `amount` of `d` to `to`: refused with
/// `InvalidArgument`, changing nothing, where the balance would overflow;
/// refused with `InvalidArgument` after raising the balance where the total
/// supply would overflow; otherwise minted, with a `Mint` event.
pub open spec fn mint_outcome(
    new: AccountsContext,
    old: AccountsContext,
    to: Address,
    amount: u128,
    d: Seq<u8>,
    r: Result<(), Error>,
) -> bool {
    let st = old.state;
    let new_bal = st.balance(to@, d) + amount;
    &&& new.only_state_events_changed(old)
    &&& new_bal > u128::MAX ==> r == Err::<(), Error>(Error::InvalidArgument) && new == old
    &&& new_bal <= u128::MAX && st.total_supply(d) + amount > u128::MAX ==> r == Err::<(), Error>(
        Error::InvalidArgument,
    ) && new.state.balance_set(st, to@, d, new_bal as u128) && new.events == old.events
    &&& new_bal <= u128::MAX && st.total_supply(d) + amount <= u128::MAX ==> r is Ok
    &&& r is Ok ==> {
        &&& new_bal <= u128::MAX
        &&& st.total_supply(d) + amount <= u128::MAX
        &&& new.state.minted(st, to@, d, amount)
        &&& event_pushed(
            new.events@,
            old.events@,
            EventView::Mint { owner: to, amount, denomination: d },
        )
    }
}

/// Burning `amount` of `d` from `from` does not fail on the total supply:
/// where the account holds the amount, the total supply holds it too.
pub open spec fn burn_safe(st: AccountsState, from: Address, amount: u128, d: Seq<u8>) -> bool {
    amount <= st.balance(from@, d) ==> amount <= st.total_supply(d)
}

/// The outcome of burning `amount` of `d` from `from`: refused with
/// `InsufficientBalance`, changing nothing, where the account holds less;
/// otherwise burned, with a `Burn` event.
pub open spec fn burn_outcome(
    new: AccountsContext,
    old: AccountsContext,
    from: Address,
    amount: u128,
    d: Seq<u8>,
    r: Result<(), Error>,
) -> bool {
    let st = old.state;
    &&& new.only_state_events_changed(old)
    &&& amount > st.balance(from@, d) ==> r == Err::<(), Error>(Error::InsufficientBalance) && new
        == old
    &&& amount <= st.balance(from@, d) ==> r is Ok && new.state.burned(st, from@, d, amount)
        && event_pushed(
        new.events@,
        old.events@,
        EventView::Burn { owner: from, amount, denomination: d },
    )
}

/// The accounts module.
pub struct Module;

impl Module {
    /// Transfers an amount from one account to the other, emitting a
    /// `Transfer` event; does nothing when only checking.
    ///
    /// A transfer that succeeds leaves the sum of the balances of every
    /// denomination unchanged.
    pub fn transfer(ctx: &mut AccountsContext, from: Address, to: Address, amount: &BaseUnits) -> (r:
        Result<(), Error>)
        requires
            old(ctx).wf(),
        ensures
            final(ctx).wf(),
            transfer_outcome(*final(ctx), *old(ctx), from, to, amount.amount, amount.denomination@, r),
    {
        if ctx.mode.is_check_only() {
            return Ok(());
        }
        let ghost st0 = ctx.state;
        ctx.state.sub_amount(from, amount)?;
        let ghost st1 = ctx.state;
        ctx.state.add_amount(to, amount)?;
        proof {
            let d = amount.denomination@;
            assert forall|d2: Seq<u8>| #[trigger]
                ctx.state.sum_of_balances(d2) == st0.sum_of_balances(d2) by {
                assert(st1.sum_of_balances(d2) == st0.sum_of_balances(d2) + if d2 == d {
                    st1.balance(from@, d) - st0.balance(from@, d)
                } else {
                    0
                });
            }
        }
        ctx.events.push(Event::Transfer { from, to, amount: amount.duplicate() });
        proof {
            assert(ctx.events@.take(old(ctx).events@.len() as int) =~= old(ctx).events@);
        }
        Ok(())
    }

    /// Mints new tokens to an account, increasing the total supply, and
    /// emits a `Mint` event.
    ///
    /// A mint that succeeds raises the balance and the total supply by the
    /// same amount.
    pub fn mint(ctx: &mut AccountsContext, to: Address, amount: &BaseUnits) -> (r: Result<(), Error>)
        requires
            old(ctx).wf(),
        ensures
            final(ctx).wf(),
            mint_outcome(*final(ctx), *old(ctx), to, amount.amount, amount.denomination@, r),
    {
        let ghost st0 = ctx.state;
        ctx.state.add_amount(to, amount)?;
        let ghost st1 = ctx.state;
        ctx.state.inc_total_supply(amount)?;
        proof {
            let d = amount.denomination@;
            assert forall|a2: Seq<u8>, d2: Seq<u8>| #[trigger]
                ctx.state.balance_entry(a2, d2) == if a2 == to@ && d2 == d {
                    Some((st0.balance(to@, d) + amount.amount) as u128)
                } else {
                    st0.balance_entry(a2, d2)
                } by {
                assert(ctx.state.balance_entry(a2, d2) == st1.balance_entry(a2, d2));
            }
            assert forall|d2: Seq<u8>| #[trigger]
                ctx.state.sum_of_balances(d2) == st0.sum_of_balances(d2) + if d2 == d {
                    amount.amount as int
                } else {
                    0
                } by {
                assert(ctx.state.sum_of_balances(d2) == st1.sum_of_balances(d2));
                assert(st1.sum_of_balances(d2) == st0.sum_of_balances(d2) + if d2 == d {
                    st1.balance(to@, d) - st0.balance(to@, d)
                } else {
                    0
                });
            }
            assert(st1.total_supply(d) == st0.total_supply(d));
        }
        ctx.events.push(Event::Mint { owner: to, amount: amount.duplicate() });
        proof {
            assert(ctx.events@.take(old(ctx).events@.len() as int) =~= old(ctx).events@);
        }
        Ok(())
    }

    /// Burns tokens of an account, decreasing the total supply, and emits a
    /// `Burn` event. (Where the account holds the amount but the total supply
    /// is smaller, decreasing it fails and the module stops, so those inputs
    /// are left out.)
    ///
    /// A burn that succeeds lowers the balance and the total supply by the
    /// same amount.
    pub fn burn(ctx: &mut AccountsContext, from: Address, amount: &BaseUnits) -> (r: Result<(), Error>)
        requires
            old(ctx).wf(),
            burn_safe(old(ctx).state, from, amount.amount, amount.denomination@),
        ensures
            final(ctx).wf(),
            burn_outcome(*final(ctx), *old(ctx), from, amount.amount, amount.denomination@, r),
    {
        let ghost st0 = ctx.state;
        ctx.state.sub_amount(from, amount)?;
        let ghost st1 = ctx.state;
        proof {
            assert(st1.total_supply(amount.denomination@) == st0.total_supply(amount.denomination@));
        }
        let r = ctx.state.dec_total_supply(amount);
        match r {
            Ok(()) => {},
            Err(_) => {
                proof {
                    assert(false);
                }
            },
        }
        proof {
            let d = amount.denomination@;
            assert forall|a2: Seq<u8>, d2: Seq<u8>| #[trigger]
                ctx.state.balance_entry(a2, d2) == if a2 == from@ && d2 == d {
                    Some((st0.balance(from@, d) - amount.amount) as u128)
                } else {
                    st0.balance_entry(a2, d2)
                } by {
                assert(ctx.state.balance_entry(a2, d2) == st1.balance_entry(a2, d2));
            }
            assert forall|d2: Seq<u8>| #[trigger]
                ctx.state.sum_of_balances(d2) == st0.sum_of_balances(d2) - if d2 == d {
                    amount.amount as int
                } else {
                    0
                } by {
                assert(ctx.state.sum_of_balances(d2) == st1.sum_of_balances(d2));
                assert(st1.sum_of_balances(d2) == st0.sum_of_balances(d2) + if d2 == d {
                    st1.balance(from@, d) - st0.balance(from@, d)
                } else {
                    0
                });
            }
        }
        ctx.events.push(Event::Burn { owner: from, amount: amount.duplicate() });
        proof {
            assert(ctx.events@.take(old(ctx).events@.len() as int) =~= old(ctx).events@);
        }
        Ok(())
    }
}

} // verus!
