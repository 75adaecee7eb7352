//! Transaction authentication in the accounts module: validity rounds,
//! signer nonces, blacklisted payers and fees.
use vstd::prelude::*;

use super::state::AccountsState;
use super::types::Account;
use super::{
    fee_of, AccountsContext, Error, FeeAccumulator, Module, SenderMeta,
    CONTEXT_KEY_FEE_ACCUMULATOR, MAX_CHECK_NONCE_FUTURE_DELTA,
};
use crate::context::{key_of, ContextValue};
use crate::keyed::KvStore;
use crate::modules::core_module::Error as CoreError;
use crate::types::address::Address;
use crate::types::role::Role;
use crate::types::token::BaseUnits;

verus! {

/// The key of the fee accumulator among the context values.
pub open spec fn fee_key() -> Seq<u8> {
    key_of(CONTEXT_KEY_FEE_ACCUMULATOR@)
}

/// The fees of `d` accumulated in the current block.
pub open spec fn block_fee(values: KvStore<String, FeeAccumulator>, d: Seq<u8>) -> int {
    match values.get_spec(fee_key()) {
        Some(acc) => fee_of(acc, d),
        None => 0,
    }
}

/// The accumulated fee entry of `d`, if any.
pub open spec fn block_fee_entry(values: KvStore<String, FeeAccumulator>, d: Seq<u8>) -> Option<u128> {
    match values.get_spec(fee_key()) {
        Some(acc) => acc.total_fees.get_spec(d),
        None => None,
    }
}

/// `new` are the values `old`, but for the fee accumulator, whose entry of
/// `d` is `v`.
pub open spec fn fee_entry_set(
    new: KvStore<String, FeeAccumulator>,
    old: KvStore<String, FeeAccumulator>,
    d: Seq<u8>,
    v: u128,
) -> bool {
    &&& forall|kb: Seq<u8>| kb != fee_key() ==> #[trigger] new.get_spec(kb) == old.get_spec(kb)
    &&& new.get_spec(fee_key()) is Some
    &&& forall|d2: Seq<u8>| #[trigger]
        block_fee_entry(new, d2) == if d2 == d {
            Some(v)
        } else {
            block_fee_entry(old, d2)
        }
}

/// A transaction signer: its address and the nonce it signed with.
#[derive(Debug, Clone, Copy)]
pub struct SignerInfo {
    pub address: Address,
    pub nonce: u64,
}

/// Transaction fee: the amount paid and the gas it pays for.
#[derive(Debug)]
pub struct Fee {
    pub amount: BaseUnits,
    pub gas: u64,
}

/// The price of a unit of gas that a fee pays: the amount divided by the
/// gas, or zero where the gas is zero.
pub open spec fn gas_price_of(amount: u128, gas: u64) -> u128 {
    if gas == 0 {
        0
    } else {
        (amount / (gas as u128)) as u128
    }
}

impl Fee {
    /// The price of a unit of gas (see `gas_price_of`).
    pub fn gas_price(&self) -> (r: u128)
        ensures
            r == gas_price_of(self.amount.amount, self.gas),
    {
        if self.gas == 0 {
            0
        } else {
            self.amount.amount() / (self.gas as u128)
        }
    }
}

/// What authenticates a transaction: its signers (the first one pays), its
/// fee, and the rounds it is valid in.
#[derive(Debug)]
pub struct AuthInfo {
    pub signer_info: Vec<SignerInfo>,
    pub fee: Fee,
    pub not_before: Option<u64>,
    pub not_after: Option<u64>,
}

/// The nonce check of one signer: nothing where checks are disabled; a nonce
/// below the account's is refused; one above is refused where it is too far
/// ahead, before scheduling as a future nonce, and outside checks; it is
/// accepted during checks.
pub open spec fn signer_nonce_error(
    st: AccountsState,
    si: SignerInfo,
    pre_schedule: bool,
    check_only: bool,
) -> Option<CoreError> {
    let n = st.account(si.address@).nonce;
    if st.params.debug_disable_nonce_check {
        None
    } else if si.nonce < n {
        Some(CoreError::InvalidNonce)
    } else if si.nonce == n {
        None
    } else if si.nonce - n > MAX_CHECK_NONCE_FUTURE_DELTA {
        Some(CoreError::InvalidNonce)
    } else if pre_schedule {
        Some(CoreError::FutureNonce)
    } else if !check_only {
        Some(CoreError::InvalidNonce)
    } else {
        None
    }
}

/// The first nonce error among the signers `s`, in order.
pub open spec fn nonces_error(st: AccountsState, s: Seq<SignerInfo>, pre_schedule: bool, check_only: bool) -> Option<
    CoreError,
>
    decreases s.len(),
{
    if s.len() == 0 {
        None
    } else {
        match nonces_error(st, s.drop_last(), pre_schedule, check_only) {
            Some(e) => Some(e),
            None => signer_nonce_error(st, s.last(), pre_schedule, check_only),
        }
    }
}

/// The number of times `a` signs in `s`.
pub open spec fn sign_count(s: Seq<SignerInfo>, a: Seq<u8>) -> int
    decreases s.len(),
{
    if s.len() == 0 {
        0
    } else {
        sign_count(s.drop_last(), a) + if s.last().address@ == a {
            1int
        } else {
            0int
        }
    }
}

/// Where raising the nonce of each signer of `s` in turn first overflows.
pub open spec fn first_nonce_overflow(st: AccountsState, s: Seq<SignerInfo>) -> Option<int>
    decreases s.len(),
{
    if s.len() == 0 {
        None
    } else {
        match first_nonce_overflow(st, s.drop_last()) {
            Some(k) => Some(k),
            None => if st.account(s.last().address@).nonce + sign_count(
                s.drop_last(),
                s.last().address@,
            ) >= u64::MAX {
                Some(s.len() - 1)
            } else {
                None
            },
        }
    }
}

/// `new` is `old` with the nonce of each signer of `s` raised once per
/// signature.
pub open spec fn nonces_raised(new: AccountsState, old: AccountsState, s: Seq<SignerInfo>) -> bool {
    &&& new.params == old.params
    &&& new.balances == old.balances
    &&& new.total_supplies == old.total_supplies
    &&& new.roles == old.roles
    &&& new.role_sequences == old.role_sequences
    &&& new.proposal_counter == old.proposal_counter
    &&& new.proposals == old.proposals
    &&& new.mint_quorum == old.mint_quorum
    &&& new.burn_quorum == old.burn_quorum
    &&& new.whitelist_quorum == old.whitelist_quorum
    &&& new.blacklist_quorum == old.blacklist_quorum
    &&& new.config_quorum == old.config_quorum
    &&& forall|a: Seq<u8>| #[trigger]
        new.accounts.get_spec(a) == if sign_count(s, a) > 0 {
            Some(
                Account {
                    nonce: (old.account(a).nonce + sign_count(s, a)) as u64,
                    ..old.account(a)
                },
            )
        } else {
            old.accounts.get_spec(a)
        }
}

/// `st` with its account metadata replaced by `acc`.
pub open spec fn with_accounts(st: AccountsState, acc: KvStore<Address, Account>) -> AccountsState {
    AccountsState { accounts: acc, ..st }
}

/// The sender metadata of signer `si` in state `st`.
pub open spec fn sender_meta_of(st: AccountsState, si: SignerInfo) -> SenderMeta {
    SenderMeta { address: si.address, tx_nonce: si.nonce, state_nonce: st.account(si.address@).nonce }
}

/// `new` is `old` where only the sender metadata may have changed, to the
/// sender's where only checking.
pub open spec fn sender_checked(new: AccountsContext, old: AccountsContext, s: Seq<SignerInfo>) -> bool {
    &&& new.state == old.state
    &&& new.mode == old.mode && new.round == old.round && new.events == old.events
    &&& new.values == old.values && new.priority == old.priority && new.caller == old.caller
    &&& new.gas == old.gas
    &&& new.sender_meta == if old.mode.is_check_only_spec() {
        Some(sender_meta_of(old.state, s[0]))
    } else {
        old.sender_meta
    }
}

/// The outcome of raising the nonces of the signers `s` from state `old`:
/// each signer's nonce is raised once per signature, in turn, and where one
/// would overflow the update stops there with `InvalidNonce`.
pub open spec fn nonces_updated(new: AccountsState, old: AccountsState, s: Seq<SignerInfo>, r: Result<(), CoreError>) -> bool {
    match first_nonce_overflow(old, s) {
        None => r is Ok && nonces_raised(new, old, s),
        Some(k) => r == Err::<(), CoreError>(CoreError::InvalidNonce) && nonces_raised(new, old, s.take(k)),
    }
}

/// `n` added to `p`, saturating at the maximum.
pub open spec fn saturating_add(p: u64, n: u64) -> u64 {
    if p + n > u64::MAX {
        u64::MAX
    } else {
        (p + n) as u64
    }
}

/// The priority that a gas price gives, saturating at the maximum.
pub open spec fn price_priority(price: u128) -> u64 {
    if price > u64::MAX {
        u64::MAX
    } else {
        price as u64
    }
}

/// Whether `round` is before or after the validity of a transaction.
pub open spec fn expired(auth_not_before: Option<u64>, auth_not_after: Option<u64>, round: u64) -> bool {
    (auth_not_before matches Some(nb) && round < nb) || (auth_not_after matches Some(na) && round > na)
}

/// The outcome of authenticating a transaction with `auth` (signers `s`, fee
/// `fee` of `d`): refused as expired outside its rounds; refused with the
/// first nonce error; refused where the payer (the first signer) is
/// blacklisted or cannot pay the fee; otherwise the fee moves from the payer
/// into the fee accumulator (only outside checks and simulations), the
/// priority grows by the gas price, and outside checks the nonces are
/// raised.
pub open spec fn auth_outcome(
    new: AccountsContext,
    old: AccountsContext,
    s: Seq<SignerInfo>,
    fee: u128,
    d: Seq<u8>,
    gas: u64,
    not_before: Option<u64>,
    not_after: Option<u64>,
    r: Result<(), CoreError>,
) -> bool {
    let st = old.state;
    let chk = old.mode.is_check_only_spec();
    let pre = old.mode == crate::context::Mode::PreScheduleTx;
    let payer = s[0].address;
    let checked = AccountsContext {
        sender_meta: if chk {
            Some(sender_meta_of(st, s[0]))
        } else {
            old.sender_meta
        },
        ..old
    };
    let fee_moved = fee != 0 && !chk && old.mode != crate::context::Mode::SimulateTx;
    if expired(not_before, not_after, old.round) {
        r == Err::<(), CoreError>(CoreError::ExpiredTransaction) && new == old
    } else if nonces_error(st, s, pre, chk) is Some {
        r == Err::<(), CoreError>(nonces_error(st, s, pre, chk)->0) && new == old
    } else if st.account(payer@).role == Role::BlacklistedUser {
        r == Err::<(), CoreError>(CoreError::NotAuthenticated) && new == checked
    } else if fee != 0 && old.mode != crate::context::Mode::SimulateTx && fee > st.balance(payer@, d) {
        r == Err::<(), CoreError>(CoreError::InsufficientFeeBalance) && new == checked
    } else {
        let mid = with_accounts(new.state, st.accounts);
        &&& new.mode == old.mode && new.round == old.round && new.events == old.events
        &&& new.caller == old.caller && new.gas == old.gas
        &&& new.sender_meta == checked.sender_meta
        &&& new.priority == if fee != 0 {
            saturating_add(old.priority, price_priority(gas_price_of(fee, gas)))
        } else {
            old.priority
        }
        &&& fee_moved ==> mid.balance_set(st, payer@, d, (st.balance(payer@, d) - fee) as u128)
            && fee_entry_set(new.values, old.values, d, (block_fee(old.values, d) + fee) as u128)
        &&& !fee_moved ==> mid == st && new.values == old.values
        &&& chk ==> r is Ok && new.state.accounts == st.accounts
        &&& !chk ==> nonces_updated(new.state, mid, s, r)
    }
}

/// The outcome of moving `amount` of `d` out of the fee accumulator to `to`:
/// nothing happens when simulating; otherwise the accumulator's entry of
/// `d` is created where missing and lowered by the amount where it holds
/// it (refused with `InsufficientFeeBalance` otherwise), and then the
/// amount is added to `to` (refused with `InsufficientFeeBalance` where the
/// balance would overflow).
pub open spec fn move_from_outcome(
    new: AccountsContext,
    old: AccountsContext,
    to: Address,
    amount: u128,
    d: Seq<u8>,
    r: Result<(), CoreError>,
) -> bool {
    let st = old.state;
    let fee = block_fee(old.values, d);
    &&& old.mode == crate::context::Mode::SimulateTx ==> r is Ok && new == old
    &&& old.mode != crate::context::Mode::SimulateTx ==> {
        &&& new.mode == old.mode && new.round == old.round
        &&& new.events == old.events && new.priority == old.priority
        &&& new.sender_meta == old.sender_meta && new.caller == old.caller
        &&& new.gas == old.gas
        &&& amount > fee ==> r == Err::<(), CoreError>(CoreError::InsufficientFeeBalance)
            && new.state == st && fee_entry_set(new.values, old.values, d, fee as u128)
        &&& amount <= fee ==> fee_entry_set(new.values, old.values, d, (fee - amount) as u128)
        &&& amount <= fee && st.balance(to@, d) + amount > u128::MAX ==> r == Err::<(), CoreError>(
            CoreError::InsufficientFeeBalance,
        ) && new.state == st
        &&& amount <= fee && st.balance(to@, d) + amount <= u128::MAX ==> r is Ok
            && new.state.balance_set(st, to@, d, (st.balance(to@, d) + amount) as u128)
    }
}

impl Module {
    /// Checks that `address` holds at least `amount`.
    pub fn ensure_balance(st: &AccountsState, address: Address, amount: &BaseUnits) -> (r: Result<(), Error>)
        requires
            st.wf(),
        ensures
            r is Ok <==> amount.amount <= st.balance(address@, amount.denomination@),
            r is Err ==> r == Err::<(), Error>(Error::InsufficientBalance),
    {
        let balance = match st.get_balance(address, amount.denomination()) {
            Ok(b) => b,
            Err(e) => {
                return Err(e);
            },
        };
        if balance < amount.amount() {
            Err(Error::InsufficientBalance)
        } else {
            Ok(())
        }
    }

    /// Moves a fee from `from` into the fee accumulator of the block; does
    /// nothing when simulating.
    pub fn move_into_fee_accumulator(ctx: &mut AccountsContext, from: Address, amount: &BaseUnits) -> (r:
        Result<(), CoreError>)
        requires
            old(ctx).wf(),
            old(ctx).mode != crate::context::Mode::SimulateTx && amount.amount <= old(
                ctx,
            ).state.balance(from@, amount.denomination@) ==> block_fee(old(ctx).values, amount.denomination@) + amount.amount <= u128::MAX,
        ensures
            final(ctx).wf(),
            ({
                let d = amount.denomination@;
                let st = old(ctx).state;
                &&& old(ctx).mode == crate::context::Mode::SimulateTx ==> r is Ok && *final(ctx)
                    == *old(ctx)
                &&& old(ctx).mode != crate::context::Mode::SimulateTx && amount.amount > st.balance(
                    from@,
                    d,
                ) ==> r == Err::<(), CoreError>(CoreError::InsufficientFeeBalance) && *final(ctx)
                    == *old(ctx)
                &&& old(ctx).mode != crate::context::Mode::SimulateTx && amount.amount <= st.balance(
                    from@,
                    d,
                ) ==> {
                    &&& r is Ok
                    &&& final(ctx).state.balance_set(st, from@, d, (st.balance(from@, d) - amount.amount) as u128)
                    &&& fee_entry_set(final(ctx).values, old(ctx).values, d, (block_fee(old(ctx).values, d) + amount.amount) as u128)
                    &&& final(ctx).mode == old(ctx).mode && final(ctx).round == old(ctx).round
                    &&& final(ctx).events == old(ctx).events && final(ctx).priority == old(ctx).priority
                    &&& final(ctx).sender_meta == old(ctx).sender_meta && final(ctx).caller == old(ctx).caller
                    &&& final(ctx).gas == old(ctx).gas
                }
            }),
    {
        if ctx.mode.is_simulation() {
            return Ok(());
        }
        match ctx.state.sub_amount(from, amount) {
            Ok(()) => {},
            Err(_) => {
                return Err(CoreError::InsufficientFeeBalance);
            },
        }
        let ghost c1 = *ctx;
        let acc = ContextValue::new(&mut ctx.values, CONTEXT_KEY_FEE_ACCUMULATOR).or_default();
        acc.add(amount);
        Ok(())
    }

    /// Moves a fee out of the fee accumulator of the block to `to`; does
    /// nothing when simulating. The accumulator (and its entry of the fee's
    /// denomination) is created where missing, even when the move fails.
    pub fn move_from_fee_accumulator(ctx: &mut AccountsContext, to: Address, amount: &BaseUnits) -> (r:
        Result<(), CoreError>)
        requires
            old(ctx).wf(),
        ensures
            final(ctx).wf(),
            move_from_outcome(*final(ctx), *old(ctx), to, amount.amount, amount.denomination@, r),
    {
        if ctx.mode.is_simulation() {
            return Ok(());
        }
        let acc = ContextValue::new(&mut ctx.values, CONTEXT_KEY_FEE_ACCUMULATOR).or_default();
        let sub = acc.sub(amount);
        match sub {
            Ok(()) => {},
            Err(_) => {
                return Err(CoreError::InsufficientFeeBalance);
            },
        }
        match ctx.state.add_amount(to, amount) {
            Ok(()) => Ok(()),
            Err(_) => Err(CoreError::InsufficientFeeBalance),
        }
    }

    /// Checks the nonces of the signers in turn (see `signer_nonce_error`)
    /// and gives the payer, the first signer; where only checking, records
    /// the payer as the sender.
    pub fn check_signer_nonces(ctx: &mut AccountsContext, auth_info: &AuthInfo) -> (r: Result<Address, CoreError>)
        requires
            old(ctx).wf(),
            auth_info.signer_info@.len() > 0,
        ensures
            final(ctx).wf(),
            ({
                let s = auth_info.signer_info@;
                let pre = old(ctx).mode == crate::context::Mode::PreScheduleTx;
                let chk = old(ctx).mode.is_check_only_spec();
                match nonces_error(old(ctx).state, s, pre, chk) {
                    Some(e) => r == Err::<Address, CoreError>(e) && *final(ctx) == *old(ctx),
                    None => r == Ok::<Address, CoreError>(s[0].address) && sender_checked(*final(ctx), *old(ctx), s),
                }
            }),
    {
        let is_pre_schedule = ctx.mode.is_pre_schedule();
        let is_check_only = ctx.mode.is_check_only();
        let debug = ctx.state.params.debug_disable_nonce_check;
        let ghost s = auth_info.signer_info@;
        let mut sender: Option<SenderMeta> = None;
        let mut i: usize = 0;
        while i < auth_info.signer_info.len()
            invariant
                ctx.wf(),
                *ctx == *old(ctx),
                s == auth_info.signer_info@,
                s.len() > 0,
                0 <= i <= s.len(),
                debug == ctx.state.params.debug_disable_nonce_check,
                is_pre_schedule == (ctx.mode == crate::context::Mode::PreScheduleTx),
                is_check_only == ctx.mode.is_check_only_spec(),
                nonces_error(ctx.state, s.take(i as int), is_pre_schedule, is_check_only) is None,
                i == 0 ==> sender is None,
                i > 0 ==> sender == Some(sender_meta_of(ctx.state, s[0])),
            decreases s.len() - i,
        {
            proof {
                assert(s.take(i + 1).drop_last() =~= s.take(i as int));
                assert(s.take(i + 1).last() == s[i as int]);
            }
            let si = auth_info.signer_info[i];
            let account_nonce = match ctx.state.get_nonce(si.address) {
                Ok(n) => n,
                Err(_) => 0,
            };
            if sender.is_none() {
                sender = Some(SenderMeta { address: si.address, tx_nonce: si.nonce, state_nonce: account_nonce });
            }
            if !debug {
                if si.nonce < account_nonce {
                    proof {
                        lemma_nonces_error_kept(ctx.state, s, i + 1, is_pre_schedule, is_check_only);
                    }
                    return Err(CoreError::InvalidNonce);
                } else if si.nonce > account_nonce {
                    if si.nonce - account_nonce > MAX_CHECK_NONCE_FUTURE_DELTA {
                        proof {
                            lemma_nonces_error_kept(ctx.state, s, i + 1, is_pre_schedule, is_check_only);
                        }
                        return Err(CoreError::InvalidNonce);
                    }
                    if is_pre_schedule {
                        proof {
                            lemma_nonces_error_kept(ctx.state, s, i + 1, is_pre_schedule, is_check_only);
                        }
                        return Err(CoreError::FutureNonce);
                    }
                    if !is_check_only {
                        proof {
                            lemma_nonces_error_kept(ctx.state, s, i + 1, is_pre_schedule, is_check_only);
                        }
                        return Err(CoreError::InvalidNonce);
                    }
                }
            }
            i = i + 1;
        }
        proof {
            assert(s.take(s.len() as int) =~= s);
        }
        let sender = match sender {
            Some(m) => m,
            None => {
                return Err(CoreError::InvalidNonce);
            },
        };
        if is_check_only {
            ctx.sender_meta = Some(sender);
        }
        Ok(sender.address)
    }

    /// Raises the nonce of each signer in turn (see `nonces_updated`).
    pub fn update_signer_nonces(ctx: &mut AccountsContext, auth_info: &AuthInfo) -> (r: Result<(), CoreError>)
        requires
            old(ctx).wf(),
        ensures
            final(ctx).wf(),
            nonces_updated(final(ctx).state, old(ctx).state, auth_info.signer_info@, r),
            final(ctx).mode == old(ctx).mode && final(ctx).round == old(ctx).round,
            final(ctx).events == old(ctx).events && final(ctx).values == old(ctx).values,
            final(ctx).priority == old(ctx).priority && final(ctx).sender_meta == old(ctx).sender_meta,
            final(ctx).caller == old(ctx).caller && final(ctx).gas == old(ctx).gas,
    {
        let ghost s = auth_info.signer_info@;
        let ghost st = ctx.state;
        let mut i: usize = 0;
        proof {
            assert(s.take(0) =~= Seq::<SignerInfo>::empty());
        }
        while i < auth_info.signer_info.len()
            invariant
                ctx.wf(),
                s == auth_info.signer_info@,
                st == old(ctx).state,
                0 <= i <= s.len(),
                first_nonce_overflow(st, s.take(i as int)) is None,
                nonces_raised(ctx.state, st, s.take(i as int)),
                forall|a2: Seq<u8>| st.account(a2).nonce + #[trigger] sign_count(s.take(i as int), a2) <= u64::MAX,
                ctx.mode == old(ctx).mode && ctx.round == old(ctx).round,
                ctx.events == old(ctx).events && ctx.values == old(ctx).values,
                ctx.priority == old(ctx).priority && ctx.sender_meta == old(ctx).sender_meta,
                ctx.caller == old(ctx).caller && ctx.gas == old(ctx).gas,
            decreases s.len() - i,
        {
            let si = auth_info.signer_info[i];
            let ghost a = si.address@;
            proof {
                assert(s.take(i + 1).drop_last() =~= s.take(i as int));
                assert(s.take(i + 1).last() == s[i as int]);
            }
            let nonce = match ctx.state.get_nonce(si.address) {
                Ok(n) => n,
                Err(_) => 0,
            };
            proof {
                assert(ctx.state.accounts.get_spec(a) == if sign_count(s.take(i as int), a) > 0 {
                    Some(Account { nonce: (st.account(a).nonce + sign_count(s.take(i as int), a)) as u64, ..st.account(a) })
                } else {
                    st.accounts.get_spec(a)
                });
                lemma_sign_count_nonneg(s.take(i as int), a);
                assert(nonce == st.account(a).nonce + sign_count(s.take(i as int), a));
            }
            if nonce == u64::MAX {
                proof {
                    lemma_first_overflow_kept(st, s, i + 1);
                }
                return Err(CoreError::InvalidNonce);
            }
            let ghost before = ctx.state;
            ctx.state.set_nonce(si.address, nonce + 1);
            proof {
                assert forall|a2: Seq<u8>| #[trigger] sign_count(s.take(i + 1), a2) == sign_count(s.take(i as int), a2) + if s[i as int].address@ == a2 { 1int } else { 0int } by {}
                assert forall|a2: Seq<u8>| #[trigger] ctx.state.accounts.get_spec(a2) == if sign_count(s.take(i + 1), a2) > 0 {
                    Some(Account { nonce: (st.account(a2).nonce + sign_count(s.take(i + 1), a2)) as u64, ..st.account(a2) })
                } else {
                    st.accounts.get_spec(a2)
                } by {
                    assert(before.accounts.get_spec(a2) == if sign_count(s.take(i as int), a2) > 0 {
                        Some(Account { nonce: (st.account(a2).nonce + sign_count(s.take(i as int), a2)) as u64, ..st.account(a2) })
                    } else {
                        st.accounts.get_spec(a2)
                    });
                    lemma_sign_count_nonneg(s.take(i as int), a2);
                }
            }
            i = i + 1;
        }
        proof {
            assert(s.take(s.len() as int) =~= s);
        }
        Ok(())
    }

    /// Authenticates a transaction (see `auth_outcome`).
    pub fn authenticate_tx(ctx: &mut AccountsContext, auth_info: &AuthInfo) -> (r: Result<(), CoreError>)
        requires
            old(ctx).wf(),
            auth_info.signer_info@.len() > 0,
            ({
                let fee = auth_info.fee.amount.amount;
                let d = auth_info.fee.amount.denomination@;
                let payer = auth_info.signer_info@[0].address;
                old(ctx).mode != crate::context::Mode::SimulateTx && !old(ctx).mode.is_check_only_spec()
                    && fee != 0 && fee <= old(ctx).state.balance(payer@, d) ==> block_fee(old(ctx).values, d)
                    + fee <= u128::MAX
            }),
        ensures
            final(ctx).wf(),
            auth_outcome(
                *final(ctx),
                *old(ctx),
                auth_info.signer_info@,
                auth_info.fee.amount.amount,
                auth_info.fee.amount.denomination@,
                auth_info.fee.gas,
                auth_info.not_before,
                auth_info.not_after,
                r,
            ),
    {
        let round = ctx.round;
        if let Some(not_before) = auth_info.not_before {
            if round < not_before {
                return Err(CoreError::ExpiredTransaction);
            }
        }
        if let Some(not_after) = auth_info.not_after {
            if round > not_after {
                return Err(CoreError::ExpiredTransaction);
            }
        }
        let payer = Self::check_signer_nonces(ctx, auth_info)?;
        let ghost checked = *ctx;
        let role = match ctx.state.get_role(payer) {
            Ok(rl) => rl,
            Err(_) => Role::User,
        };
        if role == Role::BlacklistedUser {
            return Err(CoreError::NotAuthenticated);
        }
        if auth_info.fee.amount.amount() != 0 {
            if ctx.mode.is_check_only() {
                match Self::ensure_balance(&ctx.state, payer, &auth_info.fee.amount) {
                    Ok(()) => {},
                    Err(_) => {
                        return Err(CoreError::InsufficientFeeBalance);
                    },
                }
            } else {
                Self::move_into_fee_accumulator(ctx, payer, &auth_info.fee.amount)?;
            }
            let gas_price = auth_info.fee.gas_price();
            let priority: u64 = if gas_price > (u64::MAX as u128) {
                u64::MAX
            } else {
                gas_price as u64
            };
            ctx.priority = ctx.priority.saturating_add(priority);
        }
        if !ctx.mode.is_check_only() {
            let ghost before = ctx.state;
            let res = Self::update_signer_nonces(ctx, auth_info);
            proof {
                assert(with_accounts(ctx.state, old(ctx).state.accounts) == before);
            }
            return res;
        }
        Ok(())
    }

    /// After a transaction was dispatched: during checks, where the call
    /// succeeded, takes the fee from the payer and raises the nonces, as a
    /// transaction that is executed would; otherwise does nothing.
    pub fn after_dispatch_tx(ctx: &mut AccountsContext, auth_info: &AuthInfo, call_ok: bool)
        requires
            old(ctx).wf(),
            auth_info.signer_info@.len() > 0,
            old(ctx).mode.is_check_only_spec() && call_ok ==> {
                let s = auth_info.signer_info@;
                let pre = old(ctx).mode == crate::context::Mode::PreScheduleTx;
                &&& nonces_error(old(ctx).state, s, pre, true) is None
                &&& auth_info.fee.amount.amount <= old(ctx).state.balance(
                    s[0].address@,
                    auth_info.fee.amount.denomination@,
                )
                &&& first_nonce_overflow(old(ctx).state, s) is None
            },
        ensures
            final(ctx).wf(),
            !(old(ctx).mode.is_check_only_spec() && call_ok) ==> *final(ctx) == *old(ctx),
            old(ctx).mode.is_check_only_spec() && call_ok ==> {
                let s = auth_info.signer_info@;
                let st = old(ctx).state;
                let payer = s[0].address;
                let d = auth_info.fee.amount.denomination@;
                let mid = with_accounts(final(ctx).state, st.accounts);
                &&& mid.balance_set(st, payer@, d, (st.balance(payer@, d) - auth_info.fee.amount.amount) as u128)
                &&& nonces_raised(final(ctx).state, mid, s)
                &&& final(ctx).sender_meta == Some(sender_meta_of(st, s[0]))
                &&& final(ctx).mode == old(ctx).mode && final(ctx).round == old(ctx).round
                &&& final(ctx).events == old(ctx).events && final(ctx).values == old(ctx).values
                &&& final(ctx).priority == old(ctx).priority && final(ctx).caller == old(ctx).caller
                &&& final(ctx).gas == old(ctx).gas
            },
    {
        if !ctx.mode.is_check_only() {
            return;
        }
        if !call_ok {
            return;
        }
        let payer = match Self::check_signer_nonces(ctx, auth_info) {
            Ok(p) => p,
            Err(_) => {
                proof {
                    assert(false);
                }
                return;
            },
        };
        match ctx.state.sub_amount(payer, &auth_info.fee.amount) {
            Ok(()) => {},
            Err(_) => {
                proof {
                    assert(false);
                }
                return;
            },
        }
        let ghost before = ctx.state;
        proof {
            lemma_first_overflow_same_accounts(old(ctx).state, before, auth_info.signer_info@);
        }
        match Self::update_signer_nonces(ctx, auth_info) {
            Ok(()) => {},
            Err(_) => {
                proof {
                    assert(false);
                }
            },
        }
        proof {
            assert(with_accounts(ctx.state, old(ctx).state.accounts) == before);
        }
    }
}

/// Where nonces overflow depends on the account metadata only.
proof fn lemma_first_overflow_same_accounts(a: AccountsState, b: AccountsState, s: Seq<SignerInfo>)
    requires
        a.accounts == b.accounts,
    ensures
        first_nonce_overflow(a, s) == first_nonce_overflow(b, s),
    decreases s.len(),
{
    if s.len() > 0 {
        lemma_first_overflow_same_accounts(a, b, s.drop_last());
    }
}

/// A count of signatures is never negative.
proof fn lemma_sign_count_nonneg(s: Seq<SignerInfo>, a: Seq<u8>)
    ensures
        sign_count(s, a) >= 0,
    decreases s.len(),
{
    if s.len() > 0 {
        lemma_sign_count_nonneg(s.drop_last(), a);
    }
}

/// A nonce error among the first signers is the first error of all.
proof fn lemma_nonces_error_kept(st: AccountsState, s: Seq<SignerInfo>, i: int, pre: bool, chk: bool)
    requires
        0 <= i <= s.len(),
        nonces_error(st, s.take(i), pre, chk) is Some,
    ensures
        nonces_error(st, s, pre, chk) == nonces_error(st, s.take(i), pre, chk),
    decreases s.len() - i,
{
    if i < s.len() {
        assert(s.take(i + 1).drop_last() =~= s.take(i));
        lemma_nonces_error_kept(st, s, i + 1, pre, chk);
    } else {
        assert(s.take(i) =~= s);
    }
}

/// An overflow among the first signers is the first overflow of all.
proof fn lemma_first_overflow_kept(st: AccountsState, s: Seq<SignerInfo>, i: int)
    requires
        0 <= i <= s.len(),
        first_nonce_overflow(st, s.take(i)) is Some,
    ensures
        first_nonce_overflow(st, s) == first_nonce_overflow(st, s.take(i)),
    decreases s.len() - i,
{
    if i < s.len() {
        assert(s.take(i + 1).drop_last() =~= s.take(i));
        lemma_first_overflow_kept(st, s, i + 1);
    } else {
        assert(s.take(i) =~= s);
    }
}

} // verus!
