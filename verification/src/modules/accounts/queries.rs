//! The queries of the accounts module.
use vstd::prelude::*;

use super::state::{den_entries, holders_of};
use super::types::{
    is_default_proposal, same_proposal, AccountBalances, AddressesQuery, BalancesQuery,
    DenominationInfo, DenominationInfoQuery, InitInfoQuery, NonceQuery, Proposal, QuorumQuery,
    RoleAddressesQuery, RoleQuery,
};
use super::{AccountsContext, Error, Module};
use crate::keyed::Key;
use crate::types::address::Address;
use crate::types::role::Role;

verus! {

impl Module {
    /// The role of an account.
    pub fn query_role(ctx: &AccountsContext, args: RoleQuery) -> (r: Result<Role, Error>)
        requires
            ctx.state.wf(),
        ensures
            r == Ok::<Role, Error>(ctx.state.account(args.address@).role),
    {
        ctx.state.get_role(args.address)
    }

    /// Whether an account has been initialized.
    pub fn query_init(ctx: &AccountsContext, args: InitInfoQuery) -> (r: Result<bool, Error>)
        requires
            ctx.state.wf(),
        ensures
            r == Ok::<bool, Error>(ctx.state.account(args.address@).init),
    {
        ctx.state.get_initstatus(args.address)
    }

    /// The quorum of an action (see `AccountsState::get_quorum`).
    pub fn query_quorum(ctx: &AccountsContext, args: QuorumQuery) -> (r: Result<u8, Error>)
        ensures
            match ctx.state.quorum_of(args.action) {
                Some(q) => r == Ok::<u8, Error>(q),
                None => r == Err::<u8, Error>(Error::NotFound),
            },
    {
        ctx.state.get_quorum(args.action)
    }

    /// The addresses that hold a role, in address order.
    pub fn query_roleaddresses(ctx: &AccountsContext, args: RoleAddressesQuery) -> (r: Result<Vec<Address>, Error>)
        requires
            ctx.state.wf(),
        ensures
            r matches Ok(v) && v@ == ctx.state.members_of(args.role),
    {
        ctx.state.get_addresses_in_role(args.role)
    }

    /// The last proposal id given.
    pub fn query_proposal_id(ctx: &AccountsContext) -> (r: Result<u32, Error>)
        ensures
            r == Ok::<u32, Error>(ctx.state.proposal_id()),
    {
        ctx.state.get_proposal_id()
    }

    /// The proposal under an id, or the default proposal where there is none.
    pub fn query_proposal(ctx: &AccountsContext, id: u32) -> (r: Result<Proposal, Error>)
        requires
            ctx.state.wf(),
        ensures
            match ctx.state.proposals.get_spec(id.key_bytes()) {
                Some(p) => r matches Ok(q) && same_proposal(q, p),
                None => r matches Ok(q) && is_default_proposal(q),
            },
    {
        ctx.state.get_proposal(id)
    }

    /// The nonce of an account.
    pub fn query_nonce(ctx: &AccountsContext, args: NonceQuery) -> (r: Result<u64, Error>)
        requires
            ctx.state.wf(),
        ensures
            r == Ok::<u64, Error>(ctx.state.account(args.address@).nonce),
    {
        ctx.state.get_nonce(args.address)
    }

    /// The addresses with a balance of a denomination, in address order.
    pub fn query_addresses(ctx: &AccountsContext, args: AddressesQuery) -> (r: Result<Vec<Address>, Error>)
        requires
            ctx.state.wf(),
        ensures
            r matches Ok(v) && v@ == holders_of(ctx.state.balances.entries@, args.denomination@),
    {
        ctx.state.get_addresses(&args.denomination)
    }

    /// The balances of an account, in denomination order.
    pub fn query_balances(ctx: &AccountsContext, args: BalancesQuery) -> (r: Result<AccountBalances, Error>)
        requires
            ctx.state.wf(),
        ensures
            r matches Ok(b) && den_entries(b.balances@) == match ctx.state.balances.get_spec(
                args.address@,
            ) {
                Some(inner) => den_entries(inner.entries@),
                None => Seq::empty(),
            },
    {
        ctx.state.get_balances(args.address)
    }

    /// Information about a denomination.
    pub fn query_denomination_info(ctx: &AccountsContext, args: DenominationInfoQuery) -> (r: Result<
        DenominationInfo,
        Error,
    >)
        requires
            ctx.state.wf(),
        ensures
            match ctx.state.params.denomination_infos.get_spec(args.denomination@) {
                Some(info) => r == Ok::<DenominationInfo, Error>(info),
                None => r == Err::<DenominationInfo, Error>(Error::NotFound),
            },
    {
        ctx.state.get_denomination_info(&args.denomination)
    }
}

} // verus!
