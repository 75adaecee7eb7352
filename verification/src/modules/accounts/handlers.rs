//! The transaction handlers of the accounts module: transfers, proposals,
//! votes, owner initialization, mint and burn.
use vstd::prelude::*;

use super::state::AccountsState;
use super::types::{Account, BurnST, MintST, Proposal, ProposalContent, ProposalData, RoleAddress, Transfer};
use super::voting::paid;
use super::{burn_outcome, burn_safe, mint_outcome, transfer_outcome, AccountsContext, Error, Module};
use crate::keyed::Key;
use crate::modules::core_module::TxGas;
use crate::types::address::Address;
use crate::types::proposal::ProposalState;
use crate::types::role::Role;
use crate::types::vote::Action;

verus! {

/// The role that votes on proposals of `action`.
pub open spec fn voter_role(action: Action) -> Option<Role> {
    match action {
        Action::NoAction => None,
        Action::SetRoles => Some(Role::Admin),
        Action::Mint => Some(Role::MintVoter),
        Action::Burn => Some(Role::BurnVoter),
        Action::Whitelist => Some(Role::WhitelistVoter),
        Action::Blacklist => Some(Role::BlacklistVoter),
        Action::Config => Some(Role::Admin),
    }
}

/// The role that proposes proposals of `action`.
pub open spec fn proposer_role(action: Action) -> Option<Role> {
    match action {
        Action::NoAction => None,
        Action::SetRoles => Some(Role::Admin),
        Action::Mint => Some(Role::MintProposer),
        Action::Burn => Some(Role::BurnProposer),
        Action::Whitelist => Some(Role::WhitelistProposer),
        Action::Blacklist => Some(Role::BlacklistProposer),
        Action::Config => Some(Role::Admin),
    }
}

/// A quorum that is unset or at most 100.
pub open spec fn quorum_valid(q: Option<u8>) -> bool {
    match q {
        Some(v) => v <= 100,
        None => true,
    }
}

/// The quorums of a `Config` proposal are all valid and at least one is set.
pub open spec fn config_data_valid(data: ProposalData) -> bool {
    &&& quorum_valid(data.mint_quorum)
    &&& quorum_valid(data.burn_quorum)
    &&& quorum_valid(data.whitelist_quorum)
    &&& quorum_valid(data.blacklist_quorum)
    &&& quorum_valid(data.config_quorum)
    &&& (data.mint_quorum is Some || data.burn_quorum is Some || data.whitelist_quorum is Some
        || data.blacklist_quorum is Some || data.config_quorum is Some)
}

/// Whether `caller` may propose `content` in state `st`, and if not, why:
/// the caller must hold the proposer or the voter role of the action; mint
/// and burn must target a whitelisted user, whitelisting must not target a
/// blacklisted user, blacklisting must target a plain user, and a quorum
/// change must set valid quorums.
pub open spec fn propose_check(st: AccountsState, caller: Address, content: ProposalContent) -> Result<(), Error> {
    let role = st.account(caller@).role;
    let data = content.data;
    match (proposer_role(content.action), voter_role(content.action)) {
        (Some(p), Some(v)) => if role != p && role != v {
            Err(Error::InvalidRole)
        } else {
            match content.action {
                Action::Mint | Action::Burn => match data.address {
                    None => Err(Error::NotFound),
                    Some(a) => if st.account(a@).role != Role::WhitelistedUser {
                        Err(Error::InvalidArgument)
                    } else {
                        Ok(())
                    },
                },
                Action::SetRoles => Ok(()),
                Action::Config => if config_data_valid(data) {
                    Ok(())
                } else {
                    Err(Error::InvalidArgument)
                },
                Action::Whitelist => match data.address {
                    None => Err(Error::NotFound),
                    Some(a) => if st.account(a@).role == Role::BlacklistedUser {
                        Err(Error::InvalidArgument)
                    } else {
                        Ok(())
                    },
                },
                Action::Blacklist => match data.address {
                    None => Err(Error::NotFound),
                    Some(a) => if st.account(a@).role != Role::User {
                        Err(Error::InvalidArgument)
                    } else {
                        Ok(())
                    },
                },
                Action::NoAction => Err(Error::InvalidArgument),
            }
        },
        _ => Err(Error::InvalidRole),
    }
}

/// `new` is `old` where only the gas changed, as using `amount` gas gives
/// `r`.
pub open spec fn gas_used(new: TxGas, old: TxGas, amount: u64, ok: bool) -> bool {
    &&& new.limit == old.limit
    &&& ok ==> new.used == old.used + amount
    &&& !ok ==> new.used == old.used
}

/// Using `amount` gas on `g` succeeds.
pub open spec fn gas_fits(g: TxGas, amount: u64) -> bool {
    g.used + amount <= g.limit
}

/// The error of using `amount` gas on `g`, where it fails.
pub open spec fn gas_error(g: TxGas, amount: u64) -> crate::modules::core_module::Error {
    if g.used + amount > u64::MAX {
        crate::modules::core_module::Error::GasOverflow
    } else {
        crate::modules::core_module::Error::OutOfGas(g.limit, amount)
    }
}

/// The role that `a` was last given in `ras`, if any.
pub open spec fn last_role(ras: Seq<RoleAddress>, a: Seq<u8>) -> Option<Role>
    decreases ras.len(),
{
    if ras.len() == 0 {
        None
    } else if ras.last().address@ == a {
        Some(ras.last().role)
    } else {
        last_role(ras.drop_last(), a)
    }
}

/// `new` is `old` where each address of `ras` was given, in turn, its role
/// (so the last role given to an address stands): its account metadata
/// holds the role, and its role entry is the role (no entry for `User`).
pub open spec fn roles_given(new: AccountsState, old: AccountsState, ras: Seq<RoleAddress>) -> bool {
    &&& new.params == old.params
    &&& new.balances == old.balances
    &&& new.total_supplies == old.total_supplies
    &&& new.role_sequences == old.role_sequences
    &&& new.proposal_counter == old.proposal_counter
    &&& new.proposals == old.proposals
    &&& new.mint_quorum == old.mint_quorum
    &&& new.burn_quorum == old.burn_quorum
    &&& new.whitelist_quorum == old.whitelist_quorum
    &&& new.blacklist_quorum == old.blacklist_quorum
    &&& new.config_quorum == old.config_quorum
    &&& forall|a2: Seq<u8>| #[trigger]
        new.accounts.get_spec(a2) == match last_role(ras, a2) {
            Some(role) => Some(Account { role, ..old.account(a2) }),
            None => old.accounts.get_spec(a2),
        }
    &&& forall|a2: Seq<u8>| #[trigger]
        new.roles.get_spec(a2) == match last_role(ras, a2) {
            Some(role) => if role == Role::User {
                None
            } else {
                Some(role)
            },
            None => old.roles.get_spec(a2),
        }
}

/// The account metadata of `a` once the initiator `init` is marked
/// initialized.
pub open spec fn initiated_account(st: AccountsState, init: Address, a: Seq<u8>) -> Account {
    if a == init@ {
        Account { init: true, ..st.account(a) }
    } else {
        st.account(a)
    }
}

/// `new` is `old` after the first owner initialization by `init`: the
/// initiator is marked initialized, then each address of `ras` is given, in
/// turn, its role (see `roles_given`).
pub open spec fn owners_set(new: AccountsState, old: AccountsState, init: Address, ras: Seq<RoleAddress>) -> bool {
    &&& new.params == old.params
    &&& new.balances == old.balances
    &&& new.total_supplies == old.total_supplies
    &&& new.role_sequences == old.role_sequences
    &&& new.proposal_counter == old.proposal_counter
    &&& new.proposals == old.proposals
    &&& new.mint_quorum == old.mint_quorum
    &&& new.burn_quorum == old.burn_quorum
    &&& new.whitelist_quorum == old.whitelist_quorum
    &&& new.blacklist_quorum == old.blacklist_quorum
    &&& new.config_quorum == old.config_quorum
    &&& forall|a2: Seq<u8>| #[trigger]
        new.accounts.get_spec(a2) == match last_role(ras, a2) {
            Some(role) => Some(Account { role, ..initiated_account(old, init, a2) }),
            None => if a2 == init@ {
                Some(initiated_account(old, init, a2))
            } else {
                old.accounts.get_spec(a2)
            },
        }
    &&& forall|a2: Seq<u8>| #[trigger]
        new.roles.get_spec(a2) == match last_role(ras, a2) {
            Some(role) => if role == Role::User {
                None
            } else {
                Some(role)
            },
            None => old.roles.get_spec(a2),
        }
}

impl Module {
    /// The role that votes on proposals of `action`.
    pub fn get_voter_with_action(action: Action) -> (r: Option<Role>)
        ensures
            r == voter_role(action),
    {
        match action {
            Action::NoAction => None,
            Action::SetRoles => Some(Role::Admin),
            Action::Mint => Some(Role::MintVoter),
            Action::Burn => Some(Role::BurnVoter),
            Action::Whitelist => Some(Role::WhitelistVoter),
            Action::Blacklist => Some(Role::BlacklistVoter),
            Action::Config => Some(Role::Admin),
        }
    }

    /// The role that proposes proposals of `action`.
    pub fn get_proposer_with_action(action: Action) -> (r: Option<Role>)
        ensures
            r == proposer_role(action),
    {
        match action {
            Action::NoAction => None,
            Action::SetRoles => Some(Role::Admin),
            Action::Mint => Some(Role::MintProposer),
            Action::Burn => Some(Role::BurnProposer),
            Action::Whitelist => Some(Role::WhitelistProposer),
            Action::Blacklist => Some(Role::BlacklistProposer),
            Action::Config => Some(Role::Admin),
        }
    }

    /// Uses the gas of a token management call.
    pub(crate) fn use_managest_gas(ctx: &mut AccountsContext) -> (r: Result<(), Error>)
        ensures
            final(ctx).state == old(ctx).state,
            final(ctx).events == old(ctx).events,
            final(ctx).values == old(ctx).values,
            final(ctx).mode == old(ctx).mode,
            final(ctx).round == old(ctx).round,
            final(ctx).priority == old(ctx).priority,
            final(ctx).sender_meta == old(ctx).sender_meta,
            final(ctx).caller == old(ctx).caller,
            gas_used(
                final(ctx).gas,
                old(ctx).gas,
                old(ctx).state.params.gas_costs.tx_managest,
                r is Ok,
            ),
            r is Ok <==> gas_fits(old(ctx).gas, old(ctx).state.params.gas_costs.tx_managest),
            r is Err ==> r == Err::<(), Error>(
                Error::Core(gas_error(old(ctx).gas, old(ctx).state.params.gas_costs.tx_managest)),
            ),
    {
        let cost = ctx.state.params.gas_costs.tx_managest;
        match ctx.gas.use_tx_gas(cost) {
            Ok(()) => Ok(()),
            Err(e) => Err(Error::Core(e)),
        }
    }

    /// Checks whether the caller may make the proposal (see `propose_check`).
    fn check_proposal(st: &AccountsState, caller: Address, content: &ProposalContent) -> (r: Result<
        (),
        Error,
    >)
        requires
            st.wf(),
        ensures
            r == propose_check(*st, caller, *content),
    {
        let caller_role = match st.get_role(caller) {
            Ok(r) => r,
            Err(_) => Role::User,
        };
        let proposer = Self::get_proposer_with_action(content.action);
        let voter = Self::get_voter_with_action(content.action);
        let mut is_proposer = false;
        let mut is_voter = false;
        match proposer {
            Some(role) => {
                if caller_role == role {
                    is_proposer = true;
                }
            },
            None => {
                return Err(Error::InvalidRole);
            },
        }
        match voter {
            Some(role) => {
                if caller_role == role {
                    is_voter = true;
                }
            },
            None => {
                return Err(Error::InvalidRole);
            },
        }
        if !(is_proposer || is_voter) {
            return Err(Error::InvalidRole);
        }
        let data = &content.data;
        match content.action {
            Action::Mint | Action::Burn => {
                let address = match data.address {
                    None => {
                        return Err(Error::NotFound);
                    },
                    Some(addr) => addr,
                };
                let addr_role = match st.get_role(address) {
                    Ok(r) => r,
                    Err(_) => Role::User,
                };
                if addr_role != Role::WhitelistedUser {
                    return Err(Error::InvalidArgument);
                }
            },
            Action::SetRoles => {},
            Action::Config => {
                let valid_values = quorum_ok(data.mint_quorum) && quorum_ok(data.burn_quorum)
                    && quorum_ok(data.whitelist_quorum) && quorum_ok(data.blacklist_quorum)
                    && quorum_ok(data.config_quorum);
                let at_least_one_some = data.mint_quorum.is_some() || data.burn_quorum.is_some()
                    || data.whitelist_quorum.is_some() || data.blacklist_quorum.is_some()
                    || data.config_quorum.is_some();
                if !(valid_values && at_least_one_some) {
                    return Err(Error::InvalidArgument);
                }
            },
            Action::Whitelist => {
                let address = match data.address {
                    None => {
                        return Err(Error::NotFound);
                    },
                    Some(addr) => addr,
                };
                let addr_role = match st.get_role(address) {
                    Ok(r) => r,
                    Err(_) => Role::User,
                };
                if addr_role == Role::BlacklistedUser {
                    return Err(Error::InvalidArgument);
                }
            },
            Action::Blacklist => {
                let address = match data.address {
                    None => {
                        return Err(Error::NotFound);
                    },
                    Some(addr) => addr,
                };
                let addr_role = match st.get_role(address) {
                    Ok(r) => r,
                    Err(_) => Role::User,
                };
                if addr_role != Role::User {
                    return Err(Error::InvalidArgument);
                }
            },
            _ => {
                return Err(Error::InvalidArgument);
            },
        }
        Ok(())
    }

    /// Handles a proposal: uses the gas of a management call, gives the next
    /// proposal id (even when the proposal is then refused), checks the
    /// proposal (see `propose_check`) and stores it, active, under that id.
    pub fn tx_propose(ctx: &mut AccountsContext, body: ProposalContent) -> (r: Result<(), Error>)
        requires
            old(ctx).wf(),
        ensures
            final(ctx).wf(),
            final(ctx).events == old(ctx).events,
            final(ctx).values == old(ctx).values,
            final(ctx).mode == old(ctx).mode,
            final(ctx).round == old(ctx).round,
            final(ctx).priority == old(ctx).priority,
            final(ctx).sender_meta == old(ctx).sender_meta,
            final(ctx).caller == old(ctx).caller,
            ({
                let st = old(ctx).state;
                let cost = st.params.gas_costs.tx_managest;
                let g = old(ctx).gas;
                let next_id = (st.proposal_id() + 1) as u32;
                &&& !gas_fits(g, cost) ==> r == Err::<(), Error>(Error::Core(gas_error(g, cost)))
                    && final(ctx).state == st && final(ctx).gas == g
                &&& gas_fits(g, cost) ==> final(ctx).gas.used == g.used + cost && final(ctx).gas.limit == g.limit
                &&& gas_fits(g, cost) && st.proposal_id() == u32::MAX ==> r == Err::<(), Error>(
                    Error::CounterOverflow,
                ) && final(ctx).state == st
                &&& gas_fits(g, cost) && st.proposal_id() < u32::MAX ==> {
                    &&& final(ctx).state.proposal_counter == Some(next_id)
                    &&& final(ctx).state.same_except_proposals(st)
                    &&& propose_check(st, old(ctx).caller, body) is Err ==> r == propose_check(
                        st,
                        old(ctx).caller,
                        body,
                    ) && final(ctx).state.proposals == st.proposals
                    &&& propose_check(st, old(ctx).caller, body) is Ok ==> r is Ok && forall|
                        kb: Seq<u8>,
                    | #[trigger]
                        final(ctx).state.proposals.get_spec(kb) == if kb == next_id.key_bytes() {
                            Some(
                                Proposal {
                                    id: next_id,
                                    submitter: old(ctx).caller,
                                    state: ProposalState::Active,
                                    content: body,
                                    results: None,
                                    voteOption: None,
                                },
                            )
                        } else {
                            st.proposals.get_spec(kb)
                        }
                }
            }),
    {
        Self::use_managest_gas(ctx)?;
        let caller = ctx.caller;
        let next_id = ctx.state.get_and_increment_proposal_id()?;
        Self::check_proposal(&ctx.state, caller, &body)?;
        let proposal = Proposal {
            id: next_id,
            submitter: caller,
            state: ProposalState::Active,
            content: body,
            results: None,
            voteOption: None,
        };
        ctx.state.insert_proposal(proposal)?;
        Ok(())
    }

    /// Handles a transfer from the caller: refused with `Forbidden` while
    /// transfers are disabled; otherwise uses the gas of a transfer and
    /// transfers (see `transfer_outcome`).
    pub fn tx_transfer(ctx: &mut AccountsContext, body: Transfer) -> (r: Result<(), Error>)
        requires
            old(ctx).wf(),
        ensures
            final(ctx).wf(),
            ({
                let cost = old(ctx).state.params.gas_costs.tx_transfer;
                &&& old(ctx).state.params.transfers_disabled ==> r == Err::<(), Error>(
                    Error::Forbidden,
                ) && *final(ctx) == *old(ctx)
                &&& !old(ctx).state.params.transfers_disabled && !gas_fits(old(ctx).gas, cost)
                    ==> r == Err::<(), Error>(Error::Core(gas_error(old(ctx).gas, cost)))
                    && *final(ctx) == *old(ctx)
                &&& !old(ctx).state.params.transfers_disabled && gas_fits(old(ctx).gas, cost)
                    ==> transfer_outcome(
                    *final(ctx),
                    paid(*old(ctx), cost),
                    old(ctx).caller,
                    body.to,
                    body.amount.amount,
                    body.amount.denomination@,
                    r,
                )
            }),
    {
        if ctx.state.params.transfers_disabled {
            return Err(Error::Forbidden);
        }
        let cost = ctx.state.params.gas_costs.tx_transfer;
        match ctx.gas.use_tx_gas(cost) {
            Ok(()) => {},
            Err(e) => {
                return Err(Error::Core(e));
            },
        }
        let caller = ctx.caller;
        Self::transfer(ctx, caller, body.to, &body.amount)
    }

    /// Handles owner initialization: uses the gas of a management call;
    /// refused with `Forbidden` unless the caller is the chain initiator;
    /// the first time only, marks the initiator initialized and gives each
    /// listed address its role (see `roles_given`); later calls change
    /// nothing but the gas.
    pub fn tx_initowners(ctx: &mut AccountsContext, body: Vec<RoleAddress>) -> (r: Result<(), Error>)
        requires
            old(ctx).wf(),
        ensures
            final(ctx).wf(),
            ({
                let st = old(ctx).state;
                let cost = st.params.gas_costs.tx_managest;
                let init = st.params.chain_initiator;
                let after = paid(*old(ctx), cost);
                &&& !gas_fits(old(ctx).gas, cost) ==> r == Err::<(), Error>(
                    Error::Core(gas_error(old(ctx).gas, cost)),
                ) && *final(ctx) == *old(ctx)
                &&& gas_fits(old(ctx).gas, cost) && old(ctx).caller@ != init@ ==> r == Err::<
                    (),
                    Error,
                >(Error::Forbidden) && *final(ctx) == after
                &&& gas_fits(old(ctx).gas, cost) && old(ctx).caller@ == init@ ==> {
                    &&& r is Ok
                    &&& final(ctx).only_state_changed(after)
                    &&& st.account(init@).init ==> final(ctx).state == st
                    &&& !st.account(init@).init ==> owners_set(final(ctx).state, st, init, body@)
                }
            }),
    {
        Self::use_managest_gas(ctx)?;
        let initiator = ctx.state.params.chain_initiator;
        if !ctx.caller.equals(&initiator) {
            return Err(Error::Forbidden);
        }
        let initialized = match ctx.state.get_initstatus(initiator) {
            Ok(b) => b,
            Err(e) => {
                return Err(e);
            },
        };
        if !initialized {
            ctx.state.set_initstatus(initiator, true);
            let ghost st1 = ctx.state;
            let mut i: usize = 0;
            while i < body.len()
                invariant
                    ctx.wf(),
                    0 <= i <= body@.len(),
                    ctx.mode == old(ctx).mode,
                    ctx.round == old(ctx).round,
                    ctx.events == old(ctx).events,
                    ctx.values == old(ctx).values,
                    ctx.priority == old(ctx).priority,
                    ctx.sender_meta == old(ctx).sender_meta,
                    ctx.caller == old(ctx).caller,
                    ctx.gas == paid(*old(ctx), old(ctx).state.params.gas_costs.tx_managest).gas,
                    roles_given(ctx.state, st1, body@.take(i as int)),
                decreases body@.len() - i,
            {
                let ra = body[i];
                let ghost before = ctx.state;
                ctx.state.set_role(ra.address, ra.role);
                ctx.state.add_role_to_address(ra.address, ra.role);
                proof {
                    let s = body@.take(i + 1);
                    assert(s.drop_last() =~= body@.take(i as int));
                    assert(s.last() == ra);
                }
                i = i + 1;
            }
            proof {
                assert(body@.take(body@.len() as int) =~= body@);
                let st = old(ctx).state;
                assert forall|a2: Seq<u8>| #[trigger] st1.account(a2) == initiated_account(st, initiator, a2) by {}
            }
        }
        Ok(())
    }

    /// Handles a mint to `body.to`: refused with `Forbidden` while minting is
    /// disabled; otherwise uses the gas of a management call and mints (see
    /// `mint_outcome`).
    pub fn tx_mintst(ctx: &mut AccountsContext, body: MintST) -> (r: Result<(), Error>)
        requires
            old(ctx).wf(),
        ensures
            final(ctx).wf(),
            ({
                let cost = old(ctx).state.params.gas_costs.tx_managest;
                &&& old(ctx).state.params.mintst_disabled ==> r == Err::<(), Error>(
                    Error::Forbidden,
                ) && *final(ctx) == *old(ctx)
                &&& !old(ctx).state.params.mintst_disabled && !gas_fits(old(ctx).gas, cost) ==> r
                    == Err::<(), Error>(Error::Core(gas_error(old(ctx).gas, cost))) && *final(ctx)
                    == *old(ctx)
                &&& !old(ctx).state.params.mintst_disabled && gas_fits(old(ctx).gas, cost)
                    ==> mint_outcome(
                    *final(ctx),
                    paid(*old(ctx), cost),
                    body.to,
                    body.amount.amount,
                    body.amount.denomination@,
                    r,
                )
            }),
    {
        if ctx.state.params.mintst_disabled {
            return Err(Error::Forbidden);
        }
        Self::use_managest_gas(ctx)?;
        Self::mint(ctx, body.to, &body.amount)
    }

    /// Handles a burn from the caller: refused with `Forbidden` while burning
    /// is disabled or when the caller is not the chain initiator; otherwise
    /// uses the gas of a management call and burns (see `burn_outcome`).
    pub fn tx_burnst(ctx: &mut AccountsContext, body: BurnST) -> (r: Result<(), Error>)
        requires
            old(ctx).wf(),
            burn_safe(old(ctx).state, old(ctx).caller, body.amount.amount, body.amount.denomination@),
        ensures
            final(ctx).wf(),
            ({
                let cost = old(ctx).state.params.gas_costs.tx_managest;
                let refused = old(ctx).state.params.burnst_disabled || old(ctx).caller@
                    != old(ctx).state.params.chain_initiator@;
                &&& refused ==> r == Err::<(), Error>(Error::Forbidden) && *final(ctx) == *old(ctx)
                &&& !refused && !gas_fits(old(ctx).gas, cost) ==> r == Err::<(), Error>(
                    Error::Core(gas_error(old(ctx).gas, cost)),
                ) && *final(ctx) == *old(ctx)
                &&& !refused && gas_fits(old(ctx).gas, cost) ==> burn_outcome(
                    *final(ctx),
                    paid(*old(ctx), cost),
                    old(ctx).caller,
                    body.amount.amount,
                    body.amount.denomination@,
                    r,
                )
            }),
    {
        if ctx.state.params.burnst_disabled {
            return Err(Error::Forbidden);
        }
        let initiator = ctx.state.params.chain_initiator;
        if !ctx.caller.equals(&initiator) {
            return Err(Error::Forbidden);
        }
        Self::use_managest_gas(ctx)?;
        let caller = ctx.caller;
        Self::burn(ctx, caller, &body.amount)
    }
}

/// A quorum that is unset or at most 100.
fn quorum_ok(q: Option<u8>) -> (r: bool)
    ensures
        r == quorum_valid(q),
{
    match q {
        Some(v) => v <= 100,
        None => true,
    }
}

} // verus!
