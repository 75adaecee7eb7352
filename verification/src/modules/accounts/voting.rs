//! Voting on proposals: counting a vote, deciding the proposal, and carrying
//! out the action of a passed one.
use vstd::prelude::*;

use super::handlers::{gas_error, gas_fits, voter_role};
use super::state::AccountsState;
use super::types::{same_data, vote_count, Account, Proposal, ProposalData, VoteProposal, VoteResults};
use super::{burn_outcome, burn_safe, mint_outcome, AccountsContext, Error, Module};
use crate::keyed::{lemma_lookup_at, Key, KvStore};
use crate::modules::core_module::TxGas;
use crate::types::address::Address;
use crate::types::proposal::ProposalState;
use crate::types::role::Role;
use crate::types::vote::{Action, Vote};

verus! {

/// Whether a vote for `option`, the `count`th of its kind among `total`
/// voters, decides a proposal of quorum `q` (in percent): yes votes pass it
/// once they reach `q` percent of the voters, rounded up; no votes reject it
/// once they reach the remaining percent, rounded up; abstentions cancel it
/// once they reach half of the voters.
pub open spec fn threshold_reached(option: Vote, count: int, total: int, q: int) -> bool {
    match option {
        Vote::VoteYes => count >= (total * q + 99) / 100,
        Vote::VoteNo => count >= (total * (100 - q) + 99) / 100,
        Vote::VoteAbstain => 2 * count >= total,
    }
}

/// The state that a deciding vote for `option` gives a proposal.
pub open spec fn decided_state(option: Vote) -> ProposalState {
    match option {
        Vote::VoteYes => ProposalState::Passed,
        Vote::VoteNo => ProposalState::Rejected,
        Vote::VoteAbstain => ProposalState::Cancelled,
    }
}

/// The proposal that a vote on `id` counts on.
pub open spec fn voted_proposal(st: AccountsState, id: u32) -> Option<Proposal> {
    st.proposals.get_spec(id.key_bytes())
}

/// Whether `voter` already voted on `p`.
pub open spec fn has_voted(p: Proposal, voter: Address) -> bool {
    match p.voteOption {
        Some(m) => m.get_spec(voter@) is Some,
        None => false,
    }
}

/// Whether a vote of `caller` on `p` is taken in state `st`, and if not,
/// why: there must be such a proposal (an unknown one has no action, whose
/// voter role nobody holds), the caller must not have voted on it, it must
/// be active, the caller must hold the voter role of its action, and the
/// quorum of the action must be at most 100.
pub open spec fn vote_check(st: AccountsState, caller: Address, p: Option<Proposal>) -> Result<
    (),
    Error,
> {
    match p {
        None => Err(Error::InvalidRole),
        Some(p) => if has_voted(p, caller) {
            Err(Error::VoteDup)
        } else if p.state != ProposalState::Active {
            Err(Error::InvalidState)
        } else {
            match (voter_role(p.content.action), st.quorum_of(p.content.action)) {
                (Some(v), Some(q)) => if st.account(caller@).role != v {
                    Err(Error::InvalidRole)
                } else if q > 100 {
                    Err(Error::InvalidQuorum)
                } else {
                    Ok(())
                },
                _ => Err(Error::InvalidRole),
            }
        },
    }
}

/// The number of voters of `action` in state `st`, as the counter of voters
/// holds it (modulo 65536).
pub open spec fn voter_total(st: AccountsState, action: Action) -> int {
    match voter_role(action) {
        Some(v) => (st.members_of(v).len() % 65536) as int,
        None => 0,
    }
}

/// Whether a vote for `option` decides `p` in state `st`.
pub open spec fn vote_decides(st: AccountsState, p: Proposal, option: Vote) -> bool {
    let q = match st.quorum_of(p.content.action) {
        Some(q) => q as int,
        None => 0,
    };
    threshold_reached(
        option,
        vote_count(p.results, option) + 1,
        voter_total(st, p.content.action),
        q,
    )
}

/// `new` is `old` with a vote of `voter` for `option` counted: a deciding
/// vote gives it the decided state and drops the record of who voted;
/// otherwise the voter is recorded with its vote.
pub open spec fn vote_recorded(
    new: Proposal,
    old: Proposal,
    voter: Address,
    option: Vote,
    decided: bool,
) -> bool {
    &&& new.id == old.id
    &&& new.submitter == old.submitter
    &&& new.content == old.content
    &&& new.results is Some
    &&& forall|v: Vote| #[trigger]
        vote_count(new.results, v) == vote_count(old.results, v) + if v == option {
            1int
        } else {
            0int
        }
    &&& decided ==> new.state == decided_state(option) && new.voteOption is None
    &&& !decided ==> new.state == old.state && match new.voteOption {
        Some(m) => forall|kb: Seq<u8>| #[trigger]
            m.get_spec(kb) == if kb == voter@ {
                Some(option)
            } else {
                match old.voteOption {
                    Some(m0) => m0.get_spec(kb),
                    None => None,
                }
            },
        None => false,
    }
}

/// A vote does not overflow its tally and, where it carries out a burn, the
/// account's balance of the burned amount is covered by the total supply.
pub open spec fn vote_safe(st: AccountsState, caller: Address, body: VoteProposal) -> bool {
    match voted_proposal(st, body.id) {
        None => true,
        Some(p) => vote_check(st, caller, Some(p)) is Ok ==> {
            &&& vote_count(p.results, body.option) < u16::MAX
            &&& (vote_decides(st, p, body.option) && body.option == Vote::VoteYes
                && p.content.action == Action::Burn) ==> match (
                p.content.data.address,
                p.content.data.amount,
            ) {
                (Some(a), Some(amt)) => burn_safe(st, a, amt.amount, amt.denomination@),
                _ => true,
            }
        },
    }
}

/// `new` is `old` where `a` was given `role`: its account metadata holds the
/// role, and its role entry is the role (no entry for `User`).
pub open spec fn role_given(new: AccountsState, old: AccountsState, a: Address, role: Role) -> bool {
    &&& new.params == old.params
    &&& new.balances == old.balances
    &&& new.total_supplies == old.total_supplies
    &&& new.role_sequences == old.role_sequences
    &&& new.proposal_counter == old.proposal_counter
    &&& new.proposals == old.proposals
    &&& new.mint_quorum == old.mint_quorum
    &&& new.burn_quorum == old.burn_quorum
    &&& new.whitelist_quorum == old.whitelist_quorum
    &&& new.blacklist_quorum == old.blacklist_quorum
    &&& new.config_quorum == old.config_quorum
    &&& forall|a2: Seq<u8>| #[trigger]
        new.accounts.get_spec(a2) == if a2 == a@ {
            Some(Account { role, ..old.account(a@) })
        } else {
            old.accounts.get_spec(a2)
        }
    &&& forall|a2: Seq<u8>| #[trigger]
        new.roles.get_spec(a2) == if a2 == a@ {
            if role == Role::User {
                None
            } else {
                Some(role)
            }
        } else {
            old.roles.get_spec(a2)
        }
}

/// A quorum that a proposal sets, or the one there was.
pub open spec fn set_or_keep(q: Option<u8>, old: Option<u8>) -> Option<u8> {
    match q {
        Some(v) => Some(v),
        None => old,
    }
}

/// `new` is `old` with the quorums that `data` sets replaced.
pub open spec fn quorums_set(new: AccountsState, old: AccountsState, data: ProposalData) -> bool {
    &&& new.same_except_quorums(old)
    &&& new.mint_quorum == set_or_keep(data.mint_quorum, old.mint_quorum)
    &&& new.burn_quorum == set_or_keep(data.burn_quorum, old.burn_quorum)
    &&& new.whitelist_quorum == set_or_keep(data.whitelist_quorum, old.whitelist_quorum)
    &&& new.blacklist_quorum == set_or_keep(data.blacklist_quorum, old.blacklist_quorum)
    &&& new.config_quorum == set_or_keep(data.config_quorum, old.config_quorum)
}

/// The outcome of carrying out a passed proposal of `action` with `data`:
/// a mint or burn of the amount at the address, a whitelisting,
/// blacklisting or role change of the address, or new quorums; refused
/// with `NotFound`, changing nothing, where an argument it needs is absent.
pub open spec fn action_outcome(
    new: AccountsContext,
    old: AccountsContext,
    action: Action,
    data: ProposalData,
    r: Result<(), Error>,
) -> bool {
    match action {
        Action::Mint => match (data.address, data.amount) {
            (Some(a), Some(amt)) => mint_outcome(new, old, a, amt.amount, amt.denomination@, r),
            _ => r == Err::<(), Error>(Error::NotFound) && new == old,
        },
        Action::Burn => match (data.address, data.amount) {
            (Some(a), Some(amt)) => burn_outcome(new, old, a, amt.amount, amt.denomination@, r),
            _ => r == Err::<(), Error>(Error::NotFound) && new == old,
        },
        Action::Whitelist => match data.address {
            Some(a) => r is Ok && new.only_state_changed(old) && role_given(
                new.state,
                old.state,
                a,
                Role::WhitelistedUser,
            ),
            None => r == Err::<(), Error>(Error::NotFound) && new == old,
        },
        Action::Blacklist => match data.address {
            Some(a) => r is Ok && new.only_state_changed(old) && role_given(
                new.state,
                old.state,
                a,
                Role::BlacklistedUser,
            ),
            None => r == Err::<(), Error>(Error::NotFound) && new == old,
        },
        Action::SetRoles => match (data.address, data.role) {
            (Some(a), Some(role)) => r is Ok && new.only_state_changed(old) && role_given(
                new.state,
                old.state,
                a,
                role,
            ),
            _ => r == Err::<(), Error>(Error::NotFound) && new == old,
        },
        Action::Config => r is Ok && new.only_state_changed(old) && quorums_set(
            new.state,
            old.state,
            data,
        ),
        Action::NoAction => r is Ok && new == old,
    }
}

/// `c` with its proposal store replaced by `ps`.
pub open spec fn with_proposals(c: AccountsContext, ps: KvStore<u32, Proposal>) -> AccountsContext {
    AccountsContext { state: AccountsState { proposals: ps, ..c.state }, ..c }
}

/// `c` after paying `cost` gas.
pub open spec fn paid(c: AccountsContext, cost: u64) -> AccountsContext {
    AccountsContext { gas: TxGas { limit: c.gas.limit, used: (c.gas.used + cost) as u64 }, ..c }
}

/// Carrying out an action leaves the proposals alone.
proof fn lemma_action_keeps_proposals(
    new: AccountsContext,
    old: AccountsContext,
    action: Action,
    data: ProposalData,
    r: Result<(), Error>,
)
    requires
        action_outcome(new, old, action, data, r),
    ensures
        new.state.proposals == old.state.proposals,
        new.state.proposal_counter == old.state.proposal_counter,
        new.mode == old.mode,
        new.round == old.round,
        new.values == old.values,
        new.priority == old.priority,
        new.sender_meta == old.sender_meta,
        new.caller == old.caller,
        new.gas == old.gas,
{
}

/// Whether a vote for `option`, the `count`th of its kind among `total`
/// voters, decides a proposal of quorum `quorum` (see `threshold_reached`).
fn vote_threshold_reached(option: Vote, count: u16, total: u16, quorum: u8) -> (r: bool)
    requires
        quorum <= 100,
    ensures
        r == threshold_reached(option, count as int, total as int, quorum as int),
{
    match option {
        Vote::VoteYes => {
            assert((total as u32) * (quorum as u32) <= 6553500) by (nonlinear_arith)
                requires
                    total <= 65535,
                    quorum <= 100,
            ;
            let result = (total as u32) * (quorum as u32);
            let threshold = (result + 99) / 100;
            (count as u32) >= threshold
        },
        Vote::VoteNo => {
            let rest = 100 - quorum;
            assert((total as u32) * (rest as u32) <= 6553500) by (nonlinear_arith)
                requires
                    total <= 65535,
                    rest <= 100,
            ;
            let result = (total as u32) * (rest as u32);
            let threshold = (result + 99) / 100;
            (count as u32) >= threshold
        },
        Vote::VoteAbstain => 2 * (count as u32) >= (total as u32),
    }
}

/// The state that a deciding vote for `option` gives a proposal.
fn decided_state_of(option: Vote) -> (r: ProposalState)
    ensures
        r == decided_state(option),
{
    match option {
        Vote::VoteYes => ProposalState::Passed,
        Vote::VoteNo => ProposalState::Rejected,
        Vote::VoteAbstain => ProposalState::Cancelled,
    }
}

/// Counts a vote of `voter` for `option` on `p` (see `vote_recorded`).
fn record_vote(p: &mut Proposal, voter: Address, option: Vote, decided: bool)
    requires
        vote_count(old(p).results, option) < u16::MAX,
        old(p).voteOption matches Some(m) ==> m.wf(),
    ensures
        vote_recorded(*final(p), *old(p), voter, option, decided),
        final(p).voteOption matches Some(m) ==> m.wf(),
{
    p.add_vote(option);
    if decided {
        p.state = decided_state_of(option);
        p.voteOption = None;
    } else {
        let mut m = match p.voteOption.take() {
            Some(m) => m,
            None => KvStore::new(),
        };
        m.insert(voter, option);
        p.voteOption = Some(m);
    }
}

/// The outcome of a vote `body` of `old.caller`: refused for want of gas,
/// changing nothing; refused after paying the gas where `vote_check` refuses
/// it; otherwise counted on the proposal (see `vote_recorded`), after
/// carrying out its action where the vote passes it (see `action_outcome`),
/// in which case a refused action leaves the proposal as it was.
pub open spec fn vote_outcome(
    new: AccountsContext,
    old: AccountsContext,
    body: VoteProposal,
    r: Result<(), Error>,
) -> bool {
    let st = old.state;
    let cost = st.params.gas_costs.tx_managest;
    let after = paid(old, cost);
    let check = vote_check(st, old.caller, voted_proposal(st, body.id));
    if !gas_fits(old.gas, cost) {
        r == Err::<(), Error>(Error::Core(gas_error(old.gas, cost))) && new == old
    } else if check is Err {
        r == check && new == after
    } else {
        match voted_proposal(st, body.id) {
            Some(p) => {
                let decided = vote_decides(st, p, body.option);
                let executes = decided && body.option == Vote::VoteYes;
                &&& executes ==> action_outcome(
                    with_proposals(new, st.proposals),
                    after,
                    p.content.action,
                    p.content.data,
                    r,
                )
                &&& !executes ==> r is Ok && new.only_state_changed(after)
                    && new.state.same_except_proposals(st) && new.state.proposal_counter
                    == st.proposal_counter
                &&& r is Err ==> new.state.proposals == st.proposals
                &&& r is Ok ==> {
                    &&& match new.state.proposals.get_spec(body.id.key_bytes()) {
                        Some(np) => vote_recorded(np, p, old.caller, body.option, decided),
                        None => false,
                    }
                    &&& forall|kb: Seq<u8>|
                        kb != body.id.key_bytes() ==> #[trigger] new.state.proposals.get_spec(kb)
                            == st.proposals.get_spec(kb)
                }
            },
            None => false,
        }
    }
}

/// Carrying out an action depends on the data only through what it reads.
proof fn lemma_action_outcome_same_data(
    new: AccountsContext,
    old: AccountsContext,
    action: Action,
    a: ProposalData,
    b: ProposalData,
    r: Result<(), Error>,
)
    requires
        same_data(a, b),
        action_outcome(new, old, action, a, r),
    ensures
        action_outcome(new, old, action, b, r),
{
    match (a.amount, b.amount) {
        (Some(x), Some(y)) => {
            assert(x.amount == y.amount && x.denomination@ == y.denomination@);
        },
        _ => {},
    }
}

/// The tally of `v` in `results`.
fn count_of(results: Option<VoteResults>, v: Vote) -> (r: u16)
    ensures
        r == vote_count(results, v),
{
    match results {
        None => 0,
        Some(res) => {
            let c = match v {
                Vote::VoteYes => res.yes,
                Vote::VoteNo => res.no,
                Vote::VoteAbstain => res.abstain,
            };
            match c {
                Some(n) => n,
                None => 0,
            }
        },
    }
}

impl Module {
    /// Carries out the action of a passed proposal (see `action_outcome`).
    fn apply_proposal_action(ctx: &mut AccountsContext, action: Action, data: &ProposalData) -> (r:
        Result<(), Error>)
        requires
            old(ctx).wf(),
            action == Action::Burn ==> match (data.address, data.amount) {
                (Some(a), Some(amt)) => burn_safe(old(ctx).state, a, amt.amount, amt.denomination@),
                _ => true,
            },
        ensures
            final(ctx).wf(),
            action_outcome(*final(ctx), *old(ctx), action, *data, r),
    {
        match action {
            Action::Mint => {
                let address = match data.address {
                    None => {
                        return Err(Error::NotFound);
                    },
                    Some(a) => a,
                };
                let amount = match &data.amount {
                    None => {
                        return Err(Error::NotFound);
                    },
                    Some(a) => a,
                };
                Self::mint(ctx, address, amount)
            },
            Action::Burn => {
                let address = match data.address {
                    None => {
                        return Err(Error::NotFound);
                    },
                    Some(a) => a,
                };
                let amount = match &data.amount {
                    None => {
                        return Err(Error::NotFound);
                    },
                    Some(a) => a,
                };
                Self::burn(ctx, address, amount)
            },
            Action::Whitelist => {
                let address = match data.address {
                    None => {
                        return Err(Error::NotFound);
                    },
                    Some(a) => a,
                };
                ctx.state.set_role(address, Role::WhitelistedUser);
                ctx.state.add_role_to_address(address, Role::WhitelistedUser);
                Ok(())
            },
            Action::Blacklist => {
                let address = match data.address {
                    None => {
                        return Err(Error::NotFound);
                    },
                    Some(a) => a,
                };
                ctx.state.set_role(address, Role::BlacklistedUser);
                ctx.state.add_role_to_address(address, Role::BlacklistedUser);
                Ok(())
            },
            Action::Config => {
                if let Some(q) = data.mint_quorum {
                    ctx.state.set_quorum(Action::Mint, q)?;
                }
                if let Some(q) = data.burn_quorum {
                    ctx.state.set_quorum(Action::Burn, q)?;
                }
                if let Some(q) = data.whitelist_quorum {
                    ctx.state.set_quorum(Action::Whitelist, q)?;
                }
                if let Some(q) = data.blacklist_quorum {
                    ctx.state.set_quorum(Action::Blacklist, q)?;
                }
                if let Some(q) = data.config_quorum {
                    ctx.state.set_quorum(Action::Config, q)?;
                }
                Ok(())
            },
            Action::NoAction => Ok(()),
            Action::SetRoles => {
                let address = match data.address {
                    None => {
                        return Err(Error::NotFound);
                    },
                    Some(a) => a,
                };
                let role = match data.role {
                    None => {
                        return Err(Error::NotFound);
                    },
                    Some(rl) => rl,
                };
                ctx.state.set_role(address, role);
                ctx.state.add_role_to_address(address, role);
                Ok(())
            },
        }
    }

    /// Handles a vote on a proposal (see `vote_outcome`): uses the gas of a
    /// management call, checks the vote (see `vote_check`), counts it, and
    /// where it decides the proposal gives it its decided state, carrying out
    /// the action of a passed one first.
    pub fn tx_votest(ctx: &mut AccountsContext, body: VoteProposal) -> (r: Result<(), Error>)
        requires
            old(ctx).wf(),
            vote_safe(old(ctx).state, old(ctx).caller, body),
        ensures
            final(ctx).wf(),
            vote_outcome(*final(ctx), *old(ctx), body, r),
    {
        Self::use_managest_gas(ctx)?;
        let ghost c0 = *ctx;
        let ghost st = ctx.state;
        proof {
            assert(c0 == paid(*old(ctx), st.params.gas_costs.tx_managest));
        }
        let caller = ctx.caller;
        let caller_role = match ctx.state.get_role(caller) {
            Ok(rl) => rl,
            Err(_) => Role::User,
        };
        let i = match ctx.state.proposals.find(&body.id) {
            Ok(i) => i,
            Err(_) => {
                return Err(Error::InvalidRole);
            },
        };
        proof {
            lemma_lookup_at(st.proposals.entries@, i as int);
        }
        let ghost p = st.proposals.entries@[i as int].1;
        let voted = match &ctx.state.proposals.entries[i].1.voteOption {
            Some(m) => m.get(&caller).is_some(),
            None => false,
        };
        if voted {
            return Err(Error::VoteDup);
        }
        let active = ctx.state.proposals.entries[i].1.state == ProposalState::Active;
        if !active {
            return Err(Error::InvalidState);
        }
        let action = ctx.state.proposals.entries[i].1.content.action;
        match Self::get_voter_with_action(action) {
            Some(role) => {
                if caller_role != role {
                    return Err(Error::InvalidRole);
                }
            },
            None => {
                return Err(Error::InvalidRole);
            },
        }
        let quorum = ctx.state.get_quorum(action)?;
        if quorum > 100 {
            return Err(Error::InvalidQuorum);
        }
        let voter_total = ctx.state.get_voters_num_with_action(action)?;
        let count = count_of(ctx.state.proposals.entries[i].1.results, body.option);
        let decided = vote_threshold_reached(body.option, count + 1, voter_total, quorum);
        if decided && body.option == Vote::VoteYes {
            let data = ctx.state.proposals.entries[i].1.content.data.duplicate();
            let ghost c_before = *ctx;
            let res = Self::apply_proposal_action(ctx, action, &data);
            proof {
                lemma_action_outcome_same_data(*ctx, c_before, action, data, p.content.data, res);
                lemma_action_keeps_proposals(*ctx, c_before, action, p.content.data, res);
            }
            match res {
                Ok(()) => {},
                Err(e) => {
                    return Err(e);
                },
            }
        }
        let ghost c1 = *ctx;
        let ghost e1 = ctx.state.proposals.entries@;
        let j = match ctx.state.proposals.find(&body.id) {
            Ok(j) => j,
            Err(_) => {
                proof {
                    assert(e1[i as int].0.key_bytes() == body.id.key_bytes());
                }
                return Err(Error::InvalidRole);
            },
        };
        proof {
            lemma_lookup_at(e1, j as int);
            assert(e1[j as int].1 == p);
        }
        let slot = ctx.state.proposals.value_at_mut(j);
        record_vote(slot, caller, body.option, decided);
        proof {
            let e = ctx.state.proposals.entries@;
            assert forall|k: int| 0 <= k < e.len() implies (#[trigger] e[k]).0 == e[k].1.id && (
            e[k].1.voteOption matches Some(m) ==> m.wf()) by {
                if k != j {
                    assert(e[k] == e1[k]);
                }
            }
            assert(with_proposals(*ctx, st.proposals) == c1);
        }
        Ok(())
    }
}

} // verus!
