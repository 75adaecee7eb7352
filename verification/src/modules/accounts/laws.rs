//! Laws of the accounts module: what its operations keep.
use vstd::prelude::*;

use super::handlers::{owners_set, propose_check};
use super::auth::{nonces_error, SignerInfo};
use crate::modules::core_module::Error as CoreError;
use super::types::ProposalContent;
use crate::types::role::Role;
use crate::types::vote::Action;
use super::types::RoleAddress;
use super::genesis::{genesis_balance, genesis_held, genesis_valid, initialized};
use super::invariants::{den_held, supplies_match};
use super::state::AccountsState;
use super::types::Proposal;
use super::voting::{has_voted, vote_check, vote_outcome, vote_recorded, voted_proposal, voter_total};
use super::types::{vote_count, VoteProposal};
use crate::types::proposal::ProposalState;
use super::{fee_added, fee_of, fee_subtracted, FeeAccumulator};
use super::{burn_outcome, burn_safe, mint_outcome, transfer_outcome, AccountsContext, Error, Genesis};
use crate::keyed::{lemma_lookup_at, lookup, sorted_entries, Key, KvStore};
use crate::types::address::Address;
use crate::types::token::Denomination;
use crate::types::vote::Vote;

verus! {

/// A transfer that succeeds keeps every total supply equal to the sum of
/// the balances of its denomination.
pub proof fn law_transfer_keeps_supply(
    new: AccountsContext,
    old: AccountsContext,
    from: Address,
    to: Address,
    amount: u128,
    d: Seq<u8>,
)
    requires
        old.state.supply_conserved(),
        transfer_outcome(new, old, from, to, amount, d, Ok(())),
    ensures
        new.state.supply_conserved(),
{
    assert forall|d2: Seq<u8>| #[trigger] new.state.total_supply(d2) == new.state.sum_of_balances(d2) by {
        assert(old.state.total_supply(d2) == old.state.sum_of_balances(d2));
        if !old.mode.is_check_only_spec() {
            assert(new.state.sum_of_balances(d2) == old.state.sum_of_balances(d2));
        }
    }
}

/// A mint that succeeds keeps every total supply equal to the sum of the
/// balances of its denomination.
pub proof fn law_mint_keeps_supply(
    new: AccountsContext,
    old: AccountsContext,
    to: Address,
    amount: u128,
    d: Seq<u8>,
)
    requires
        old.state.supply_conserved(),
        mint_outcome(new, old, to, amount, d, Ok(())),
    ensures
        new.state.supply_conserved(),
{
    assert forall|d2: Seq<u8>| #[trigger] new.state.total_supply(d2) == new.state.sum_of_balances(d2) by {
        assert(old.state.total_supply(d2) == old.state.sum_of_balances(d2));
        assert(new.state.total_supplies.get_spec(d2) == if d2 == d {
            Some((old.state.total_supply(d) + amount) as u128)
        } else {
            old.state.total_supplies.get_spec(d2)
        });
        assert(new.state.sum_of_balances(d2) == old.state.sum_of_balances(d2) + if d2 == d {
            amount as int
        } else {
            0
        });
    }
}

/// A burn that succeeds keeps every total supply equal to the sum of the
/// balances of its denomination.
pub proof fn law_burn_keeps_supply(
    new: AccountsContext,
    old: AccountsContext,
    from: Address,
    amount: u128,
    d: Seq<u8>,
)
    requires
        old.state.wf(),
        old.state.supply_conserved(),
        burn_outcome(new, old, from, amount, d, Ok(())),
    ensures
        new.state.supply_conserved(),
{
    old.state.lemma_balance_bound(from@, d);
    assert(old.state.total_supply(d) == old.state.sum_of_balances(d));
    assert forall|d2: Seq<u8>| #[trigger] new.state.total_supply(d2) == new.state.sum_of_balances(d2) by {
        assert(old.state.total_supply(d2) == old.state.sum_of_balances(d2));
        assert(new.state.total_supplies.get_spec(d2) == if d2 == d {
            Some((old.state.total_supply(d) - amount) as u128)
        } else {
            old.state.total_supplies.get_spec(d2)
        });
        assert(new.state.sum_of_balances(d2) == old.state.sum_of_balances(d2) - if d2 == d {
            amount as int
        } else {
            0
        });
    }
}

/// Where every total supply is the sum of its balances, no burn fails on
/// the total supply: what an account holds, the total supply holds.
pub proof fn law_conserved_supply_makes_burns_safe(st: AccountsState, from: Address, amount: u128, d: Seq<u8>)
    requires
        st.wf(),
        st.supply_conserved(),
    ensures
        burn_safe(st, from, amount, d),
{
    st.lemma_balance_bound(from@, d);
    assert(st.total_supply(d) == st.sum_of_balances(d));
}

/// Total supplies that match the balances are conserved.
pub proof fn law_matching_supplies_are_conserved(st: AccountsState)
    requires
        supplies_match(st),
    ensures
        st.supply_conserved(),
{
    assert forall|d: Seq<u8>| #[trigger] st.total_supply(d) == st.sum_of_balances(d) by {
        assert(st.total_supplies.get_spec(d) is Some || st.total_supplies.get_spec(d) is None);
    }
}

/// Nobody votes twice on a proposal: a caller already recorded among the
/// voters of the proposal is refused with `VoteDup`.
pub proof fn law_no_double_vote(st: AccountsState, caller: Address, id: u32)
    requires
        voted_proposal(st, id) matches Some(p) && has_voted(p, caller),
    ensures
        vote_check(st, caller, voted_proposal(st, id)) == Err::<(), Error>(Error::VoteDup),
{
}

/// A vote that does not decide its proposal is recorded, so the same caller
/// voting again on it is refused with `VoteDup`.
pub proof fn law_recorded_vote_refuses_second(
    st: AccountsState,
    np: Proposal,
    p: Proposal,
    caller: Address,
    option: Vote,
)
    requires
        vote_recorded(np, p, caller, option, false),
    ensures
        vote_check(st, caller, Some(np)) == Err::<(), Error>(Error::VoteDup),
{
    match np.voteOption {
        Some(m) => {
            assert(m.get_spec(caller@) == Some(option));
        },
        None => {},
    }
}

/// A vote that decides its proposal ends the voting: any later vote on it,
/// by anyone, is refused with `InvalidState`.
pub proof fn law_decided_proposal_refuses_votes(
    st: AccountsState,
    np: Proposal,
    p: Proposal,
    voter: Address,
    option: Vote,
    caller: Address,
)
    requires
        vote_recorded(np, p, voter, option, true),
    ensures
        vote_check(st, caller, Some(np)) == Err::<(), Error>(Error::InvalidState),
{
}


/// In sorted account entries, some entry holds `d` exactly where some
/// address has an entry of `d`.
proof fn lemma_held_entries(e: Seq<(Address, KvStore<Denomination, u128>)>, d: Seq<u8>)
    requires
        sorted_entries(e),
    ensures
        (exists|i: int| 0 <= i < e.len() && (#[trigger] e[i]).1.get_spec(d) is Some) <==> (exists|
            a: Seq<u8>,
        | #[trigger] lookup(e, a) matches Some(inner) && inner.get_spec(d) is Some),
{
    if exists|i: int| 0 <= i < e.len() && (#[trigger] e[i]).1.get_spec(d) is Some {
        let i = choose|i: int| 0 <= i < e.len() && (#[trigger] e[i]).1.get_spec(d) is Some;
        lemma_lookup_at(e, i);
        let a = e[i].0@;
        assert(lookup(e, a) matches Some(inner) && inner.get_spec(d) is Some);
    }
    if exists|a: Seq<u8>| #[trigger] lookup(e, a) matches Some(inner) && inner.get_spec(d) is Some {
        let a = choose|a: Seq<u8>| #[trigger] lookup(e, a) matches Some(inner) && inner.get_spec(d) is Some;
        let j = crate::keyed::key_index(e, a);
        assert(lookup(e, a) == Some(e[j].1));
        assert(0 <= j < e.len() && e[j].1.get_spec(d) is Some);
    }
}

/// Initializing a state without balances or total supplies from a genesis
/// that initialization accepts gives a state whose invariants hold: every
/// held denomination has a total supply entry, no other has one, and each
/// is the sum of its balances (so `check_invariants` succeeds on it).
pub proof fn law_init_passes_invariants(new: AccountsContext, old: AccountsContext, genesis: Genesis)
    requires
        old.state.balances.entries@.len() == 0,
        old.state.total_supplies.entries@.len() == 0,
        genesis_valid(genesis),
        initialized(new, old, genesis),
        new.state.wf(),
    ensures
        supplies_match(new.state),
{
    let st = new.state;
    assert forall|d: Seq<u8>|
        #![trigger st.total_supplies.get_spec(d)]
        #![trigger den_held(st, d)]
        (st.total_supplies.get_spec(d) is Some <==> den_held(st, d)) && st.total_supply(d)
            == st.sum_of_balances(d) by {
        assert(st.total_supply(d) == st.sum_of_balances(d));
        assert(old.state.total_supplies.get_spec(d) is None);
        assert(st.total_supplies.get_spec(d) == genesis.total_supplies.get_spec(d));
        lemma_held_entries(st.balances.entries@, d);
        lemma_held_entries(genesis.balances.entries@, d);
        assert forall|a: Seq<u8>| #[trigger] lookup(st.balances.entries@, a) == st.balances.get_spec(a) by {}
        assert forall|a: Seq<u8>|
            (#[trigger] lookup(st.balances.entries@, a) matches Some(inner) && inner.get_spec(d) is Some)
                <==> (lookup(genesis.balances.entries@, a) matches Some(gi) && gi.get_spec(d) is Some) by {
            assert(old.state.balances.get_spec(a) is None);
            assert(st.balance_entry(a, d) == genesis_balance(genesis.balances.entries@, a, d));
        }
        let se = st.balances.entries@;
        let ge = genesis.balances.entries@;
        if genesis_held(genesis, d) {
            let a = choose|a: Seq<u8>| #[trigger] lookup(ge, a) matches Some(inner) && inner.get_spec(d) is Some;
            assert(lookup(se, a) matches Some(inner) && inner.get_spec(d) is Some);
        }
        if den_held(st, d) {
            let a = choose|a: Seq<u8>| #[trigger] lookup(se, a) matches Some(inner) && inner.get_spec(d) is Some;
            assert(lookup(se, a) matches Some(inner) && inner.get_spec(d) is Some);
            assert(lookup(ge, a) matches Some(inner) && inner.get_spec(d) is Some);
        }
    }
}


/// Owner initialization acts once: after it, the initiator is marked
/// initialized, so a later `tx_initowners` by the initiator succeeds and
/// changes nothing but the gas it uses.
pub proof fn law_initowners_acts_once(new: AccountsState, old: AccountsState, init: Address, ras: Seq<RoleAddress>)
    requires
        owners_set(new, old, init, ras),
    ensures
        new.account(init@).init,
{
}


/// Subtracting from the fee accumulator a fee just added to it (where the
/// sum fits, as adding requires) succeeds and gives every denomination back
/// its amount.
pub proof fn law_fee_add_then_sub_restores(
    before: FeeAccumulator,
    added: FeeAccumulator,
    after: FeeAccumulator,
    amount: u128,
    d: Seq<u8>,
    r: Result<(), Error>,
)
    requires
        fee_of(before, d) + amount <= u128::MAX,
        fee_added(added, before, amount, d),
        fee_subtracted(after, added, amount, d, r),
    ensures
        r is Ok,
        forall|d2: Seq<u8>| #[trigger] fee_of(after, d2) == fee_of(before, d2),
{
    assert(added.total_fees.get_spec(d) == Some((fee_of(before, d) + amount) as u128));
    assert forall|d2: Seq<u8>| #[trigger] fee_of(after, d2) == fee_of(before, d2) by {
        assert(after.total_fees.get_spec(d2) == after.total_fees.get_spec(d2));
    }
}


/// A count reaches a percentage of a number, rounded up, exactly when a
/// hundred times the count reaches that number times the percentage.
proof fn lemma_reaches_percent(c: int, x: int)
    requires
        x >= 0,
    ensures
        (c >= (x + 99) / 100) == (100 * c >= x),
{
    let t = (x + 99) / 100;
    let r = (x + 99) % 100;
    vstd::arithmetic::div_mod::lemma_fundamental_div_mod(x + 99, 100);
    assert(0 <= r < 100);
    assert(c >= t ==> 100 * c >= x) by (nonlinear_arith)
        requires
            x + 99 == 100 * t + r,
            0 <= r < 100,
    ;
    assert(100 * c >= x ==> c >= t) by (nonlinear_arith)
        requires
            x + 99 == 100 * t + r,
            0 <= r < 100,
    ;
}

/// The state a vote leaves a proposal in, where the vote is the `c`th of
/// its kind among `n` voters and the quorum is `q` percent: yes votes pass
/// it once a hundred times their count reaches `n * q`; no votes reject it
/// once a hundred times their count reaches `n * (100 - q)` (the voters
/// beyond the quorum); abstentions cancel it once twice their count reaches
/// `n` (half of the voters); until then it stays active.
pub open spec fn state_after_vote(option: Vote, c: int, n: int, q: int) -> ProposalState {
    match option {
        Vote::VoteYes => if 100 * c >= n * q {
            ProposalState::Passed
        } else {
            ProposalState::Active
        },
        Vote::VoteNo => if 100 * c >= n * (100 - q) {
            ProposalState::Rejected
        } else {
            ProposalState::Active
        },
        Vote::VoteAbstain => if 2 * c >= n {
            ProposalState::Cancelled
        } else {
            ProposalState::Active
        },
    }
}

/// A vote that is taken leaves its proposal passed, rejected, cancelled or
/// still active by the thresholds of `state_after_vote`: with `n` voters of
/// the action and its quorum of `q` percent, rejection takes no votes from
/// at least `n * (100 - q)` percent of the voters, and cancelling takes
/// abstentions from at least half of them.
#[verifier::rlimit(30)]
pub proof fn law_vote_thresholds(new: AccountsContext, old: AccountsContext, body: VoteProposal)
    requires
        vote_outcome(new, old, body, Ok(())),
    ensures
        voted_proposal(old.state, body.id) matches Some(p) && old.state.quorum_of(p.content.action) matches Some(q)
            && new.state.proposals.get_spec(body.id.key_bytes()) matches Some(np) && np.state
            == state_after_vote(
            body.option,
            vote_count(p.results, body.option) + 1,
            voter_total(old.state, p.content.action),
            q as int,
        ),
{
    let st = old.state;
    let p = voted_proposal(st, body.id).unwrap();
    let q = st.quorum_of(p.content.action).unwrap();
    let n = voter_total(st, p.content.action);
    let c = vote_count(p.results, body.option) + 1;
    assert(vote_check(st, old.caller, Some(p)) is Ok);
    assert(q <= 100);
    assert(n >= 0);
    assert(n * (q as int) >= 0) by (nonlinear_arith)
        requires
            n >= 0,
            q >= 0,
    ;
    assert(n * (100 - q) >= 0) by (nonlinear_arith)
        requires
            n >= 0,
            q <= 100,
    ;
    lemma_reaches_percent(c, n * (q as int));
    lemma_reaches_percent(c, n * (100 - q));
}


/// A whitelisting proposal by a whitelist proposer or voter is refused with
/// `InvalidArgument` exactly where its target is blacklisted (a blacklisted
/// user must first be made a user again); a target of any other role, an
/// already whitelisted one too, passes the check.
pub proof fn law_whitelist_refuses_only_blacklisted(
    st: AccountsState,
    caller: Address,
    content: ProposalContent,
    target: Address,
)
    requires
        content.action == Action::Whitelist,
        content.data.address == Some(target),
        st.account(caller@).role == Role::WhitelistProposer || st.account(caller@).role
            == Role::WhitelistVoter,
    ensures
        st.account(target@).role == Role::BlacklistedUser ==> propose_check(st, caller, content)
            == Err::<(), Error>(Error::InvalidArgument),
        st.account(target@).role != Role::BlacklistedUser ==> propose_check(st, caller, content)
            == Ok::<(), Error>(()),
{
}


/// With nonce checks on, a signer whose nonce is below its account's nonce
/// (a replayed signature) makes the nonce check fail, whichever signer it
/// is; where no signer's nonce is above its account's, it fails with
/// `InvalidNonce`.
pub proof fn law_replayed_signer_refused(
    st: AccountsState,
    s: Seq<SignerInfo>,
    pre_schedule: bool,
    check_only: bool,
    k: int,
)
    requires
        !st.params.debug_disable_nonce_check,
        0 <= k < s.len(),
        s[k].nonce < st.account(s[k].address@).nonce,
    ensures
        nonces_error(st, s, pre_schedule, check_only) is Some,
        (forall|j: int| 0 <= j < s.len() ==> #[trigger] s[j].nonce <= st.account(s[j].address@).nonce)
            ==> nonces_error(st, s, pre_schedule, check_only) == Some(CoreError::InvalidNonce),
    decreases s.len(),
{
    if k < s.len() - 1 {
        let p = s.drop_last();
        assert(p[k] == s[k]);
        law_replayed_signer_refused(st, p, pre_schedule, check_only, k);
        if forall|j: int| 0 <= j < s.len() ==> #[trigger] s[j].nonce <= st.account(s[j].address@).nonce {
            assert forall|j: int| 0 <= j < p.len() implies #[trigger] p[j].nonce <= st.account(p[j].address@).nonce by {
                assert(p[j] == s[j]);
            }
        }
    } else {
        let p = s.drop_last();
        if forall|j: int| 0 <= j < s.len() ==> #[trigger] s[j].nonce <= st.account(s[j].address@).nonce {
            lemma_no_future_nonce(st, p, pre_schedule, check_only);
            assert forall|j: int| 0 <= j < p.len() implies #[trigger] p[j].nonce <= st.account(p[j].address@).nonce by {
                assert(p[j] == s[j]);
            }
        }
    }
}

/// Where no signer's nonce is above its account's, the nonce check gives
/// no error or `InvalidNonce`.
proof fn lemma_no_future_nonce(st: AccountsState, s: Seq<SignerInfo>, pre_schedule: bool, check_only: bool)
    ensures
        (forall|j: int| 0 <= j < s.len() ==> #[trigger] s[j].nonce <= st.account(s[j].address@).nonce)
            ==> (nonces_error(st, s, pre_schedule, check_only) is None || nonces_error(
            st,
            s,
            pre_schedule,
            check_only,
        ) == Some(CoreError::InvalidNonce)),
    decreases s.len(),
{
    if s.len() > 0 {
        let p = s.drop_last();
        lemma_no_future_nonce(st, p, pre_schedule, check_only);
        if forall|j: int| 0 <= j < s.len() ==> #[trigger] s[j].nonce <= st.account(s[j].address@).nonce {
            assert forall|j: int| 0 <= j < p.len() implies #[trigger] p[j].nonce <= st.account(p[j].address@).nonce by {
                assert(p[j] == s[j]);
            }
            assert(s.last() == s[s.len() - 1]);
        }
    }
}

} // verus!
