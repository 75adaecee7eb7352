//! Account module types.
use vstd::prelude::*;

use crate::keyed::KvStore;
use crate::types::address::Address;
use crate::types::proposal::{Meta, ProposalState};
use crate::types::role::Role;
use crate::types::token::{BaseUnits, Denomination};
use crate::types::vote::{Action, Vote};

verus! {

/// Transfer call.
#[derive(Debug)]
pub struct Transfer {
    pub to: Address,
    pub amount: BaseUnits,
}

/// An address and the role to give it.
#[derive(Debug, Clone, Copy)]
pub struct RoleAddress {
    pub address: Address,
    pub role: Role,
}

/// What a proposal proposes.
#[derive(Debug)]
pub struct ProposalContent {
    pub action: Action,
    pub data: ProposalData,
}

/// The arguments of a proposed action.
#[derive(Debug)]
pub struct ProposalData {
    pub address: Option<Address>,
    pub amount: Option<BaseUnits>,
    pub meta: Option<Meta>,
    pub role: Option<Role>,
    pub mint_quorum: Option<u8>,
    pub burn_quorum: Option<u8>,
    pub whitelist_quorum: Option<u8>,
    pub blacklist_quorum: Option<u8>,
    pub config_quorum: Option<u8>,
}

/// The data fields agree: equal plain fields and amounts of equal amount
/// and denomination.
pub open spec fn same_data(a: ProposalData, b: ProposalData) -> bool {
    &&& a.address == b.address
    &&& a.meta == b.meta
    &&& a.role == b.role
    &&& a.mint_quorum == b.mint_quorum
    &&& a.burn_quorum == b.burn_quorum
    &&& a.whitelist_quorum == b.whitelist_quorum
    &&& a.blacklist_quorum == b.blacklist_quorum
    &&& a.config_quorum == b.config_quorum
    &&& match (a.amount, b.amount) {
        (Some(x), Some(y)) => x.amount == y.amount && x.denomination@ == y.denomination@,
        (None, None) => true,
        _ => false,
    }
}

/// Proposal data with no argument.
pub open spec fn empty_data(d: ProposalData) -> bool {
    &&& d.address is None
    &&& d.amount is None
    &&& d.meta is None
    &&& d.role is None
    &&& d.mint_quorum is None
    &&& d.burn_quorum is None
    &&& d.whitelist_quorum is None
    &&& d.blacklist_quorum is None
    &&& d.config_quorum is None
}

impl Default for ProposalData {
    /// No argument.
    fn default() -> (r: Self)
        ensures
            empty_data(r),
    {
        ProposalData {
            address: None,
            amount: None,
            meta: None,
            role: None,
            mint_quorum: None,
            burn_quorum: None,
            whitelist_quorum: None,
            blacklist_quorum: None,
            config_quorum: None,
        }
    }
}

impl Default for ProposalContent {
    /// No action and no argument.
    fn default() -> (r: Self)
        ensures
            r.action == Action::NoAction,
            empty_data(r.data),
    {
        ProposalContent { action: Action::NoAction, data: ProposalData::default() }
    }
}

impl ProposalData {
    /// A copy of the data.
    pub fn duplicate(&self) -> (r: Self)
        ensures
            same_data(r, *self),
    {
        ProposalData {
            address: self.address,
            amount: match &self.amount {
                Some(a) => Some(a.duplicate()),
                None => None,
            },
            meta: self.meta,
            role: self.role,
            mint_quorum: self.mint_quorum,
            burn_quorum: self.burn_quorum,
            whitelist_quorum: self.whitelist_quorum,
            blacklist_quorum: self.blacklist_quorum,
            config_quorum: self.config_quorum,
        }
    }
}

/// Tallied votes of a proposal; a vote that nobody cast has no count.
#[derive(Debug, Clone, Copy, PartialEq, Eq)]
pub struct VoteResults {
    pub yes: Option<u16>,
    pub no: Option<u16>,
    pub abstain: Option<u16>,
}

/// The tally of a vote in tallied results: none where there are no
/// results or nobody cast that vote.
pub open spec fn tally(r: Option<VoteResults>, v: Vote) -> Option<u16> {
    match r {
        None => None,
        Some(res) => match v {
            Vote::VoteYes => res.yes,
            Vote::VoteNo => res.no,
            Vote::VoteAbstain => res.abstain,
        },
    }
}

/// The count of a vote in tallied results (zero when absent).
pub open spec fn vote_count(r: Option<VoteResults>, v: Vote) -> int {
    match tally(r, v) {
        Some(n) => n as int,
        None => 0,
    }
}

/// A proposal for mint, burn, whitelist, blacklist, role or quorum changes.
#[allow(non_snake_case)]
#[derive(Debug)]
pub struct Proposal {
    /// Unique identifier of the proposal.
    pub id: u32,
    /// Address of the proposal submitter.
    pub submitter: Address,
    /// State of the proposal.
    pub state: ProposalState,
    /// Content of the proposal.
    pub content: ProposalContent,
    /// Tallied results.
    pub results: Option<VoteResults>,
    /// The votes cast, by voter address.
    pub voteOption: Option<KvStore<Address, Vote>>,
}

/// The proposal read for an id that has none: id zero, the zero address,
/// active, with no action, no argument, no tally and no voters.
pub open spec fn is_default_proposal(p: Proposal) -> bool {
    &&& p.id == 0
    &&& p.submitter@ == Seq::new(crate::types::address::ADDRESS_SIZE as nat, |i: int| 0u8)
    &&& p.state == ProposalState::Active
    &&& p.content.action == Action::NoAction
    &&& empty_data(p.content.data)
    &&& p.results is None
    &&& p.voteOption is None
}

/// `a` is a copy of `b`: the same fields, with data that agrees and the same
/// voters.
pub open spec fn same_proposal(a: Proposal, b: Proposal) -> bool {
    &&& a.id == b.id
    &&& a.submitter == b.submitter
    &&& a.state == b.state
    &&& a.content.action == b.content.action
    &&& same_data(a.content.data, b.content.data)
    &&& a.results == b.results
    &&& match (a.voteOption, b.voteOption) {
        (Some(x), Some(y)) => x.entries@ == y.entries@,
        (None, None) => true,
        _ => false,
    }
}

impl Default for Proposal {
    /// The proposal read for an id that has none (see `is_default_proposal`).
    fn default() -> (r: Self)
        ensures
            is_default_proposal(r),
    {
        Proposal {
            id: 0,
            submitter: Address::default(),
            state: ProposalState::Active,
            content: ProposalContent::default(),
            results: None,
            voteOption: None,
        }
    }
}

impl Proposal {
    /// A copy of the proposal.
    pub fn duplicate(&self) -> (r: Self)
        ensures
            same_proposal(r, *self),
    {
        Proposal {
            id: self.id,
            submitter: self.submitter,
            state: self.state,
            content: ProposalContent { action: self.content.action, data: self.content.data.duplicate() },
            results: self.results,
            voteOption: match &self.voteOption {
                Some(m) => Some(m.duplicate()),
                None => None,
            },
        }
    }

    /// Counts one more vote for `vote`, returning the new count; the other
    /// tallies stay as they were (absent where nobody cast them).
    pub fn add_vote(&mut self, vote: Vote) -> (r: u16)
        requires
            vote_count(old(self).results, vote) < u16::MAX,
        ensures
            r == vote_count(old(self).results, vote) + 1,
            final(self).results is Some,
            forall|v: Vote| #[trigger]
                tally(final(self).results, v) == if v == vote {
                    Some(r)
                } else {
                    tally(old(self).results, v)
                },
            forall|v: Vote| #[trigger]
                vote_count(final(self).results, v) == if v == vote {
                    vote_count(old(self).results, v) + 1
                } else {
                    vote_count(old(self).results, v)
                },
            final(self).id == old(self).id,
            final(self).submitter == old(self).submitter,
            final(self).state == old(self).state,
            final(self).content == old(self).content,
            final(self).voteOption == old(self).voteOption,
    {
        let mut res = match self.results {
            Some(r) => r,
            None => VoteResults { yes: None, no: None, abstain: None },
        };
        let count: u16 = match vote {
            Vote::VoteYes => {
                let c = match res.yes {
                    Some(c) => c + 1,
                    None => 1,
                };
                res.yes = Some(c);
                c
            },
            Vote::VoteNo => {
                let c = match res.no {
                    Some(c) => c + 1,
                    None => 1,
                };
                res.no = Some(c);
                c
            },
            Vote::VoteAbstain => {
                let c = match res.abstain {
                    Some(c) => c + 1,
                    None => 1,
                };
                res.abstain = Some(c);
                c
            },
        };
        self.results = Some(res);
        count
    }
}

/// A vote on a proposal.
#[derive(Debug, Clone, Copy)]
pub struct VoteProposal {
    pub id: u32,
    pub option: Vote,
}

/// Mint call.
#[derive(Debug)]
pub struct MintST {
    pub to: Address,
    pub amount: BaseUnits,
}

/// Burn call.
#[derive(Debug)]
pub struct BurnST {
    pub amount: BaseUnits,
}

/// Account metadata.
#[derive(Debug, Clone, Copy, PartialEq, Eq)]
pub struct Account {
    pub nonce: u64,
    pub role: Role,
    /// Set once the chain initiator has initialized the owners.
    pub init: bool,
}

/// The metadata of an account that was never written.
pub open spec fn default_account() -> Account {
    Account { nonce: 0, role: Role::User, init: false }
}

impl Account {
    pub fn default() -> (r: Self)
        ensures
            r == default_account(),
    {
        Account { nonce: 0, role: Role::User, init: false }
    }
}

/// Arguments for the Nonce query.
#[derive(Debug, Clone, Copy)]
pub struct NonceQuery {
    pub address: Address,
}

/// Arguments for the Role query.
#[derive(Debug, Clone, Copy)]
pub struct RoleQuery {
    pub address: Address,
}

/// Arguments for the InitStatus query.
#[derive(Debug, Clone, Copy)]
pub struct InitInfoQuery {
    pub address: Address,
}

/// Arguments for the Blacklist query.
#[derive(Debug, Clone, Copy)]
pub struct BlacklistQuery {
    pub address: Address,
}

/// Arguments for the Quorum query.
#[derive(Debug, Clone, Copy)]
pub struct QuorumQuery {
    pub action: Action,
}

/// Arguments for the Role Addresses query.
#[derive(Debug, Clone, Copy)]
pub struct RoleAddressesQuery {
    pub role: Role,
}

/// Arguments for the Addresses query.
#[derive(Debug)]
pub struct AddressesQuery {
    pub denomination: Denomination,
}

/// Arguments for the Balances query.
#[derive(Debug, Clone, Copy)]
pub struct BalancesQuery {
    pub address: Address,
}

/// Balances in an account, in denomination order.
#[derive(Debug)]
pub struct AccountBalances {
    pub balances: Vec<(Denomination, u128)>,
}

/// Arguments for the DenominationInfo query.
#[derive(Debug)]
pub struct DenominationInfoQuery {
    pub denomination: Denomination,
}

/// Information about a denomination.
#[derive(Debug, Clone, Copy, PartialEq, Eq)]
pub struct DenominationInfo {
    /// Number of decimals that the denomination is using.
    pub decimals: u8,
}

} // verus!
