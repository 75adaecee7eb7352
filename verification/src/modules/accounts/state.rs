//! The stored state of the accounts module and the operations on it.
use vstd::prelude::*;

use super::types::{
    default_account, is_default_proposal, same_proposal, Account, AccountBalances, DenominationInfo,
    Proposal,
};
use super::{
    lemma_sum_balances_bound, lemma_sum_balances_insert, lemma_sum_balances_nonneg,
    lemma_sum_balances_update, sum_balances, Error, Parameters,
};
use crate::keyed::{has_key, lemma_lookup_at, lookup, Key, KvStore};
use crate::types::address::Address;
use crate::types::role::Role;
use crate::types::token::{BaseUnits, Denomination};
use crate::types::vote::Action;

verus! {

/// The members of a role that were numbered in sequence: the last number
/// given, and the number of each member.
#[derive(Debug)]
pub struct RoleSequence {
    pub counter: u32,
    pub members: KvStore<Address, u32>,
}

/// The stored state of the accounts module.
#[derive(Debug)]
pub struct AccountsState {
    /// Module parameters.
    pub params: Parameters,
    /// Account metadata by address.
    pub accounts: KvStore<Address, Account>,
    /// Balances by address, then by denomination.
    pub balances: KvStore<Address, KvStore<Denomination, u128>>,
    /// Total supply by denomination.
    pub total_supplies: KvStore<Denomination, u128>,
    /// The role entry of each address that holds one (never `User`).
    pub roles: KvStore<Address, Role>,
    /// Numbered members by role.
    pub role_sequences: KvStore<Role, RoleSequence>,
    /// The last proposal id given (absent: none yet).
    pub proposal_counter: Option<u32>,
    /// Proposals by id.
    pub proposals: KvStore<u32, Proposal>,
    pub mint_quorum: Option<u8>,
    pub burn_quorum: Option<u8>,
    pub whitelist_quorum: Option<u8>,
    pub blacklist_quorum: Option<u8>,
    /// Quorum of `Config` proposals, which `SetRoles` proposals use too.
    pub config_quorum: Option<u8>,
}

/// The account stores of a balances store are well formed.
pub open spec fn inner_wf(e: Seq<(Address, KvStore<Denomination, u128>)>) -> bool {
    forall|i: int| 0 <= i < e.len() ==> (#[trigger] e[i]).1.wf()
}

/// The addresses that hold role `r`, in the order of the entries.
pub open spec fn role_members(e: Seq<(Address, Role)>, r: Role) -> Seq<Address>
    decreases e.len(),
{
    if e.len() == 0 {
        Seq::empty()
    } else if e.last().1 == r {
        role_members(e.drop_last(), r).push(e.last().0)
    } else {
        role_members(e.drop_last(), r)
    }
}

/// The account stores of the members of each numbered role are well formed.
pub open spec fn sequences_wf(e: Seq<(Role, RoleSequence)>) -> bool {
    forall|i: int| 0 <= i < e.len() ==> (#[trigger] e[i]).1.members.wf()
}

/// The stored entries of a denomination store, by denomination bytes.
pub open spec fn den_entries(e: Seq<(Denomination, u128)>) -> Seq<(Seq<u8>, u128)> {
    e.map_values(|x: (Denomination, u128)| (x.0@, x.1))
}

/// The addresses, in order, that have a balance entry of `d`.
pub open spec fn holders_of(e: Seq<(Address, KvStore<Denomination, u128>)>, d: Seq<u8>) -> Seq<Address>
    decreases e.len(),
{
    if e.len() == 0 {
        Seq::empty()
    } else if e.last().1.get_spec(d) is Some {
        holders_of(e.drop_last(), d).push(e.last().0)
    } else {
        holders_of(e.drop_last(), d)
    }
}

/// A copy of the entries of a denomination store.
fn copy_den_entries(e: &Vec<(Denomination, u128)>) -> (r: Vec<(Denomination, u128)>)
    ensures
        den_entries(r@) == den_entries(e@),
{
    let mut out: Vec<(Denomination, u128)> = Vec::new();
    let mut i: usize = 0;
    while i < e.len()
        invariant
            0 <= i <= e@.len(),
            den_entries(out@) =~= den_entries(e@.take(i as int)),
        decreases e@.len() - i,
    {
        let d = e[i].0.duplicate();
        let ghost old_out = out@;
        out.push((d, e[i].1));
        proof {
            assert(e@.take(i + 1) =~= e@.take(i as int).push(e@[i as int]));
            assert(out@ =~= old_out.push((d, e@[i as int].1)));
            assert(den_entries(out@) =~= den_entries(old_out).push((e@[i as int].0@, e@[i as int].1)));
            assert(den_entries(e@.take(i + 1)) =~= den_entries(e@.take(i as int)).push((e@[i as int].0@, e@[i as int].1)));
        }
        i = i + 1;
    }
    assert(e@.take(e@.len() as int) =~= e@);
    out
}

impl AccountsState {
    pub open spec fn wf(&self) -> bool {
        &&& self.params.denomination_infos.wf()
        &&& self.accounts.wf()
        &&& self.balances.wf()
        &&& inner_wf(self.balances.entries@)
        &&& self.total_supplies.wf()
        &&& self.roles.wf()
        &&& self.role_sequences.wf()
        &&& sequences_wf(self.role_sequences.entries@)
        &&& self.proposals.wf()
        &&& forall|i: int|
            0 <= i < self.proposals.entries@.len() ==> (#[trigger] self.proposals.entries@[i]).0
                == self.proposals.entries@[i].1.id
        &&& forall|i: int|
            0 <= i < self.proposals.entries@.len()
                ==> ((#[trigger] self.proposals.entries@[i]).1.voteOption matches Some(m) ==> m.wf())
    }

    /// `self` is `old` with only balances changed.
    pub open spec fn same_except_balances(&self, old: AccountsState) -> bool {
        &&& self.params == old.params
        &&& self.accounts == old.accounts
        &&& self.total_supplies == old.total_supplies
        &&& self.roles == old.roles
        &&& self.role_sequences == old.role_sequences
        &&& self.proposal_counter == old.proposal_counter
        &&& self.proposals == old.proposals
        &&& self.mint_quorum == old.mint_quorum
        &&& self.burn_quorum == old.burn_quorum
        &&& self.whitelist_quorum == old.whitelist_quorum
        &&& self.blacklist_quorum == old.blacklist_quorum
        &&& self.config_quorum == old.config_quorum
    }

    /// `self` is `old` after minting `amt` of `d` to `a`.
    pub open spec fn minted(&self, old: AccountsState, a: Seq<u8>, d: Seq<u8>, amt: u128) -> bool {
        &&& self.same_except_balances_and_supplies(old)
        &&& forall|a2: Seq<u8>, d2: Seq<u8>| #[trigger]
            self.balance_entry(a2, d2) == if a2 == a && d2 == d {
                Some((old.balance(a, d) + amt) as u128)
            } else {
                old.balance_entry(a2, d2)
            }
        &&& forall|d2: Seq<u8>| #[trigger]
            self.total_supplies.get_spec(d2) == if d2 == d {
                Some((old.total_supply(d) + amt) as u128)
            } else {
                old.total_supplies.get_spec(d2)
            }
        &&& forall|d2: Seq<u8>| #[trigger]
            self.sum_of_balances(d2) == old.sum_of_balances(d2) + if d2 == d {
                amt as int
            } else {
                0
            }
    }

    /// `self` is `old` after burning `amt` of `d` from `a`.
    pub open spec fn burned(&self, old: AccountsState, a: Seq<u8>, d: Seq<u8>, amt: u128) -> bool {
        &&& self.same_except_balances_and_supplies(old)
        &&& forall|a2: Seq<u8>, d2: Seq<u8>| #[trigger]
            self.balance_entry(a2, d2) == if a2 == a && d2 == d {
                Some((old.balance(a, d) - amt) as u128)
            } else {
                old.balance_entry(a2, d2)
            }
        &&& forall|d2: Seq<u8>| #[trigger]
            self.total_supplies.get_spec(d2) == if d2 == d {
                Some((old.total_supply(d) - amt) as u128)
            } else {
                old.total_supplies.get_spec(d2)
            }
        &&& forall|d2: Seq<u8>| #[trigger]
            self.sum_of_balances(d2) == old.sum_of_balances(d2) - if d2 == d {
                amt as int
            } else {
                0
            }
    }

    /// `self` is `old` with only balances and total supplies changed.
    pub open spec fn same_except_balances_and_supplies(&self, old: AccountsState) -> bool {
        &&& self.params == old.params
        &&& self.accounts == old.accounts
        &&& self.roles == old.roles
        &&& self.role_sequences == old.role_sequences
        &&& self.proposal_counter == old.proposal_counter
        &&& self.proposals == old.proposals
        &&& self.mint_quorum == old.mint_quorum
        &&& self.burn_quorum == old.burn_quorum
        &&& self.whitelist_quorum == old.whitelist_quorum
        &&& self.blacklist_quorum == old.blacklist_quorum
        &&& self.config_quorum == old.config_quorum
    }

    /// `self` is `old` with only the account metadata of `a` set to `acc`.
    pub open spec fn account_set(&self, old: AccountsState, a: Seq<u8>, acc: Account) -> bool {
        &&& self.params == old.params
        &&& self.balances == old.balances
        &&& self.total_supplies == old.total_supplies
        &&& self.roles == old.roles
        &&& self.role_sequences == old.role_sequences
        &&& self.proposal_counter == old.proposal_counter
        &&& self.proposals == old.proposals
        &&& self.mint_quorum == old.mint_quorum
        &&& self.burn_quorum == old.burn_quorum
        &&& self.whitelist_quorum == old.whitelist_quorum
        &&& self.blacklist_quorum == old.blacklist_quorum
        &&& self.config_quorum == old.config_quorum
        &&& forall|a2: Seq<u8>| #[trigger]
            self.accounts.get_spec(a2) == if a2 == a {
                Some(acc)
            } else {
                old.accounts.get_spec(a2)
            }
    }

    /// The members of role `r`, by address order.
    pub open spec fn members_of(&self, r: Role) -> Seq<Address> {
        role_members(self.roles.entries@, r)
    }

    /// `self` is `old` with only the roles store changed.
    pub open spec fn same_except_roles(&self, old: AccountsState) -> bool {
        &&& self.params == old.params
        &&& self.accounts == old.accounts
        &&& self.balances == old.balances
        &&& self.total_supplies == old.total_supplies
        &&& self.role_sequences == old.role_sequences
        &&& self.proposal_counter == old.proposal_counter
        &&& self.proposals == old.proposals
        &&& self.mint_quorum == old.mint_quorum
        &&& self.burn_quorum == old.burn_quorum
        &&& self.whitelist_quorum == old.whitelist_quorum
        &&& self.blacklist_quorum == old.blacklist_quorum
        &&& self.config_quorum == old.config_quorum
    }

    /// `self` is `old` with only the quorums changed.
    pub open spec fn same_except_quorums(&self, old: AccountsState) -> bool {
        &&& self.params == old.params
        &&& self.accounts == old.accounts
        &&& self.balances == old.balances
        &&& self.total_supplies == old.total_supplies
        &&& self.roles == old.roles
        &&& self.role_sequences == old.role_sequences
        &&& self.proposal_counter == old.proposal_counter
        &&& self.proposals == old.proposals
    }

    /// `self` is `old` with only the proposal store and counter changed.
    pub open spec fn same_except_proposals(&self, old: AccountsState) -> bool {
        &&& self.params == old.params
        &&& self.accounts == old.accounts
        &&& self.balances == old.balances
        &&& self.total_supplies == old.total_supplies
        &&& self.roles == old.roles
        &&& self.role_sequences == old.role_sequences
        &&& self.mint_quorum == old.mint_quorum
        &&& self.burn_quorum == old.burn_quorum
        &&& self.whitelist_quorum == old.whitelist_quorum
        &&& self.blacklist_quorum == old.blacklist_quorum
        &&& self.config_quorum == old.config_quorum
    }

    /// The quorum of `action`, if it has one (`SetRoles` uses the quorum of
    /// `Config`; unset quorums are 100).
    pub open spec fn quorum_of(&self, action: Action) -> Option<u8> {
        let unset = |q: Option<u8>| match q {
            Some(v) => v,
            None => 100u8,
        };
        match action {
            Action::Mint => Some(unset(self.mint_quorum)),
            Action::Burn => Some(unset(self.burn_quorum)),
            Action::Whitelist => Some(unset(self.whitelist_quorum)),
            Action::Blacklist => Some(unset(self.blacklist_quorum)),
            Action::Config => Some(unset(self.config_quorum)),
            Action::SetRoles => Some(unset(self.config_quorum)),
            Action::NoAction => None,
        }
    }

    /// The last proposal id given (zero before any).
    pub open spec fn proposal_id(&self) -> u32 {
        match self.proposal_counter {
            Some(c) => c,
            None => 0,
        }
    }

    /// The metadata of the account at address bytes `a`.
    pub open spec fn account(&self, a: Seq<u8>) -> Account {
        match self.accounts.get_spec(a) {
            Some(x) => x,
            None => default_account(),
        }
    }

    /// The stored balance of `d` at address bytes `a`, if there is an entry.
    pub open spec fn balance_entry(&self, a: Seq<u8>, d: Seq<u8>) -> Option<u128> {
        match self.balances.get_spec(a) {
            Some(inner) => inner.get_spec(d),
            None => None,
        }
    }

    /// The balance of `d` at address bytes `a` (zero when absent).
    pub open spec fn balance(&self, a: Seq<u8>, d: Seq<u8>) -> int {
        match self.balance_entry(a, d) {
            Some(v) => v as int,
            None => 0,
        }
    }

    /// The total supply of `d` (zero when absent).
    pub open spec fn total_supply(&self, d: Seq<u8>) -> int {
        match self.total_supplies.get_spec(d) {
            Some(v) => v as int,
            None => 0,
        }
    }

    /// The sum of all balances of `d`.
    pub open spec fn sum_of_balances(&self, d: Seq<u8>) -> int {
        sum_balances(self.balances.entries@, d)
    }

    /// Every total supply equals the sum of the balances of its denomination.
    pub open spec fn supply_conserved(&self) -> bool {
        forall|d: Seq<u8>| #[trigger] self.total_supply(d) == self.sum_of_balances(d)
    }

    /// `self` is `old` with the balance entry of `(a, d)` set to `v`, and
    /// nothing else changed.
    pub open spec fn balance_set(&self, old: AccountsState, a: Seq<u8>, d: Seq<u8>, v: u128) -> bool {
        &&& self.params == old.params
        &&& self.accounts == old.accounts
        &&& self.total_supplies == old.total_supplies
        &&& self.roles == old.roles
        &&& self.role_sequences == old.role_sequences
        &&& self.proposal_counter == old.proposal_counter
        &&& self.proposals == old.proposals
        &&& self.mint_quorum == old.mint_quorum
        &&& self.burn_quorum == old.burn_quorum
        &&& self.whitelist_quorum == old.whitelist_quorum
        &&& self.blacklist_quorum == old.blacklist_quorum
        &&& self.config_quorum == old.config_quorum
        &&& forall|a2: Seq<u8>, d2: Seq<u8>| #[trigger]
            self.balance_entry(a2, d2) == if a2 == a && d2 == d {
                Some(v)
            } else {
                old.balance_entry(a2, d2)
            }
        &&& forall|d2: Seq<u8>| #[trigger]
            self.sum_of_balances(d2) == old.sum_of_balances(d2) + if d2 == d {
                v - old.balance(a, d)
            } else {
                0
            }
    }

    /// `self` is `old` with the total supply entry of `d` set to `v`, and
    /// nothing else changed.
    pub open spec fn total_set(&self, old: AccountsState, d: Seq<u8>, v: u128) -> bool {
        &&& self.params == old.params
        &&& self.accounts == old.accounts
        &&& self.balances == old.balances
        &&& self.roles == old.roles
        &&& self.role_sequences == old.role_sequences
        &&& self.proposal_counter == old.proposal_counter
        &&& self.proposals == old.proposals
        &&& self.mint_quorum == old.mint_quorum
        &&& self.burn_quorum == old.burn_quorum
        &&& self.whitelist_quorum == old.whitelist_quorum
        &&& self.blacklist_quorum == old.blacklist_quorum
        &&& self.config_quorum == old.config_quorum
        &&& forall|d2: Seq<u8>| #[trigger]
            self.total_supplies.get_spec(d2) == if d2 == d {
                Some(v)
            } else {
                old.total_supplies.get_spec(d2)
            }
    }

    /// A balance is at most the sum of all balances of its denomination.
    pub proof fn lemma_balance_bound(&self, a: Seq<u8>, d: Seq<u8>)
        requires
            self.wf(),
        ensures
            0 <= self.balance(a, d) <= self.sum_of_balances(d),
    {
        let e = self.balances.entries@;
        lemma_sum_balances_nonneg(e, d);
        if has_key(e, a) {
            let i = crate::keyed::key_index(e, a);
            lemma_lookup_at(e, i);
            lemma_sum_balances_bound(e, i, d);
        }
    }

    /// The balance of `den` at `addr`.
    fn balance_of(&self, addr: &Address, den: &Denomination) -> (r: u128)
        requires
            self.wf(),
        ensures
            r == self.balance(addr@, den@),
    {
        match self.balances.get(addr) {
            Some(inner) => {
                proof {
                    let e = self.balances.entries@;
                    let i = crate::keyed::key_index(e, addr@);
                    lemma_lookup_at(e, i);
                }
                match inner.get(den) {
                    Some(v) => *v,
                    None => 0,
                }
            },
            None => 0,
        }
    }

    /// Sets the balance entry of `den` at `addr` to `v`.
    fn put_balance(&mut self, addr: Address, den: &Denomination, v: u128)
        requires
            old(self).wf(),
        ensures
            final(self).wf(),
            final(self).balance_set(*old(self), addr@, den@, v),
    {
        let ghost old_self = *self;
        let ghost old_e = self.balances.entries@;
        match self.balances.find(&addr) {
            Ok(i) => {
                let (k, mut inner) = self.balances.remove_at(i);
                proof {
                    assert(old_e[i as int].1.wf());
                }
                let ghost old_inner = inner;
                inner.insert(den.duplicate(), v);
                proof {
                    if i > 0 {
                        assert(crate::keyed::bytes_lt(
                            old_e[i - 1].0.key_bytes(),
                            old_e[i as int].0.key_bytes(),
                        ));
                    }
                    if i + 1 < old_e.len() {
                        assert(crate::keyed::bytes_lt(
                            old_e[i as int].0.key_bytes(),
                            old_e[i + 1].0.key_bytes(),
                        ));
                    }
                }
                self.balances.insert_at(i, k, inner);
                proof {
                    let e = self.balances.entries@;
                    assert(e =~= old_e.update(i as int, (k, inner)));
                    assert(inner_wf(e)) by {
                        assert forall|j: int| 0 <= j < e.len() implies (#[trigger] e[j]).1.wf() by {
                            if j != i {
                                assert(e[j] == old_e[j]);
                            }
                        }
                    }
                    lemma_lookup_at(old_e, i as int);
                    lemma_lookup_at(e, i as int);
                    assert forall|a2: Seq<u8>, d2: Seq<u8>| #[trigger]
                        self.balance_entry(a2, d2) == if a2 == addr@ && d2 == den@ {
                            Some(v)
                        } else {
                            old_self.balance_entry(a2, d2)
                        } by {
                        if a2 != addr@ {
                            if has_key(e, a2) {
                                let j = crate::keyed::key_index(e, a2);
                                lemma_lookup_at(e, j);
                                assert(j != i);
                                assert(old_e[j] == e[j]);
                                lemma_lookup_at(old_e, j);
                            }
                            if has_key(old_e, a2) {
                                let j = crate::keyed::key_index(old_e, a2);
                                lemma_lookup_at(old_e, j);
                                assert(j != i);
                                assert(old_e[j] == e[j]);
                                lemma_lookup_at(e, j);
                            }
                        }
                    }
                    assert forall|d2: Seq<u8>| #[trigger]
                        self.sum_of_balances(d2) == old_self.sum_of_balances(d2) + if d2 == den@ {
                            v - old_self.balance(addr@, den@)
                        } else {
                            0
                        } by {
                        lemma_sum_balances_update(old_e, i as int, (k, inner), d2);
                    }
                }
            },
            Err(i) => {
                let mut inner: KvStore<Denomination, u128> = KvStore::new();
                inner.insert(den.duplicate(), v);
                self.balances.insert_at(i, addr, inner);
                proof {
                    let e = self.balances.entries@;
                    assert(inner_wf(e)) by {
                        assert forall|j: int| 0 <= j < e.len() implies (#[trigger] e[j]).1.wf() by {
                            if j < i {
                                assert(e[j] == old_e[j]);
                            } else if j > i {
                                assert(e[j] == old_e[j - 1]);
                            }
                        }
                    }
                    lemma_lookup_at(e, i as int);
                    assert forall|a2: Seq<u8>, d2: Seq<u8>| #[trigger]
                        self.balance_entry(a2, d2) == if a2 == addr@ && d2 == den@ {
                            Some(v)
                        } else {
                            old_self.balance_entry(a2, d2)
                        } by {
                        if a2 != addr@ {
                            if has_key(e, a2) {
                                let j = crate::keyed::key_index(e, a2);
                                lemma_lookup_at(e, j);
                                assert(j != i);
                                if j < i {
                                    assert(old_e[j] == e[j]);
                                    lemma_lookup_at(old_e, j);
                                } else {
                                    assert(old_e[j - 1] == e[j]);
                                    lemma_lookup_at(old_e, j - 1);
                                }
                            }
                            if has_key(old_e, a2) {
                                let j = crate::keyed::key_index(old_e, a2);
                                lemma_lookup_at(old_e, j);
                                if j < i {
                                    assert(old_e[j] == e[j]);
                                    lemma_lookup_at(e, j);
                                } else {
                                    assert(old_e[j] == e[j + 1]);
                                    lemma_lookup_at(e, j + 1);
                                }
                            }
                        } else {
                            assert(!has_key(old_e, a2));
                        }
                    }
                    assert forall|d2: Seq<u8>| #[trigger]
                        self.sum_of_balances(d2) == old_self.sum_of_balances(d2) + if d2 == den@ {
                            v - old_self.balance(addr@, den@)
                        } else {
                            0
                        } by {
                        lemma_sum_balances_insert(old_e, i as int, (addr, inner), d2);
                        assert(e =~= old_e.insert(i as int, (addr, inner)));
                    }
                }
            },
        }
    }

    /// Sets the total supply entry of `den` to `v`.
    fn put_total(&mut self, den: &Denomination, v: u128)
        requires
            old(self).wf(),
        ensures
            final(self).wf(),
            final(self).total_set(*old(self), den@, v),
    {
        self.total_supplies.insert(den.duplicate(), v);
    }

    /// Adds the amount to the balance of `addr`; fails with `InvalidArgument`
    /// on overflow, changing nothing.
    pub fn add_amount(&mut self, addr: Address, amount: &BaseUnits) -> (r: Result<(), Error>)
        requires
            old(self).wf(),
        ensures
            final(self).wf(),
            r is Ok <==> old(self).balance(addr@, amount.denomination@) + amount.amount
                <= u128::MAX,
            r is Ok ==> final(self).balance_set(
                *old(self),
                addr@,
                amount.denomination@,
                (old(self).balance(addr@, amount.denomination@) + amount.amount) as u128,
            ),
            r is Err ==> r == Err::<(), Error>(Error::InvalidArgument) && *final(self) == *old(self),
    {
        let value = self.balance_of(&addr, amount.denomination());
        match value.checked_add(amount.amount()) {
            Some(v) => {
                self.put_balance(addr, amount.denomination(), v);
                Ok(())
            },
            None => Err(Error::InvalidArgument),
        }
    }

    /// Subtracts the amount from the balance of `addr`; fails with
    /// `InsufficientBalance` where the balance is smaller, changing nothing.
    pub fn sub_amount(&mut self, addr: Address, amount: &BaseUnits) -> (r: Result<(), Error>)
        requires
            old(self).wf(),
        ensures
            final(self).wf(),
            r is Ok <==> amount.amount <= old(self).balance(addr@, amount.denomination@),
            r is Ok ==> final(self).balance_set(
                *old(self),
                addr@,
                amount.denomination@,
                (old(self).balance(addr@, amount.denomination@) - amount.amount) as u128,
            ),
            r is Err ==> r == Err::<(), Error>(Error::InsufficientBalance) && *final(self) == *old(self),
    {
        let value = self.balance_of(&addr, amount.denomination());
        match value.checked_sub(amount.amount()) {
            Some(v) => {
                self.put_balance(addr, amount.denomination(), v);
                Ok(())
            },
            None => Err(Error::InsufficientBalance),
        }
    }

    /// The total supply of `den`.
    fn total_supply_of(&self, den: &Denomination) -> (r: u128)
        requires
            self.wf(),
        ensures
            r == self.total_supply(den@),
    {
        match self.total_supplies.get(den) {
            Some(v) => *v,
            None => 0,
        }
    }

    /// Increments the total supply; fails with `InvalidArgument` on overflow,
    /// changing nothing.
    pub fn inc_total_supply(&mut self, amount: &BaseUnits) -> (r: Result<(), Error>)
        requires
            old(self).wf(),
        ensures
            final(self).wf(),
            r is Ok <==> old(self).total_supply(amount.denomination@) + amount.amount <= u128::MAX,
            r is Ok ==> final(self).total_set(
                *old(self),
                amount.denomination@,
                (old(self).total_supply(amount.denomination@) + amount.amount) as u128,
            ),
            r is Err ==> r == Err::<(), Error>(Error::InvalidArgument) && *final(self) == *old(self),
    {
        let total = self.total_supply_of(amount.denomination());
        match total.checked_add(amount.amount()) {
            Some(v) => {
                self.put_total(amount.denomination(), v);
                Ok(())
            },
            None => Err(Error::InvalidArgument),
        }
    }

    /// Decrements the total supply; fails with `InsufficientBalance` where it
    /// is smaller, changing nothing.
    pub fn dec_total_supply(&mut self, amount: &BaseUnits) -> (r: Result<(), Error>)
        requires
            old(self).wf(),
        ensures
            final(self).wf(),
            r is Ok <==> amount.amount <= old(self).total_supply(amount.denomination@),
            r is Ok ==> final(self).total_set(
                *old(self),
                amount.denomination@,
                (old(self).total_supply(amount.denomination@) - amount.amount) as u128,
            ),
            r is Err ==> r == Err::<(), Error>(Error::InsufficientBalance) && *final(self) == *old(self),
    {
        let total = self.total_supply_of(amount.denomination());
        match total.checked_sub(amount.amount()) {
            Some(v) => {
                self.put_total(amount.denomination(), v);
                Ok(())
            },
            None => Err(Error::InsufficientBalance),
        }
    }

    /// The metadata of the account at `addr`.
    fn account_of(&self, addr: &Address) -> (r: Account)
        requires
            self.wf(),
        ensures
            r == self.account(addr@),
    {
        match self.accounts.get(addr) {
            Some(a) => *a,
            None => Account::default(),
        }
    }

    /// Sets an account's nonce.
    pub fn set_nonce(&mut self, address: Address, nonce: u64)
        requires
            old(self).wf(),
        ensures
            final(self).wf(),
            final(self).account_set(
                *old(self),
                address@,
                Account { nonce, ..old(self).account(address@) },
            ),
    {
        let mut account = self.account_of(&address);
        account.nonce = nonce;
        self.accounts.insert(address, account);
    }

    /// Fetches an account's current nonce.
    pub fn get_nonce(&self, address: Address) -> (r: Result<u64, Error>)
        requires
            self.wf(),
        ensures
            r == Ok::<u64, Error>(self.account(address@).nonce),
    {
        Ok(self.account_of(&address).nonce)
    }

    /// Sets an account's role.
    pub fn set_role(&mut self, address: Address, role: Role)
        requires
            old(self).wf(),
        ensures
            final(self).wf(),
            final(self).account_set(
                *old(self),
                address@,
                Account { role, ..old(self).account(address@) },
            ),
    {
        let mut account = self.account_of(&address);
        account.role = role;
        self.accounts.insert(address, account);
    }

    /// Fetches an account's role.
    pub fn get_role(&self, address: Address) -> (r: Result<Role, Error>)
        requires
            self.wf(),
        ensures
            r == Ok::<Role, Error>(self.account(address@).role),
    {
        Ok(self.account_of(&address).role)
    }

    /// Sets whether an account has been initialized.
    pub fn set_initstatus(&mut self, address: Address, init: bool)
        requires
            old(self).wf(),
        ensures
            final(self).wf(),
            final(self).account_set(
                *old(self),
                address@,
                Account { init, ..old(self).account(address@) },
            ),
    {
        let mut account = self.account_of(&address);
        account.init = init;
        self.accounts.insert(address, account);
    }

    /// Fetches whether an account has been initialized.
    pub fn get_initstatus(&self, address: Address) -> (r: Result<bool, Error>)
        requires
            self.wf(),
        ensures
            r == Ok::<bool, Error>(self.account(address@).init),
    {
        Ok(self.account_of(&address).init)
    }

    /// Records `role` as the one role entry of `address`, removing any entry
    /// it had; `User` is recorded as no entry.
    pub fn add_role_to_address(&mut self, address: Address, role: Role)
        requires
            old(self).wf(),
        ensures
            final(self).wf(),
            final(self).same_except_roles(*old(self)),
            forall|a2: Seq<u8>| #[trigger]
                final(self).roles.get_spec(a2) == if a2 == address@ {
                    if role == Role::User {
                        None
                    } else {
                        Some(role)
                    }
                } else {
                    old(self).roles.get_spec(a2)
                },
    {
        self.roles.remove(&address);
        if role != Role::User {
            self.roles.insert(address, role);
        }
    }

    /// The addresses that hold `role`, in address order.
    pub fn get_addresses_in_role(&self, role: Role) -> (r: Result<Vec<Address>, Error>)
        requires
            self.wf(),
        ensures
            r matches Ok(v) && v@ == self.members_of(role),
    {
        let e = &self.roles.entries;
        let mut out: Vec<Address> = Vec::new();
        let mut i: usize = 0;
        while i < e.len()
            invariant
                0 <= i <= e@.len(),
                out@ == role_members(e@.take(i as int), role),
            decreases e@.len() - i,
        {
            proof {
                assert(e@.take(i + 1).drop_last() =~= e@.take(i as int));
            }
            if e[i].1 == role {
                out.push(e[i].0);
            }
            i = i + 1;
        }
        proof {
            assert(e@.take(e@.len() as int) =~= e@);
        }
        Ok(out)
    }

    /// The number of addresses that hold `role`, modulo 65536.
    pub fn get_addrsno_in_role(&self, role: Role) -> (r: u16)
        requires
            self.wf(),
        ensures
            r == self.members_of(role).len() % 65536,
    {
        let n = match self.get_addresses_in_role(role) {
            Ok(addresses) => addresses.len(),
            Err(_) => 0,
        };
        (n % 65536) as u16
    }

    /// Numbers `address` as the next member of `role`: raises the role's
    /// counter and records it for the address; fails with `CounterOverflow`
    /// when the counter is at its maximum, changing nothing.
    pub fn add_address_to_roles(&mut self, address: Address, role: Role) -> (r: Result<(), Error>)
        requires
            old(self).wf(),
        ensures
            final(self).wf(),
            ({
                let counter = match old(self).role_sequences.get_spec(seq![crate::types::role::role_byte(role)]) {
                    Some(sq) => sq.counter as int,
                    None => 0,
                };
                &&& counter == u32::MAX ==> r == Err::<(), Error>(Error::CounterOverflow) && *final(self) == *old(self)
                &&& counter < u32::MAX ==> r is Ok && match final(self).role_sequences.get_spec(seq![crate::types::role::role_byte(role)]) {
                    Some(sq) => sq.counter == counter + 1 && sq.members.get_spec(address@) == Some((counter + 1) as u32),
                    None => false,
                }
            }),
    {
        let found = self.role_sequences.find(&role);
        match found {
            Ok(i) => {
                proof {
                    lemma_lookup_at(self.role_sequences.entries@, i as int);
                }
                if self.role_sequences.entries[i].1.counter == u32::MAX {
                    return Err(Error::CounterOverflow);
                }
                let ghost old_e = self.role_sequences.entries@;
                let sq = self.role_sequences.value_at_mut(i);
                proof {
                    assert(old_e[i as int].1.members.wf());
                }
                sq.counter = sq.counter + 1;
                let c = sq.counter;
                sq.members.insert(address, c);
                proof {
                    let e = self.role_sequences.entries@;
                    assert(sequences_wf(e)) by {
                        assert forall|j: int| 0 <= j < e.len() implies (#[trigger] e[j]).1.members.wf() by {
                            if j != i {
                                assert(e[j] == old_e[j]);
                            }
                        }
                    }
                }
                Ok(())
            },
            Err(_) => {
                let mut members: KvStore<Address, u32> = KvStore::new();
                members.insert(address, 1);
                let ghost old_e = self.role_sequences.entries@;
                let ghost old_rs = self.role_sequences;
                let i = self.role_sequences.insert(role, RoleSequence { counter: 1, members });
                proof {
                    let e = self.role_sequences.entries@;
                    assert(sequences_wf(e)) by {
                        assert forall|j: int| 0 <= j < e.len() implies (#[trigger] e[j]).1.members.wf() by {
                            if j != i {
                                let kb = e[j].0.key_bytes();
                                lemma_lookup_at(e, j);
                                assert(kb != role.key_bytes()) by {
                                    crate::keyed::lemma_bytes_lt_irreflexive(kb);
                                    if j < i {
                                        assert(crate::keyed::bytes_lt(e[j].0.key_bytes(), e[i as int].0.key_bytes()));
                                    } else {
                                        assert(crate::keyed::bytes_lt(e[i as int].0.key_bytes(), e[j].0.key_bytes()));
                                    }
                                }
                                assert(self.role_sequences.get_spec(kb) == old_rs.get_spec(kb));
                                assert(lookup(old_e, kb) == Some(e[j].1));
                                let k = crate::keyed::key_index(old_e, kb);
                                lemma_lookup_at(old_e, k);
                                assert(old_e[k].1 == e[j].1);
                            }
                        }
                    }
                }
                Ok(())
            },
        }
    }

    /// The last proposal id given.
    pub fn get_proposal_id(&self) -> (r: Result<u32, Error>)
        ensures
            r == Ok::<u32, Error>(self.proposal_id()),
    {
        match self.proposal_counter {
            Some(c) => Ok(c),
            None => Ok(0),
        }
    }

    /// Gives the next proposal id (ids start at 1); fails with
    /// `CounterOverflow` when the counter is at its maximum, changing nothing.
    pub fn get_and_increment_proposal_id(&mut self) -> (r: Result<u32, Error>)
        ensures
            old(self).proposal_id() == u32::MAX ==> r == Err::<u32, Error>(Error::CounterOverflow)
                && *final(self) == *old(self),
            old(self).proposal_id() < u32::MAX ==> r == Ok::<u32, Error>(
                (old(self).proposal_id() + 1) as u32,
            ) && final(self).proposal_counter == Some((old(self).proposal_id() + 1) as u32)
                && final(self).same_except_proposals(*old(self)) && final(self).proposals == old(self).proposals,
    {
        let counter = match self.proposal_counter {
            Some(c) => c,
            None => 0,
        };
        if counter == u32::MAX {
            return Err(Error::CounterOverflow);
        }
        self.proposal_counter = Some(counter + 1);
        Ok(counter + 1)
    }

    /// The proposal stored under `id`, or the default proposal (see
    /// `is_default_proposal`) where there is none.
    pub fn get_proposal(&self, id: u32) -> (r: Result<Proposal, Error>)
        requires
            self.wf(),
        ensures
            match self.proposals.get_spec(id.key_bytes()) {
                Some(p) => r matches Ok(q) && same_proposal(q, p),
                None => r matches Ok(q) && is_default_proposal(q),
            },
    {
        match self.proposals.find(&id) {
            Ok(i) => {
                proof {
                    lemma_lookup_at(self.proposals.entries@, i as int);
                }
                Ok(self.proposals.entries[i].1.duplicate())
            },
            Err(_) => Ok(Proposal::default()),
        }
    }

    /// Stores a proposal under its id.
    pub fn insert_proposal(&mut self, proposal: Proposal) -> (r: Result<(), Error>)
        requires
            old(self).wf(),
            proposal.voteOption matches Some(m) ==> m.wf(),
        ensures
            r is Ok,
            final(self).wf(),
            final(self).same_except_proposals(*old(self)),
            final(self).proposal_counter == old(self).proposal_counter,
            forall|kb: Seq<u8>| #[trigger]
                final(self).proposals.get_spec(kb) == if kb == proposal.id.key_bytes() {
                    Some(proposal)
                } else {
                    old(self).proposals.get_spec(kb)
                },
    {
        let ghost p = proposal;
        let ghost old_e = self.proposals.entries@;
        let ghost old_ps = self.proposals;
        let id = proposal.id;
        let i = self.proposals.insert(id, proposal);
        proof {
            let e = self.proposals.entries@;
            assert forall|j: int| 0 <= j < e.len() implies ((#[trigger] e[j]).1.voteOption matches Some(m) ==> m.wf()) && e[j].0 == e[j].1.id by {
                if j != i {
                    let kb = e[j].0.key_bytes();
                    lemma_lookup_at(e, j);
                    assert(kb != id.key_bytes()) by {
                        crate::keyed::lemma_bytes_lt_irreflexive(kb);
                        if j < i {
                            assert(crate::keyed::bytes_lt(e[j].0.key_bytes(), e[i as int].0.key_bytes()));
                        } else {
                            assert(crate::keyed::bytes_lt(e[i as int].0.key_bytes(), e[j].0.key_bytes()));
                        }
                    }
                    assert(self.proposals.get_spec(kb) == old_ps.get_spec(kb));
                    let k = crate::keyed::key_index(old_e, kb);
                    lemma_lookup_at(old_e, k);
                    assert(old_e[k].1 == e[j].1);
                }
            }
        }
        Ok(())
    }

    /// The quorum of `action`; fails with `NotFound` for `NoAction`.
    pub fn get_quorum(&self, action: Action) -> (r: Result<u8, Error>)
        ensures
            match self.quorum_of(action) {
                Some(q) => r == Ok::<u8, Error>(q),
                None => r == Err::<u8, Error>(Error::NotFound),
            },
    {
        let q = match action {
            Action::Mint => self.mint_quorum,
            Action::Burn => self.burn_quorum,
            Action::Whitelist => self.whitelist_quorum,
            Action::Blacklist => self.blacklist_quorum,
            Action::Config => self.config_quorum,
            Action::SetRoles => self.config_quorum,
            Action::NoAction => {
                return Err(Error::NotFound);
            },
        };
        match q {
            Some(v) => Ok(v),
            None => Ok(100),
        }
    }

    /// Sets the quorum of `action`; fails with `NotFound` for `SetRoles` and
    /// `NoAction`, changing nothing.
    pub fn set_quorum(&mut self, action: Action, quorum: u8) -> (r: Result<(), Error>)
        ensures
            final(self).same_except_quorums(*old(self)),
            (action == Action::SetRoles || action == Action::NoAction) ==> r == Err::<(), Error>(
                Error::NotFound,
            ) && *final(self) == *old(self),
            !(action == Action::SetRoles || action == Action::NoAction) ==> r is Ok,
            final(self).mint_quorum == if action == Action::Mint {
                Some(quorum)
            } else {
                old(self).mint_quorum
            },
            final(self).burn_quorum == if action == Action::Burn {
                Some(quorum)
            } else {
                old(self).burn_quorum
            },
            final(self).whitelist_quorum == if action == Action::Whitelist {
                Some(quorum)
            } else {
                old(self).whitelist_quorum
            },
            final(self).blacklist_quorum == if action == Action::Blacklist {
                Some(quorum)
            } else {
                old(self).blacklist_quorum
            },
            final(self).config_quorum == if action == Action::Config {
                Some(quorum)
            } else {
                old(self).config_quorum
            },
    {
        match action {
            Action::Mint => self.mint_quorum = Some(quorum),
            Action::Burn => self.burn_quorum = Some(quorum),
            Action::Whitelist => self.whitelist_quorum = Some(quorum),
            Action::Blacklist => self.blacklist_quorum = Some(quorum),
            Action::Config => self.config_quorum = Some(quorum),
            _ => {
                return Err(Error::NotFound);
            },
        }
        Ok(())
    }

    /// Sets an account's balance entry of the amount's denomination.
    pub fn set_balance(&mut self, address: Address, amount: &BaseUnits)
        requires
            old(self).wf(),
        ensures
            final(self).wf(),
            final(self).balance_set(*old(self), address@, amount.denomination@, amount.amount),
    {
        self.put_balance(address, amount.denomination(), amount.amount());
    }

    /// Fetches an account's balance of the given denomination.
    pub fn get_balance(&self, address: Address, denomination: &Denomination) -> (r: Result<u128, Error>)
        requires
            self.wf(),
        ensures
            r == Ok::<u128, Error>(self.balance(address@, denomination@) as u128),
    {
        Ok(self.balance_of(&address, denomination))
    }

    /// Fetches an account's balances, in denomination order.
    pub fn get_balances(&self, address: Address) -> (r: Result<AccountBalances, Error>)
        requires
            self.wf(),
        ensures
            r matches Ok(b) && den_entries(b.balances@) == match self.balances.get_spec(address@) {
                Some(inner) => den_entries(inner.entries@),
                None => Seq::empty(),
            },
    {
        match self.balances.get(&address) {
            Some(inner) => Ok(AccountBalances { balances: copy_den_entries(&inner.entries) }),
            None => {
                let v: Vec<(Denomination, u128)> = Vec::new();
                assert(den_entries(v@) =~= Seq::empty());
                Ok(AccountBalances { balances: v })
            },
        }
    }

    /// The addresses that have a balance entry of `denomination`, in address
    /// order.
    pub fn get_addresses(&self, denomination: &Denomination) -> (r: Result<Vec<Address>, Error>)
        requires
            self.wf(),
        ensures
            r matches Ok(v) && v@ == holders_of(self.balances.entries@, denomination@),
    {
        let e = &self.balances.entries;
        let mut out: Vec<Address> = Vec::new();
        let mut i: usize = 0;
        while i < e.len()
            invariant
                inner_wf(e@),
                0 <= i <= e@.len(),
                out@ == holders_of(e@.take(i as int), denomination@),
            decreases e@.len() - i,
        {
            proof {
                assert(e@.take(i + 1).drop_last() =~= e@.take(i as int));
                assert(e@[i as int].1.wf());
            }
            if e[i].1.get(denomination).is_some() {
                out.push(e[i].0);
            }
            i = i + 1;
        }
        proof {
            assert(e@.take(e@.len() as int) =~= e@);
        }
        Ok(out)
    }

    /// The total supplies, in denomination order.
    pub fn get_total_supplies(&self) -> (r: Result<Vec<(Denomination, u128)>, Error>)
        requires
            self.wf(),
        ensures
            r matches Ok(v) && den_entries(v@) == den_entries(self.total_supplies.entries@),
    {
        Ok(copy_den_entries(&self.total_supplies.entries))
    }

    /// Sets the total supply entry of the amount's denomination.
    pub fn set_total_supply(&mut self, amount: &BaseUnits)
        requires
            old(self).wf(),
        ensures
            final(self).wf(),
            final(self).total_set(*old(self), amount.denomination@, amount.amount),
    {
        self.put_total(amount.denomination(), amount.amount());
    }

    /// Information about a denomination from the parameters; fails with
    /// `NotFound` where they have none.
    pub fn get_denomination_info(&self, denomination: &Denomination) -> (r: Result<DenominationInfo, Error>)
        requires
            self.wf(),
        ensures
            match self.params.denomination_infos.get_spec(denomination@) {
                Some(info) => r == Ok::<DenominationInfo, Error>(info),
                None => r == Err::<DenominationInfo, Error>(Error::NotFound),
            },
    {
        match self.params.denomination_infos.get(denomination) {
            Some(info) => Ok(*info),
            None => Err(Error::NotFound),
        }
    }

    /// The number of voters of `action` (the members of its voter role,
    /// modulo 65536); fails with `NotFound` for `NoAction`.
    pub fn get_voters_num_with_action(&self, action: Action) -> (r: Result<u16, Error>)
        requires
            self.wf(),
        ensures
            match super::handlers::voter_role(action) {
                Some(v) => r == Ok::<u16, Error>((self.members_of(v).len() % 65536) as u16),
                None => r == Err::<u16, Error>(Error::NotFound),
            },
    {
        let voters = match action {
            Action::Mint => self.get_addrsno_in_role(Role::MintVoter),
            Action::Burn => self.get_addrsno_in_role(Role::BurnVoter),
            Action::Whitelist => self.get_addrsno_in_role(Role::WhitelistVoter),
            Action::Blacklist => self.get_addrsno_in_role(Role::BlacklistVoter),
            Action::Config => self.get_addrsno_in_role(Role::Admin),
            Action::SetRoles => self.get_addrsno_in_role(Role::Admin),
            Action::NoAction => {
                return Err(Error::NotFound);
            },
        };
        Ok(voters)
    }
}

} // verus!
