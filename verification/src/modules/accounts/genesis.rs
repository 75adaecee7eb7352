//! Initialization of the accounts module from its genesis state.
use vstd::prelude::*;

use super::invariants::lemma_sum_not_held;
use super::state::{inner_wf, AccountsState};
use super::{sum_balances, AccountsContext, Genesis, Module};
use crate::context::key_of;
use crate::keyed::{lemma_lookup_take_next, lookup, Key, KvStore};
use crate::types::address::Address;
use crate::types::token::{BaseUnits, Denomination};

verus! {

/// A genesis entry where there is one, or what was there before.
pub open spec fn merged<T>(before: Option<T>, given: Option<T>) -> Option<T> {
    match given {
        Some(v) => Some(v),
        None => before,
    }
}

/// The balance of `d` at `a` in genesis balance entries `gb`, if any.
pub open spec fn genesis_balance(
    gb: Seq<(Address, KvStore<Denomination, u128>)>,
    a: Seq<u8>,
    d: Seq<u8>,
) -> Option<u128> {
    match lookup(gb, a) {
        Some(inner) => inner.get_spec(d),
        None => None,
    }
}

/// Whether some genesis account holds `d`.
pub open spec fn genesis_held(g: Genesis, d: Seq<u8>) -> bool {
    exists|i: int|
        0 <= i < g.balances.entries@.len() && (#[trigger] g.balances.entries@[i]).1.get_spec(d) is Some
}

/// A genesis state that initialization accepts: well-formed stores, no
/// debug option, balances whose sums fit, and a total supply entry for
/// exactly the denominations that accounts hold, each the sum of their
/// balances.
pub open spec fn genesis_valid(g: Genesis) -> bool {
    &&& g.parameters.denomination_infos.wf()
    &&& g.accounts.wf()
    &&& g.balances.wf()
    &&& inner_wf(g.balances.entries@)
    &&& g.total_supplies.wf()
    &&& !g.parameters.debug_disable_nonce_check
    &&& forall|d: Seq<u8>| #[trigger] sum_balances(g.balances.entries@, d) <= u128::MAX
    &&& forall|d: Seq<u8>| #[trigger] g.total_supplies.get_spec(d) is Some <==> genesis_held(g, d)
    &&& forall|d: Seq<u8>| #[trigger]
        g.total_supplies.get_spec(d) matches Some(t) ==> t == sum_balances(g.balances.entries@, d)
}

/// How much the sums of the balances of `d` change when the genesis balance
/// entries `gb` replace those of `st`.
pub open spec fn genesis_delta(st: AccountsState, gb: Seq<(Address, KvStore<Denomination, u128>)>, d: Seq<u8>) -> int
    decreases gb.len(),
{
    if gb.len() == 0 {
        0
    } else {
        genesis_delta(st, gb.drop_last(), d) + match gb.last().1.get_spec(d) {
            Some(v) => v - st.balance(gb.last().0@, d),
            None => 0,
        }
    }
}

/// Over a state without balances, the change is the sum of the genesis
/// balances.
proof fn lemma_genesis_delta_empty(st: AccountsState, gb: Seq<(Address, KvStore<Denomination, u128>)>, d: Seq<u8>)
    requires
        forall|a: Seq<u8>| #[trigger] st.balances.get_spec(a) is None,
    ensures
        genesis_delta(st, gb, d) == sum_balances(gb, d),
    decreases gb.len(),
{
    if gb.len() > 0 {
        lemma_genesis_delta_empty(st, gb.drop_last(), d);
        assert(st.balances.get_spec(gb.last().0@) is None);
    }
}

/// The state after initializing from `genesis`: its accounts, balances and
/// total supplies stored over what was there, its parameters set, the rest
/// of the state and the context unchanged.
pub open spec fn initialized(new: AccountsContext, old: AccountsContext, genesis: Genesis) -> bool {
    &&& new.state.params == genesis.parameters
    &&& new.state.roles == old.state.roles
    &&& new.state.role_sequences == old.state.role_sequences
    &&& new.state.proposal_counter == old.state.proposal_counter
    &&& new.state.proposals == old.state.proposals
    &&& new.state.mint_quorum == old.state.mint_quorum
    &&& new.state.burn_quorum == old.state.burn_quorum
    &&& new.state.whitelist_quorum == old.state.whitelist_quorum
    &&& new.state.blacklist_quorum == old.state.blacklist_quorum
    &&& new.state.config_quorum == old.state.config_quorum
    &&& forall|a: Seq<u8>| #[trigger]
            new.state.accounts.get_spec(a) == merged(
                old.state.accounts.get_spec(a),
                genesis.accounts.get_spec(a),
            )
    &&& forall|a: Seq<u8>, d: Seq<u8>| #[trigger]
            new.state.balance_entry(a, d) == merged(
                old.state.balance_entry(a, d),
                genesis_balance(genesis.balances.entries@, a, d),
            )
    &&& forall|d: Seq<u8>| #[trigger]
            new.state.total_supplies.get_spec(d) == merged(
                old.state.total_supplies.get_spec(d),
                genesis.total_supplies.get_spec(d),
            )
    &&& forall|d: Seq<u8>| #[trigger]
            new.state.sum_of_balances(d) == old.state.sum_of_balances(d) + genesis_delta(
                old.state,
                genesis.balances.entries@,
                d,
            )
    &&& old.state.balances.entries@.len() == 0 && old.state.total_supplies.entries@.len()
            == 0 ==> new.state.supply_conserved()
    &&& new.mode == old.mode && new.round == old.round
    &&& new.events == old.events && new.values == old.values
    &&& new.priority == old.priority && new.sender_meta == old.sender_meta
    &&& new.caller == old.caller && new.gas == old.gas
}

impl Module {
    /// Initializes the state from genesis: stores its accounts, balances and
    /// total supplies over what was there, and sets its parameters.
    ///
    /// Initializing a state without balances or total supplies gives a
    /// state whose every total supply is the sum of its balances.
    pub fn init(ctx: &mut AccountsContext, genesis: Genesis)
        requires
            old(ctx).wf(),
            genesis_valid(genesis),
        ensures
            final(ctx).wf(),
            initialized(*final(ctx), *old(ctx), genesis),
    {
        let ghost st = ctx.state;
        let ghost g = genesis;
        let Genesis { parameters, accounts, balances, total_supplies, roles_accounts: _ } = genesis;
        // Accounts.
        let ga = &accounts.entries;
        let mut i: usize = 0;
        while i < ga.len()
            invariant
                0 <= i <= ga@.len(),
                ga@ == g.accounts.entries@,
                g.accounts.wf(),
                ctx.wf(),
                ctx.state.params == st.params && ctx.state.balances == st.balances,
                ctx.state.total_supplies == st.total_supplies && ctx.state.roles == st.roles,
                ctx.state.role_sequences == st.role_sequences,
                ctx.state.proposal_counter == st.proposal_counter && ctx.state.proposals == st.proposals,
                ctx.state.mint_quorum == st.mint_quorum && ctx.state.burn_quorum == st.burn_quorum,
                ctx.state.whitelist_quorum == st.whitelist_quorum,
                ctx.state.blacklist_quorum == st.blacklist_quorum,
                ctx.state.config_quorum == st.config_quorum,
                ctx.mode == old(ctx).mode && ctx.round == old(ctx).round,
                ctx.events == old(ctx).events && ctx.values == old(ctx).values,
                ctx.priority == old(ctx).priority && ctx.sender_meta == old(ctx).sender_meta,
                ctx.caller == old(ctx).caller && ctx.gas == old(ctx).gas,
                st == old(ctx).state,
                forall|a: Seq<u8>| #[trigger]
                    ctx.state.accounts.get_spec(a) == merged(st.accounts.get_spec(a), lookup(ga@.take(i as int), a)),
            decreases ga@.len() - i,
        {
            proof {
                assert forall|a: Seq<u8>| #[trigger] lookup(ga@.take(i + 1), a) == if a == ga@[i as int].0@ {
                    Some(ga@[i as int].1)
                } else {
                    lookup(ga@.take(i as int), a)
                } by {
                    lemma_lookup_take_next(ga@, i as int, a);
                }
            }
            ctx.state.accounts.insert(ga[i].0, ga[i].1);
            i = i + 1;
        }
        proof {
            assert(ga@.take(ga@.len() as int) =~= ga@);
        }
        // Balances.
        let gb = &balances.entries;
        let ghost mid = ctx.state;
        let mut i: usize = 0;
        while i < gb.len()
            invariant
                0 <= i <= gb@.len(),
                gb@ == g.balances.entries@,
                g.balances.wf(),
                inner_wf(gb@),
                ctx.wf(),
                ctx.state.params == st.params,
                ctx.state.total_supplies == st.total_supplies && ctx.state.roles == st.roles,
                ctx.state.role_sequences == st.role_sequences,
                ctx.state.proposal_counter == st.proposal_counter && ctx.state.proposals == st.proposals,
                ctx.state.mint_quorum == st.mint_quorum && ctx.state.burn_quorum == st.burn_quorum,
                ctx.state.whitelist_quorum == st.whitelist_quorum,
                ctx.state.blacklist_quorum == st.blacklist_quorum,
                ctx.state.config_quorum == st.config_quorum,
                ctx.state.accounts == mid.accounts,
                mid.balances == st.balances,
                ctx.mode == old(ctx).mode && ctx.round == old(ctx).round,
                ctx.events == old(ctx).events && ctx.values == old(ctx).values,
                ctx.priority == old(ctx).priority && ctx.sender_meta == old(ctx).sender_meta,
                ctx.caller == old(ctx).caller && ctx.gas == old(ctx).gas,
                st == old(ctx).state,
                forall|a: Seq<u8>, d: Seq<u8>| #[trigger]
                    ctx.state.balance_entry(a, d) == merged(
                        st.balance_entry(a, d),
                        genesis_balance(gb@.take(i as int), a, d),
                    ),
                forall|d: Seq<u8>| #[trigger]
                    ctx.state.sum_of_balances(d) == st.sum_of_balances(d) + genesis_delta(
                        st,
                        gb@.take(i as int),
                        d,
                    ),
            decreases gb@.len() - i,
        {
            let addr = gb[i].0;
            let inner = &gb[i].1;
            proof {
                assert(inner.wf());
                assert forall|a: Seq<u8>| #[trigger] lookup(gb@.take(i + 1), a) == if a == addr@ {
                    Some(*inner)
                } else {
                    lookup(gb@.take(i as int), a)
                } by {
                    lemma_lookup_take_next(gb@, i as int, a);
                }
                // `addr` has no entry among the first `i`.
                assert(lookup(gb@.take(i as int), addr@) is None) by {
                    crate::keyed::lemma_sorted_take(gb@, i as int);
                    let t = gb@.take(i as int);
                    if crate::keyed::has_key(t, addr@) {
                        let j = crate::keyed::key_index(t, addr@);
                        assert(t[j] == gb@[j]);
                        assert(crate::keyed::bytes_lt(gb@[j].0.key_bytes(), gb@[i as int].0.key_bytes()));
                        crate::keyed::lemma_bytes_lt_irreflexive(addr@);
                    }
                }
                assert(gb@.take(i + 1).drop_last() =~= gb@.take(i as int));
                assert(gb@.take(i + 1).last() == gb@[i as int]);
            }
            let ie = &inner.entries;
            let mut k: usize = 0;
            while k < ie.len()
                invariant
                    0 <= k <= ie@.len(),
                    0 <= i < gb@.len(),
                    gb@ == g.balances.entries@,
                    *inner == gb@[i as int].1,
                    addr == gb@[i as int].0,
                    ie@ == inner.entries@,
                    inner.wf(),
                    ctx.wf(),
                    ctx.state.params == st.params,
                    ctx.state.total_supplies == st.total_supplies && ctx.state.roles == st.roles,
                    ctx.state.role_sequences == st.role_sequences,
                    ctx.state.proposal_counter == st.proposal_counter && ctx.state.proposals == st.proposals,
                    ctx.state.mint_quorum == st.mint_quorum && ctx.state.burn_quorum == st.burn_quorum,
                    ctx.state.whitelist_quorum == st.whitelist_quorum,
                    ctx.state.blacklist_quorum == st.blacklist_quorum,
                    ctx.state.config_quorum == st.config_quorum,
                    ctx.state.accounts == mid.accounts,
                    ctx.mode == old(ctx).mode && ctx.round == old(ctx).round,
                    ctx.events == old(ctx).events && ctx.values == old(ctx).values,
                    ctx.priority == old(ctx).priority && ctx.sender_meta == old(ctx).sender_meta,
                    ctx.caller == old(ctx).caller && ctx.gas == old(ctx).gas,
                    st == old(ctx).state,
                    lookup(gb@.take(i as int), addr@) is None,
                    forall|a: Seq<u8>, d: Seq<u8>| #[trigger]
                        ctx.state.balance_entry(a, d) == merged(
                            st.balance_entry(a, d),
                            if a == addr@ {
                                lookup(ie@.take(k as int), d)
                            } else {
                                genesis_balance(gb@.take(i as int), a, d)
                            },
                        ),
                    forall|d: Seq<u8>| #[trigger]
                        ctx.state.sum_of_balances(d) == st.sum_of_balances(d) + genesis_delta(
                            st,
                            gb@.take(i as int),
                            d,
                        ) + match lookup(ie@.take(k as int), d) {
                            Some(v) => v - st.balance(addr@, d),
                            None => 0,
                        },
                decreases ie@.len() - k,
            {
                let den = ie[k].0.duplicate();
                let v = ie[k].1;
                proof {
                    assert forall|d: Seq<u8>| #[trigger] lookup(ie@.take(k + 1), d) == if d == ie@[k as int].0@ {
                        Some(ie@[k as int].1)
                    } else {
                        lookup(ie@.take(k as int), d)
                    } by {
                        lemma_lookup_take_next(ie@, k as int, d);
                    }
                    assert(lookup(ie@.take(k as int), den@) is None) by {
                        crate::keyed::lemma_sorted_take(ie@, k as int);
                        let t = ie@.take(k as int);
                        if crate::keyed::has_key(t, den@) {
                            let j = crate::keyed::key_index(t, den@);
                            assert(t[j] == ie@[j]);
                            assert(crate::keyed::bytes_lt(ie@[j].0.key_bytes(), ie@[k as int].0.key_bytes()));
                            crate::keyed::lemma_bytes_lt_irreflexive(den@);
                        }
                    }
                    assert(ctx.state.balance_entry(addr@, den@) == st.balance_entry(addr@, den@));
                }
                ctx.state.set_balance(addr, &BaseUnits::new(v, den));
                k = k + 1;
            }
            proof {
                assert(ie@.take(ie@.len() as int) =~= ie@);
            }
            i = i + 1;
        }
        proof {
            assert(gb@.take(gb@.len() as int) =~= gb@);
        }
        // Total supplies.
        let gt = &total_supplies.entries;
        let ghost mid2 = ctx.state;
        let mut i: usize = 0;
        while i < gt.len()
            invariant
                0 <= i <= gt@.len(),
                gt@ == g.total_supplies.entries@,
                g.total_supplies.wf(),
                ctx.wf(),
                ctx.state.params == st.params && ctx.state.balances == mid2.balances,
                ctx.state.roles == st.roles,
                ctx.state.role_sequences == st.role_sequences,
                ctx.state.proposal_counter == st.proposal_counter && ctx.state.proposals == st.proposals,
                ctx.state.mint_quorum == st.mint_quorum && ctx.state.burn_quorum == st.burn_quorum,
                ctx.state.whitelist_quorum == st.whitelist_quorum,
                ctx.state.blacklist_quorum == st.blacklist_quorum,
                ctx.state.config_quorum == st.config_quorum,
                ctx.state.accounts == mid2.accounts,
                mid2.total_supplies == st.total_supplies,
                ctx.mode == old(ctx).mode && ctx.round == old(ctx).round,
                ctx.events == old(ctx).events && ctx.values == old(ctx).values,
                ctx.priority == old(ctx).priority && ctx.sender_meta == old(ctx).sender_meta,
                ctx.caller == old(ctx).caller && ctx.gas == old(ctx).gas,
                forall|d: Seq<u8>| #[trigger]
                    ctx.state.total_supplies.get_spec(d) == merged(st.total_supplies.get_spec(d), lookup(gt@.take(i as int), d)),
            decreases gt@.len() - i,
        {
            proof {
                assert forall|d: Seq<u8>| #[trigger] lookup(gt@.take(i + 1), d) == if d == gt@[i as int].0@ {
                    Some(gt@[i as int].1)
                } else {
                    lookup(gt@.take(i as int), d)
                } by {
                    lemma_lookup_take_next(gt@, i as int, d);
                }
            }
            let den = gt[i].0.duplicate();
            ctx.state.total_supplies.insert(den, gt[i].1);
            i = i + 1;
        }
        proof {
            assert(gt@.take(gt@.len() as int) =~= gt@);
        }
        ctx.state.params = parameters;
        proof {
            assert forall|a: Seq<u8>, d: Seq<u8>| #[trigger] ctx.state.balance_entry(a, d) == merged(
                st.balance_entry(a, d),
                genesis_balance(g.balances.entries@, a, d),
            ) by {
                assert(mid2.balance_entry(a, d) == merged(st.balance_entry(a, d), genesis_balance(g.balances.entries@, a, d)));
            }
            assert forall|d: Seq<u8>| #[trigger] ctx.state.sum_of_balances(d) == st.sum_of_balances(d) + genesis_delta(
                st,
                g.balances.entries@,
                d,
            ) by {
                assert(mid2.sum_of_balances(d) == st.sum_of_balances(d) + genesis_delta(st, g.balances.entries@, d));
            }
            if st.balances.entries@.len() == 0 && st.total_supplies.entries@.len() == 0 {
                assert forall|a: Seq<u8>| #[trigger] st.balances.get_spec(a) is None by {}
                assert forall|d: Seq<u8>| #[trigger] ctx.state.total_supply(d) == ctx.state.sum_of_balances(d) by {
                    assert(st.sum_of_balances(d) == 0);
                    lemma_genesis_delta_empty(st, g.balances.entries@, d);
                    assert(st.total_supplies.get_spec(d) is None);
                    if g.total_supplies.get_spec(d) is None {
                        assert(!genesis_held(g, d));
                        assert forall|j: int| 0 <= j < g.balances.entries@.len() implies (#[trigger] g.balances.entries@[j]).1.get_spec(d) is None by {
                            if g.balances.entries@[j].1.get_spec(d) is Some {
                                assert(genesis_held(g, d));
                            }
                        }
                        lemma_sum_not_held(g.balances.entries@, d);
                    }
                }
            }
        }
    }
}


/// The name under which the module records the version of its state.
pub const MODULE_NAME: &'static str = "accounts";

/// The version of the module's state.
pub const VERSION: u32 = 1;

/// The version of the module's state that `versions` records (zero where
/// none is).
pub open spec fn recorded_version(versions: KvStore<String, u32>) -> u32 {
    match versions.get_spec(key_of(MODULE_NAME@)) {
        Some(v) => v,
        None => 0,
    }
}

impl Module {
    /// Migrates the state from an earlier version: no migration is supported,
    /// so nothing changes and it reports so.
    pub fn migrate(ctx: &mut AccountsContext, _from: u32) -> (r: bool)
        ensures
            !r,
            *final(ctx) == *old(ctx),
    {
        false
    }

    /// Initializes the state from genesis where no version of it is
    /// recorded (see `initialized`), recording the current version, and
    /// reports that it did; otherwise migrates (see `migrate`).
    pub fn init_or_migrate(ctx: &mut AccountsContext, versions: &mut KvStore<String, u32>, genesis: Genesis) -> (r:
        bool)
        requires
            old(ctx).wf(),
            old(versions).wf(),
            recorded_version(*old(versions)) == 0 ==> genesis_valid(genesis),
        ensures
            final(ctx).wf(),
            final(versions).wf(),
            recorded_version(*old(versions)) == 0 ==> r && initialized(*final(ctx), *old(ctx), genesis)
                && forall|k: Seq<u8>| #[trigger]
                final(versions).get_spec(k) == if k == key_of(MODULE_NAME@) {
                    Some(VERSION)
                } else {
                    old(versions).get_spec(k)
                },
            recorded_version(*old(versions)) != 0 ==> !r && *final(ctx) == *old(ctx) && *final(versions)
                == *old(versions),
    {
        let name = String::from_str(MODULE_NAME);
        let version: u32 = match versions.get(&name) {
            Some(v) => *v,
            None => 0,
        };
        if version == 0 {
            Self::init(ctx, genesis);
            versions.upsert(name, VERSION);
            return true;
        }
        Self::migrate(ctx, version)
    }
}

} // verus!
