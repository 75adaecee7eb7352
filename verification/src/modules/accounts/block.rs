//! End of block in the accounts module: the fees of the previous block go to
//! the common pool and the good compute nodes, and the fees of this block
//! go to the fee accumulator.
use vstd::prelude::*;

use super::auth::{block_fee, block_fee_entry, fee_key};
use super::invariants::{den_held, lemma_den_held_entry, supplies_match};
use super::state::AccountsState;
use super::{AccountsContext, FeeAccumulator, Module, CONTEXT_KEY_FEE_ACCUMULATOR};
use crate::context::ContextValue;
use crate::keyed::{has_key, key_index, lemma_lookup_at, lookup, sorted_entries, Key, KvStore};
use crate::types::address::Address;
use crate::types::token::{BaseUnits, Denomination};

verus! {

/// The bytes of the native denomination.
pub open spec fn native() -> Seq<u8> {
    Seq::empty()
}

/// The number of times `a` occurs in `s`.
pub open spec fn count_addr(s: Seq<Address>, a: Seq<u8>) -> int
    decreases s.len(),
{
    if s.len() == 0 {
        0
    } else {
        count_addr(s.drop_last(), a) + if s.last()@ == a {
            1int
        } else {
            0int
        }
    }
}

/// What each of `n` good nodes gets out of the previous block's fees
/// `prev`: an equal part of what is left after a tenth (rounded down) is
/// taxed, rounded down; nothing where there are no good nodes.
pub open spec fn fee_each(prev: int, n: int) -> int {
    if n > 0 {
        (prev - prev / 10) / n
    } else {
        0
    }
}

/// What the common pool gets out of the previous block's fees `prev`,
/// where there are `n` good nodes: all that the nodes do not get, that is
/// the tax and what the rounding of the nodes' parts leaves (all of it
/// where there are no good nodes).
pub open spec fn pool_share(prev: int, n: int) -> int {
    prev - n * fee_each(prev, n)
}

/// The common pool gets at least the tax, and no more than the fees.
proof fn lemma_pool_share(prev: int, n: int)
    requires
        prev >= 0,
        n >= 0,
    ensures
        0 <= n * fee_each(prev, n) <= prev - (if n > 0 { prev / 10 } else { 0 }),
        0 <= fee_each(prev, n),
        0 <= pool_share(prev, n) <= prev,
{
    if n > 0 {
        let r = prev - prev / 10;
        assert(0 <= r);
        let q = r / n;
        assert(n * q <= r && q >= 0) by (nonlinear_arith)
            requires
                n > 0,
                r >= 0,
                q == r / n,
        ;
    }
}

/// What end of block adds to the native balance of `a` out of the previous
/// block's fees `prev`.
pub open spec fn disbursed(prev: int, pool: Address, nodes: Seq<Address>, a: Seq<u8>) -> int {
    (if a == pool@ {
        pool_share(prev, nodes.len() as int)
    } else {
        0
    }) + count_addr(nodes, a) * fee_each(prev, nodes.len() as int)
}

/// Whether end of block writes the balance entry of `d` at `a`.
pub open spec fn end_block_touches(
    values: KvStore<String, FeeAccumulator>,
    fee_acc: Address,
    pool: Address,
    nodes: Seq<Address>,
    a: Seq<u8>,
    d: Seq<u8>,
) -> bool {
    ||| d == native() && (a == fee_acc@ || a == pool@ || count_addr(nodes, a) > 0)
    ||| a == fee_acc@ && block_fee_entry(values, d) is Some
}

/// The balance of `d` at `a` after end of block: the fee accumulator's
/// native balance is drained first, the previous fees are disbursed, and
/// the accumulator gets this block's fees.
pub open spec fn end_block_balance(
    st: AccountsState,
    values: KvStore<String, FeeAccumulator>,
    fee_acc: Address,
    pool: Address,
    nodes: Seq<Address>,
    a: Seq<u8>,
    d: Seq<u8>,
) -> int {
    let prev = st.balance(fee_acc@, native());
    (if a == fee_acc@ && d == native() {
        0
    } else {
        st.balance(a, d)
    }) + (if d == native() {
        disbursed(prev, pool, nodes, a)
    } else {
        0
    }) + (if a == fee_acc@ {
        block_fee(values, d)
    } else {
        0
    })
}

/// The sum of the values of the entries of `d` in `e`.
pub open spec fn entries_sum(e: Seq<(Denomination, u128)>, d: Seq<u8>) -> int
    decreases e.len(),
{
    if e.len() == 0 {
        0
    } else {
        entries_sum(e.drop_last(), d) + if e.last().0@ == d {
            e.last().1 as int
        } else {
            0int
        }
    }
}

/// Whether some entry of `e` is of `d`.
pub open spec fn entries_have(e: Seq<(Denomination, u128)>, d: Seq<u8>) -> bool {
    exists|j: int| 0 <= j < e.len() && (#[trigger] e[j]).0@ == d
}

proof fn lemma_count_addr_nonneg(s: Seq<Address>, a: Seq<u8>)
    ensures
        0 <= count_addr(s, a) <= s.len(),
    decreases s.len(),
{
    if s.len() > 0 {
        lemma_count_addr_nonneg(s.drop_last(), a);
    }
}

/// Counting in a prefix counts at most as often.
proof fn lemma_count_addr_prefix(s: Seq<Address>, i: int, a: Seq<u8>)
    requires
        0 <= i <= s.len(),
    ensures
        count_addr(s.take(i), a) <= count_addr(s, a),
    decreases s.len() - i,
{
    if i < s.len() {
        lemma_count_addr_prefix(s, i + 1, a);
        assert(s.take(i + 1).drop_last() =~= s.take(i));
    } else {
        assert(s.take(i) =~= s);
    }
}

/// Summing a prefix of the entries sums at most as much.
proof fn lemma_entries_sum_prefix(e: Seq<(Denomination, u128)>, k: int, d: Seq<u8>)
    requires
        0 <= k <= e.len(),
    ensures
        0 <= entries_sum(e.take(k), d) <= entries_sum(e, d),
    decreases e.len() - k,
{
    lemma_entries_sum_nonneg(e.take(k), d);
    if k < e.len() {
        lemma_entries_sum_prefix(e, k + 1, d);
        assert(e.take(k + 1).drop_last() =~= e.take(k));
    } else {
        assert(e.take(k) =~= e);
    }
}

proof fn lemma_entries_sum_nonneg(e: Seq<(Denomination, u128)>, d: Seq<u8>)
    ensures
        entries_sum(e, d) >= 0,
    decreases e.len(),
{
    if e.len() > 0 {
        lemma_entries_sum_nonneg(e.drop_last(), d);
    }
}

/// In sorted entries, the entries of `d` sum up to the value that `lookup`
/// finds, and some entry is of `d` where `lookup` finds one.
proof fn lemma_entries_sum_lookup(e: Seq<(Denomination, u128)>, d: Seq<u8>)
    requires
        sorted_entries(e),
    ensures
        entries_sum(e, d) == match lookup(e, d) {
            Some(v) => v as int,
            None => 0,
        },
        entries_have(e, d) <==> lookup(e, d) is Some,
    decreases e.len(),
{
    if e.len() > 0 {
        let p = e.drop_last();
        assert(sorted_entries(p)) by {
            assert forall|i: int, j: int| 0 <= i < j < p.len() implies #[trigger] crate::keyed::bytes_lt(
                p[i].0.key_bytes(),
                p[j].0.key_bytes(),
            ) by {
                assert(p[i] == e[i] && p[j] == e[j]);
            }
        }
        lemma_entries_sum_lookup(p, d);
        let n = e.len() - 1;
        if e[n].0@ == d {
            lemma_lookup_at(e, n);
            if has_key(p, d) {
                let j = key_index(p, d);
                assert(p[j] == e[j]);
                assert(crate::keyed::bytes_lt(e[j].0.key_bytes(), e[n].0.key_bytes()));
                crate::keyed::lemma_bytes_lt_irreflexive(d);
            }
            assert(entries_have(e, d)) by {
                assert(e[n].0@ == d);
            }
        } else {
            if has_key(e, d) {
                let j = key_index(e, d);
                assert(j != n);
                assert(p[j] == e[j]);
                lemma_lookup_at(e, j);
                lemma_lookup_at(p, j);
            }
            if has_key(p, d) {
                let j = key_index(p, d);
                assert(p[j] == e[j]);
                lemma_lookup_at(p, j);
                lemma_lookup_at(e, j);
            }
            if entries_have(e, d) {
                let j = choose|j: int| 0 <= j < e.len() && (#[trigger] e[j]).0@ == d;
                assert(j != n);
                assert(p[j] == e[j]);
            }
            if entries_have(p, d) {
                let j = choose|j: int| 0 <= j < p.len() && (#[trigger] p[j]).0@ == d;
                assert(p[j] == e[j]);
            }
        }
    }
}

impl Module {
    /// Ends a block (see `end_block_balance`): drains the native fees of the
    /// previous block from the fee accumulator's address; gives each good
    /// compute node an equal part of what is left of them after a tenth is
    /// taxed, and the common pool all the rest (see `pool_share`), so that
    /// no fee is lost; and moves the fees of this block from the fee
    /// accumulator of the context to the fee accumulator's address.
    ///
    /// The balances of every denomination sum up after to what they summed
    /// up before plus the fees of this block; so where the total supplies
    /// were the balances plus the fees in flight, they are the balances
    /// after. Where moreover exactly the denominations held or in flight
    /// had a total supply entry, native tokens among them, the invariants
    /// hold after (`check_invariants` succeeds).
    pub fn end_block(ctx: &mut AccountsContext, fee_acc: Address, pool: Address, nodes: &Vec<Address>)
        requires
            old(ctx).wf(),
            forall|a: Seq<u8>, d: Seq<u8>|
                #[trigger] end_block_touches(old(ctx).values, fee_acc, pool, nodes@, a, d)
                    ==> end_block_balance(old(ctx).state, old(ctx).values, fee_acc, pool, nodes@, a, d)
                    <= u128::MAX,
        ensures
            final(ctx).wf(),
            final(ctx).state.same_except_balances(old(ctx).state),
            forall|a: Seq<u8>, d: Seq<u8>| #[trigger]
                final(ctx).state.balance_entry(a, d) == if end_block_touches(
                    old(ctx).values,
                    fee_acc,
                    pool,
                    nodes@,
                    a,
                    d,
                ) {
                    Some(
                        end_block_balance(
                            old(ctx).state,
                            old(ctx).values,
                            fee_acc,
                            pool,
                            nodes@,
                            a,
                            d,
                        ) as u128,
                    )
                } else {
                    old(ctx).state.balance_entry(a, d)
                },
            forall|d: Seq<u8>| #[trigger]
                final(ctx).state.sum_of_balances(d) == old(ctx).state.sum_of_balances(d) + block_fee(
                    old(ctx).values,
                    d,
                ),
            (forall|d: Seq<u8>| #[trigger]
                old(ctx).state.total_supply(d) == old(ctx).state.sum_of_balances(d) + block_fee(
                    old(ctx).values,
                    d,
                )) ==> final(ctx).state.supply_conserved(),
            ({
                let st = old(ctx).state;
                &&& forall|d: Seq<u8>| #[trigger]
                    st.total_supply(d) == st.sum_of_balances(d) + block_fee(old(ctx).values, d)
                &&& forall|d: Seq<u8>| #[trigger]
                    st.total_supplies.get_spec(d) is Some <==> (den_held(st, d) || block_fee_entry(
                        old(ctx).values,
                        d,
                    ) is Some)
                &&& st.total_supplies.get_spec(native()) is Some
            }) ==> supplies_match(final(ctx).state),
            final(ctx).values.get_spec(fee_key()) is None,
            forall|kb: Seq<u8>|
                kb != fee_key() ==> #[trigger] final(ctx).values.get_spec(kb) == old(
                    ctx,
                ).values.get_spec(kb),
            final(ctx).mode == old(ctx).mode && final(ctx).round == old(ctx).round,
            final(ctx).events == old(ctx).events && final(ctx).priority == old(ctx).priority,
            final(ctx).sender_meta == old(ctx).sender_meta && final(ctx).caller == old(ctx).caller,
            final(ctx).gas == old(ctx).gas,
    {
        let ghost st = ctx.state;
        let ghost vals = ctx.values;
        let ghost n = nodes@.len() as int;
        let native_den = Denomination::native();
        let prev = match ctx.state.get_balance(fee_acc, &native_den) {
            Ok(b) => b,
            Err(_) => 0,
        };
        let ghost pv = prev as int;
        match ctx.state.sub_amount(fee_acc, &BaseUnits::new(prev, Denomination::native())) {
            Ok(()) => {},
            Err(_) => {
                proof {
                    assert(false);
                }
            },
        }
        // After draining: only the fee accumulator's native entry changed.
        let ghost drained = ctx.state;
        let mut each: u128 = 0;
        if nodes.len() > 0 {
            let tax = prev / 10;
            each = (prev - tax) / (nodes.len() as u128);
        }
        proof {
            lemma_pool_share(pv, n);
            assert(each == fee_each(pv, n));
            assert(each as int * n == n * fee_each(pv, n)) by (nonlinear_arith)
                requires
                    each == fee_each(pv, n),
            ;
        }
        let share: u128 = prev - each * (nodes.len() as u128);
        proof {
            assert(share == pool_share(pv, n));
            assert(end_block_touches(vals, fee_acc, pool, nodes@, pool@, native()));
            lemma_count_addr_nonneg(nodes@, pool@);
            assert(0 <= count_addr(nodes@, pool@) * fee_each(pv, n)) by (nonlinear_arith)
                requires
                    count_addr(nodes@, pool@) >= 0,
                    fee_each(pv, n) >= 0,
            ;
        }
        match ctx.state.add_amount(pool, &BaseUnits::new(share, Denomination::native())) {
            Ok(()) => {},
            Err(_) => {
                proof {
                    assert(false);
                }
            },
        }
        proof {
            assert(nodes@.take(0) =~= Seq::<Address>::empty());
        }
        let mut i: usize = 0;
        while i < nodes.len()
            invariant
                0 <= i <= nodes@.len(),
                n == nodes@.len(),
                pv == prev,
                share == pool_share(pv, n),
                each == fee_each(pv, n),
                0 <= n * fee_each(pv, n) <= pv,
                ctx.wf(),
                ctx.state.same_except_balances(st),
                ctx.values == vals,
                ctx.mode == old(ctx).mode && ctx.round == old(ctx).round,
                ctx.events == old(ctx).events && ctx.priority == old(ctx).priority,
                ctx.sender_meta == old(ctx).sender_meta && ctx.caller == old(ctx).caller,
                ctx.gas == old(ctx).gas,
                st == old(ctx).state,
                vals == old(ctx).values,
                pv == st.balance(fee_acc@, native()),
                forall|a: Seq<u8>, d: Seq<u8>|
                    #[trigger] end_block_touches(vals, fee_acc, pool, nodes@, a, d)
                        ==> end_block_balance(st, vals, fee_acc, pool, nodes@, a, d)
                        <= u128::MAX,
                forall|a: Seq<u8>, d: Seq<u8>| #[trigger]
                    ctx.state.balance_entry(a, d) == if d == native() && (a == fee_acc@ || a
                        == pool@ || count_addr(nodes@.take(i as int), a) > 0) {
                        Some(
                            ((if a == fee_acc@ {
                                0
                            } else {
                                st.balance(a, d)
                            }) + (if a == pool@ {
                                share as int
                            } else {
                                0
                            }) + count_addr(nodes@.take(i as int), a) * (each as int)) as u128,
                        )
                    } else {
                        st.balance_entry(a, d)
                    },
                forall|d: Seq<u8>| #[trigger]
                    ctx.state.sum_of_balances(d) == st.sum_of_balances(d) - (if d == native() {
                        pv - share - i * each
                    } else {
                        0
                    }),
            decreases nodes@.len() - i,
        {
            let addr = nodes[i];
            let ghost before = ctx.state;
            proof {
                let a = addr@;
                assert(nodes@.take(i + 1).drop_last() =~= nodes@.take(i as int));
                assert(nodes@.take(i + 1).last() == addr);
                lemma_count_addr_prefix(nodes@, i + 1, a);
                lemma_count_addr_nonneg(nodes@.take(i + 1), a);
                lemma_count_addr_nonneg(nodes@.take(i as int), a);
                assert(count_addr(nodes@.take(i + 1), a) == count_addr(nodes@.take(i as int), a) + 1);
                assert(count_addr(nodes@, a) > 0);
                assert(end_block_touches(vals, fee_acc, pool, nodes@, a, native()));
                assert(end_block_balance(st, vals, fee_acc, pool, nodes@, a, native()) <= u128::MAX);
                let c0 = count_addr(nodes@.take(i as int), a);
                assert(c0 * (each as int) <= count_addr(nodes@, a) * (each as int)) by (nonlinear_arith)
                    requires
                        c0 <= count_addr(nodes@, a),
                        each >= 0,
                ;
                assert(c0 * (each as int) >= 0) by (nonlinear_arith)
                    requires
                        c0 >= 0,
                        each >= 0,
                ;
                if c0 == 0 {
                    assert(c0 * (each as int) == 0);
                }
                assert(before.balance_entry(a, native()) == before.balance_entry(a, native()));
                assert(before.balance(a, native()) == (if a == fee_acc@ {
                                0
                            } else {
                                st.balance(a, native())
                            }) + (if a == pool@ {
                                share as int
                            } else {
                                0
                            }) + count_addr(nodes@.take(i as int), a) * (each as int));
                let c = count_addr(nodes@.take(i + 1), a);
                let cf = count_addr(nodes@, a);
                assert(c * (each as int) <= cf * (each as int)) by (nonlinear_arith)
                    requires
                        c <= cf,
                        each >= 0,
                ;
                assert(c * (each as int) == (c - 1) * (each as int) + each) by (nonlinear_arith);
                lemma_count_addr_nonneg(nodes@, pool@);
                assert(0 <= count_addr(nodes@, pool@) * fee_each(pv, n)) by (nonlinear_arith)
                    requires
                        count_addr(nodes@, pool@) >= 0,
                        fee_each(pv, n) >= 0,
                ;
            }
            match ctx.state.add_amount(addr, &BaseUnits::new(each, Denomination::native())) {
                Ok(()) => {},
                Err(_) => {
                    proof {
                        assert(false);
                    }
                },
            }
            proof {
                assert forall|a: Seq<u8>| #[trigger] count_addr(nodes@.take(i + 1), a) == count_addr(nodes@.take(i as int), a) + if addr@ == a { 1int } else { 0int } by {}
                assert((i + 1) * (each as int) == i * (each as int) + each) by (nonlinear_arith);
            }
            i = i + 1;
        }
        proof {
            assert(nodes@.take(n) =~= nodes@);
            assert(n * (each as int) == n * fee_each(pv, n));
        }
        let ghost disbursed_state = ctx.state;
        let taken = ContextValue::new(&mut ctx.values, CONTEXT_KEY_FEE_ACCUMULATOR).take();
        let acc = match taken {
            Some(a) => a,
            None => FeeAccumulator::default(),
        };
        let ghost e = acc.total_fees.entries@;
        let ghost vals_taken = ctx.values;
        proof {
            assert(acc.total_fees.wf());
            assert forall|d: Seq<u8>| #[trigger] block_fee(vals, d) == entries_sum(e, d) by {
                lemma_entries_sum_lookup(e, d);
            }
            assert forall|d: Seq<u8>| #[trigger] block_fee_entry(vals, d) is Some <==> entries_have(e, d) by {
                lemma_entries_sum_lookup(e, d);
            }
            assert(e.take(0) =~= Seq::<(Denomination, u128)>::empty());
        }
        let mut k: usize = 0;
        while k < acc.total_fees.entries.len()
            invariant
                0 <= k <= e.len(),
                e == acc.total_fees.entries@,
                sorted_entries(e),
                ctx.wf(),
                ctx.state.same_except_balances(st),
                ctx.mode == old(ctx).mode && ctx.round == old(ctx).round,
                ctx.events == old(ctx).events && ctx.priority == old(ctx).priority,
                ctx.sender_meta == old(ctx).sender_meta && ctx.caller == old(ctx).caller,
                ctx.gas == old(ctx).gas,
                forall|d: Seq<u8>| #[trigger] block_fee(vals, d) == entries_sum(e, d),
                forall|d: Seq<u8>| #[trigger] block_fee_entry(vals, d) is Some <==> entries_have(e, d),
                ctx.values == vals_taken,
                vals_taken.get_spec(fee_key()) is None,
                forall|kb: Seq<u8>| kb != fee_key() ==> #[trigger] vals_taken.get_spec(kb) == vals.get_spec(kb),
                forall|a: Seq<u8>, d: Seq<u8>|
                    #[trigger] end_block_touches(vals, fee_acc, pool, nodes@, a, d)
                        ==> end_block_balance(st, vals, fee_acc, pool, nodes@, a, d)
                        <= u128::MAX,
                forall|a: Seq<u8>, d: Seq<u8>| #[trigger]
                    disbursed_state.balance_entry(a, d) == if d == native() && (a == fee_acc@ || a
                        == pool@ || count_addr(nodes@, a) > 0) {
                        Some(
                            ((if a == fee_acc@ {
                                0
                            } else {
                                st.balance(a, d)
                            }) + (if a == pool@ {
                                share as int
                            } else {
                                0
                            }) + count_addr(nodes@, a) * (each as int)) as u128,
                        )
                    } else {
                        st.balance_entry(a, d)
                    },
                pv == st.balance(fee_acc@, native()),
                n == nodes@.len(),
                share == pool_share(pv, n),
                each == fee_each(pv, n),
                forall|d: Seq<u8>| #[trigger]
                    disbursed_state.sum_of_balances(d) == st.sum_of_balances(d),
                forall|a: Seq<u8>, d: Seq<u8>| #[trigger]
                    ctx.state.balance_entry(a, d) == if a == fee_acc@ && entries_have(e.take(k as int), d) {
                        Some((disbursed_state.balance(a, d) + entries_sum(e.take(k as int), d)) as u128)
                    } else {
                        disbursed_state.balance_entry(a, d)
                    },
                forall|d: Seq<u8>| #[trigger]
                    ctx.state.sum_of_balances(d) == disbursed_state.sum_of_balances(d) + entries_sum(e.take(k as int), d),
            decreases e.len() - k,
        {
            let den = acc.total_fees.entries[k].0.duplicate();
            let amt = acc.total_fees.entries[k].1;
            let ghost d = den@;
            proof {
                let t = e.take(k + 1);
                assert(t.drop_last() =~= e.take(k as int));
                assert(t.last() == e[k as int]);
                lemma_entries_sum_prefix(e, k + 1, d);
                lemma_entries_sum_prefix(e, k as int, d);
                // No entry before `k` is of `d`.
                assert(!entries_have(e.take(k as int), d)) by {
                    if entries_have(e.take(k as int), d) {
                        let j = choose|j: int| 0 <= j < e.take(k as int).len() && (#[trigger] e.take(k as int)[j]).0@ == d;
                        assert(e.take(k as int)[j] == e[j]);
                        assert(crate::keyed::bytes_lt(e[j].0.key_bytes(), e[k as int].0.key_bytes()));
                        crate::keyed::lemma_bytes_lt_irreflexive(d);
                    }
                }
                lemma_entries_sum_absent(e.take(k as int), d);
                assert(entries_have(e, d)) by {
                    assert(e[k as int].0@ == d);
                }
                assert(block_fee_entry(vals, d) is Some);
                assert(end_block_touches(vals, fee_acc, pool, nodes@, fee_acc@, d));
                assert(block_fee(vals, d) == entries_sum(e, d));
                lemma_count_addr_nonneg(nodes@, fee_acc@);
                assert(0 <= count_addr(nodes@, fee_acc@) * (each as int)) by (nonlinear_arith)
                    requires
                        count_addr(nodes@, fee_acc@) >= 0,
                        each >= 0,
                ;
            }
            match ctx.state.add_amount(fee_acc, &BaseUnits::new(amt, den)) {
                Ok(()) => {},
                Err(_) => {
                    proof {
                        assert(false);
                    }
                },
            }
            proof {
                let t = e.take(k + 1);
                assert forall|d2: Seq<u8>| #[trigger] entries_sum(t, d2) == entries_sum(e.take(k as int), d2) + if e[k as int].0@ == d2 { amt as int } else { 0int } by {}
                assert forall|d2: Seq<u8>| #[trigger] entries_have(t, d2) <==> (entries_have(e.take(k as int), d2) || e[k as int].0@ == d2) by {
                    if entries_have(t, d2) {
                        let j = choose|j: int| 0 <= j < t.len() && (#[trigger] t[j]).0@ == d2;
                        if j < k {
                            assert(e.take(k as int)[j] == t[j]);
                        }
                    }
                    if entries_have(e.take(k as int), d2) {
                        let j = choose|j: int| 0 <= j < e.take(k as int).len() && (#[trigger] e.take(k as int)[j]).0@ == d2;
                        assert(t[j] == e.take(k as int)[j]);
                    }
                    if e[k as int].0@ == d2 {
                        assert(t[k as int] == e[k as int]);
                    }
                }
            }
            k = k + 1;
        }
        proof {
            assert(e.take(e.len() as int) =~= e);
            lemma_count_addr_nonneg(nodes@, pool@);
            assert forall|a: Seq<u8>, d: Seq<u8>| #[trigger]
                ctx.state.balance_entry(a, d) == if end_block_touches(vals, fee_acc, pool, nodes@, a, d) {
                    Some(end_block_balance(st, vals, fee_acc, pool, nodes@, a, d) as u128)
                } else {
                    st.balance_entry(a, d)
                } by {
                assert(block_fee(vals, d) == entries_sum(e, d));
                assert(block_fee_entry(vals, d) is Some <==> entries_have(e, d));
                assert(disbursed_state.balance_entry(a, d) == disbursed_state.balance_entry(a, d));
                lemma_count_addr_nonneg(nodes@, a);
                let c = count_addr(nodes@, a);
                assert(c * (each as int) >= 0) by (nonlinear_arith)
                    requires
                        c >= 0,
                        each >= 0,
                ;
                if n == 0 {
                    assert(c == 0);
                    assert(c * (each as int) == 0);
                    assert(c * fee_each(pv, n) == 0);
                }
                if end_block_touches(vals, fee_acc, pool, nodes@, a, d) {
                    assert(end_block_balance(st, vals, fee_acc, pool, nodes@, a, d) <= u128::MAX);
                }
            }
        }
        proof {
            if forall|d: Seq<u8>| #[trigger]
                old(ctx).state.total_supply(d) == old(ctx).state.sum_of_balances(d) + block_fee(
                    old(ctx).values,
                    d,
                ) {
                assert forall|d: Seq<u8>| #[trigger] ctx.state.total_supply(d) == ctx.state.sum_of_balances(d) by {
                    assert(old(ctx).state.total_supply(d) == old(ctx).state.sum_of_balances(d) + block_fee(
                        old(ctx).values,
                        d,
                    ));
                }
            }
        }
        proof {
            let st = old(ctx).state;
            let ns = ctx.state;
            if ({
                &&& forall|d: Seq<u8>| #[trigger]
                    st.total_supply(d) == st.sum_of_balances(d) + block_fee(old(ctx).values, d)
                &&& forall|d: Seq<u8>| #[trigger]
                    st.total_supplies.get_spec(d) is Some <==> (den_held(st, d) || block_fee_entry(
                        old(ctx).values,
                        d,
                    ) is Some)
                &&& st.total_supplies.get_spec(native()) is Some
            }) {
                assert forall|d: Seq<u8>|
                    #![trigger ns.total_supplies.get_spec(d)]
                    #![trigger den_held(ns, d)]
                    (ns.total_supplies.get_spec(d) is Some <==> den_held(ns, d)) && ns.total_supply(d)
                        == ns.sum_of_balances(d) by {
                    assert(st.total_supply(d) == st.sum_of_balances(d) + block_fee(old(ctx).values, d));
                    assert(st.total_supplies.get_spec(d) is Some <==> (den_held(st, d) || block_fee_entry(
                        old(ctx).values,
                        d,
                    ) is Some));
                    lemma_den_held_entry(ns, d);
                    lemma_den_held_entry(st, d);
                    assert(end_block_touches(vals, fee_acc, pool, nodes@, fee_acc@, native()));
                    assert(ns.balance_entry(fee_acc@, native()) is Some);
                    if d != native() {
                        if den_held(ns, d) {
                            let a = choose|a: Seq<u8>| #[trigger] ns.balance_entry(a, d) is Some;
                            if !end_block_touches(vals, fee_acc, pool, nodes@, a, d) {
                                assert(st.balance_entry(a, d) is Some);
                            }
                        }
                        if den_held(st, d) {
                            let a = choose|a: Seq<u8>| #[trigger] st.balance_entry(a, d) is Some;
                            assert(ns.balance_entry(a, d) is Some);
                        }
                        if block_fee_entry(vals, d) is Some {
                            assert(end_block_touches(vals, fee_acc, pool, nodes@, fee_acc@, d));
                            assert(ns.balance_entry(fee_acc@, d) is Some);
                        }
                    }
                }
            }
        }
    }
}

/// Entries without `d` sum up to zero for it.
proof fn lemma_entries_sum_absent(e: Seq<(Denomination, u128)>, d: Seq<u8>)
    requires
        !entries_have(e, d),
    ensures
        entries_sum(e, d) == 0,
    decreases e.len(),
{
    if e.len() > 0 {
        let p = e.drop_last();
        assert(!entries_have(p, d)) by {
            if entries_have(p, d) {
                let j = choose|j: int| 0 <= j < p.len() && (#[trigger] p[j]).0@ == d;
                assert(e[j] == p[j]);
            }
        }
        assert(e.last() == e[e.len() - 1]);
        lemma_entries_sum_absent(p, d);
    }
}

} // verus!
