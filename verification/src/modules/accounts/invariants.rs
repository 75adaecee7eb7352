//! The invariant of the accounts module: the total supply of every
//! denomination is the sum of the balances of that denomination.
use vstd::prelude::*;

use super::state::AccountsState;
use super::{
    bal_of, lemma_sum_balances_nonneg, sum_balances, AccountsContext, Module,
};
use crate::keyed::{has_key, key_index, lemma_lookup_at, KvStore};
use crate::modules::core_module::Error as CoreError;
use crate::types::address::Address;
use crate::types::token::Denomination;

verus! {

/// The decimal digits of `n`.
pub open spec fn decimal(n: nat) -> Seq<char>
    decreases n,
{
    if n < 10 {
        seq![((48 + n) as u32) as char]
    } else {
        decimal(n / 10).push(((48 + n % 10) as u32) as char)
    }
}

/// The message of a total supply that differs from the sum of the balances.
pub open spec fn mismatch_message(computed: u128, actual: u128) -> Seq<char> {
    "computed and actual total supplies don't match (computed="@ + decimal(computed as nat)
        + ", actual="@ + decimal(actual as nat) + ")"@
}

/// Whether some account has a balance entry of `d`.
pub open spec fn den_held(st: AccountsState, d: Seq<u8>) -> bool {
    exists|i: int|
        0 <= i < st.balances.entries@.len() && (#[trigger] st.balances.entries@[i]).1.get_spec(
            d,
        ) is Some
}

/// Some account holds `d` exactly where some address has a balance entry
/// of `d`.
pub proof fn lemma_den_held_entry(st: AccountsState, d: Seq<u8>)
    requires
        st.balances.wf(),
    ensures
        den_held(st, d) <==> exists|a: Seq<u8>| #[trigger] st.balance_entry(a, d) is Some,
{
    let e = st.balances.entries@;
    if den_held(st, d) {
        let i = choose|i: int| 0 <= i < e.len() && (#[trigger] e[i]).1.get_spec(d) is Some;
        lemma_lookup_at(e, i);
        assert(st.balance_entry(e[i].0@, d) is Some);
    }
    if exists|a: Seq<u8>| #[trigger] st.balance_entry(a, d) is Some {
        let a = choose|a: Seq<u8>| #[trigger] st.balance_entry(a, d) is Some;
        let j = key_index(e, a);
        assert(0 <= j < e.len() && e[j].1.get_spec(d) is Some);
    }
}

/// What is wrong with the total supply entry `t` of `d`, if anything: no
/// account holds `d`, or the balances of `d` do not sum up to `t`.
pub open spec fn supply_entry_violation(st: AccountsState, d: Seq<u8>, t: u128) -> Option<Seq<char>> {
    if !den_held(st, d) {
        Some("unexpected denomination"@)
    } else if st.sum_of_balances(d) != t {
        Some(mismatch_message(st.sum_of_balances(d) as u128, t))
    } else {
        None
    }
}

/// The first violation among the total supply entries `e`, in order.
pub open spec fn supplies_violation(st: AccountsState, e: Seq<(Denomination, u128)>) -> Option<
    Seq<char>,
>
    decreases e.len(),
{
    if e.len() == 0 {
        None
    } else {
        match supplies_violation(st, e.drop_last()) {
            Some(m) => Some(m),
            None => supply_entry_violation(st, e.last().0@, e.last().1),
        }
    }
}

/// Whether some account has a balance entry of a denomination that has no
/// total supply entry.
pub open spec fn unlisted_denomination(st: AccountsState) -> bool {
    exists|i: int, d: Seq<u8>|
        0 <= i < st.balances.entries@.len() && (#[trigger] st.balances.entries@[i].1.get_spec(d))
            is Some && st.total_supplies.get_spec(d) is None
}

/// The denominations with a total supply entry are those that some account
/// holds, and each total supply is the sum of the balances.
pub open spec fn supplies_match(st: AccountsState) -> bool {
    forall|d: Seq<u8>|
        #![trigger st.total_supplies.get_spec(d)]
        #![trigger den_held(st, d)]
        (st.total_supplies.get_spec(d) is Some <==> den_held(st, d)) && st.total_supply(d)
            == st.sum_of_balances(d)
}

/// A prefix of the accounts sums up to at most the whole.
proof fn lemma_sum_balances_prefix(e: Seq<(Address, KvStore<Denomination, u128>)>, i: int, d: Seq<u8>)
    requires
        0 <= i <= e.len(),
    ensures
        0 <= sum_balances(e.take(i), d) <= sum_balances(e, d),
    decreases e.len(),
{
    lemma_sum_balances_nonneg(e.take(i), d);
    if i < e.len() {
        assert(e.drop_last().take(i) =~= e.take(i));
        lemma_sum_balances_prefix(e.drop_last(), i, d);
        assert(bal_of(e.last().1, d) >= 0);
    } else {
        assert(e.take(i) =~= e);
    }
}

/// No account holds `d`, so its balances sum up to zero.
pub(crate) proof fn lemma_sum_not_held(e: Seq<(Address, KvStore<Denomination, u128>)>, d: Seq<u8>)
    requires
        forall|i: int| 0 <= i < e.len() ==> (#[trigger] e[i]).1.get_spec(d) is None,
    ensures
        sum_balances(e, d) == 0,
    decreases e.len(),
{
    if e.len() > 0 {
        assert(e.last() == e[e.len() - 1]);
        lemma_sum_not_held(e.drop_last(), d);
    }
}

/// The violations of the entries that come first stay the first ones.
proof fn lemma_supplies_violation_prefix(st: AccountsState, e: Seq<(Denomination, u128)>, i: int)
    requires
        0 <= i < e.len(),
        supplies_violation(st, e.take(i)) is None,
    ensures
        supplies_violation(st, e.take(i + 1)) == supply_entry_violation(st, e[i].0@, e[i].1),
{
    assert(e.take(i + 1).drop_last() =~= e.take(i));
}

/// Where the entries of `e` show no violation, each of them names a held
/// denomination whose balances sum up to its entry.
proof fn lemma_no_violation(st: AccountsState, e: Seq<(Denomination, u128)>)
    requires
        supplies_violation(st, e) is None,
    ensures
        forall|k: int|
            0 <= k < e.len() ==> den_held(st, (#[trigger] e[k]).0@) && st.sum_of_balances(e[k].0@)
                == e[k].1,
    decreases e.len(),
{
    if e.len() > 0 {
        lemma_no_violation(st, e.drop_last());
        assert forall|k: int| 0 <= k < e.len() implies den_held(st, (#[trigger] e[k]).0@)
            && st.sum_of_balances(e[k].0@) == e[k].1 by {
            if k < e.len() - 1 {
                assert(e.drop_last()[k] == e[k]);
            }
        }
    }
}

/// The sum of the balances of `d`, and whether any account holds `d`.
fn denomination_total(st: &AccountsState, d: &Denomination) -> (r: (bool, u128))
    requires
        st.wf(),
        st.sum_of_balances(d@) <= u128::MAX,
    ensures
        r.0 == den_held(*st, d@),
        r.1 == st.sum_of_balances(d@),
{
    let e = &st.balances.entries;
    let mut held = false;
    let mut total: u128 = 0;
    let mut i: usize = 0;
    while i < e.len()
        invariant
            super::state::inner_wf(e@),
            0 <= i <= e@.len(),
            sum_balances(e@, d@) <= u128::MAX,
            total == sum_balances(e@.take(i as int), d@),
            held <==> exists|j: int| 0 <= j < i && (#[trigger] e@[j]).1.get_spec(d@) is Some,
        decreases e@.len() - i,
    {
        proof {
            assert(e@.take(i + 1).drop_last() =~= e@.take(i as int));
            assert(e@.take(i + 1).last() == e@[i as int]);
            lemma_sum_balances_prefix(e@, i + 1, d@);
            assert(e@[i as int].1.wf());
        }
        match e[i].1.get(d) {
            Some(v) => {
                held = true;
                total = total + *v;
            },
            None => {},
        }
        i = i + 1;
    }
    proof {
        assert(e@.take(e@.len() as int) =~= e@);
    }
    (held, total)
}

/// Whether some account has a balance entry of a denomination that has no
/// total supply entry.
fn has_unlisted_denomination(st: &AccountsState) -> (r: bool)
    requires
        st.wf(),
    ensures
        r == unlisted_denomination(*st),
{
    let e = &st.balances.entries;
    let mut i: usize = 0;
    while i < e.len()
        invariant
            st.wf(),
            e == &st.balances.entries,
            0 <= i <= e@.len(),
            forall|j: int, d: Seq<u8>|
                0 <= j < i && (#[trigger] e@[j].1.get_spec(d)) is Some ==> st.total_supplies.get_spec(d)
                    is Some,
        decreases e@.len() - i,
    {
        let inner = &e[i].1;
        proof {
            assert(inner.wf());
        }
        let mut k: usize = 0;
        while k < inner.entries.len()
            invariant
                st.wf(),
                inner.wf(),
                e == &st.balances.entries,
                0 <= i < e@.len(),
                *inner == e@[i as int].1,
                0 <= k <= inner.entries@.len(),
                forall|m: int|
                    0 <= m < k ==> st.total_supplies.get_spec(
                        (#[trigger] inner.entries@[m]).0@,
                    ) is Some,
            decreases inner.entries@.len() - k,
        {
            if st.total_supplies.get(&inner.entries[k].0).is_none() {
                proof {
                    lemma_lookup_at(inner.entries@, k as int);
                    let d = inner.entries@[k as int].0@;
                    assert(e@[i as int].1.get_spec(d) is Some);
                }
                return true;
            }
            k = k + 1;
        }
        proof {
            assert forall|j: int, d: Seq<u8>|
                0 <= j < i + 1 && (#[trigger] e@[j].1.get_spec(d)) is Some implies st.total_supplies.get_spec(d)
                    is Some by {
                if j == i {
                    assert(has_key(inner.entries@, d));
                    let m = key_index(inner.entries@, d);
                    assert(inner.entries@[m].0@ == d);
                }
            }
        }
        i = i + 1;
    }
    false
}

/// The one-character string of the decimal digit `d`.
fn digit_str(d: u8) -> (r: &'static str)
    requires
        d < 10,
    ensures
        r@ == seq![((48 + d) as u32) as char],
{
    match d {
        0 => {
            proof {
                reveal_strlit("0");
            }
            "0"
        },
        1 => {
            proof {
                reveal_strlit("1");
            }
            "1"
        },
        2 => {
            proof {
                reveal_strlit("2");
            }
            "2"
        },
        3 => {
            proof {
                reveal_strlit("3");
            }
            "3"
        },
        4 => {
            proof {
                reveal_strlit("4");
            }
            "4"
        },
        5 => {
            proof {
                reveal_strlit("5");
            }
            "5"
        },
        6 => {
            proof {
                reveal_strlit("6");
            }
            "6"
        },
        7 => {
            proof {
                reveal_strlit("7");
            }
            "7"
        },
        8 => {
            proof {
                reveal_strlit("8");
            }
            "8"
        },
        9 => {
            proof {
                reveal_strlit("9");
            }
            "9"
        },
        _ => {
            proof {
                assert(false);
            }
            ""
        },
    }
}

/// The decimal digits of `n` (see `decimal`).
fn decimal_string(n: u128) -> (r: String)
    ensures
        r@ == decimal(n as nat),
    decreases n,
{
    if n < 10 {
        String::from_str(digit_str(n as u8))
    } else {
        let mut s = decimal_string(n / 10);
        s.append(digit_str((n % 10) as u8));
        s
    }
}

impl Module {
    /// Checks that the total supply of every denomination is the sum of its
    /// balances: fails at the first total supply entry, in denomination
    /// order, whose denomination no account holds or whose balances sum up
    /// to another amount, then where an account holds a denomination that
    /// has no total supply entry.
    pub fn check_invariants(ctx: &AccountsContext) -> (r: Result<(), CoreError>)
        requires
            ctx.state.wf(),
            forall|d: Seq<u8>| #[trigger] ctx.state.sum_of_balances(d) <= u128::MAX,
        ensures
            match supplies_violation(ctx.state, ctx.state.total_supplies.entries@) {
                Some(m) => r matches Err(CoreError::InvariantViolation(s)) && s@ == m,
                None => if unlisted_denomination(ctx.state) {
                    r matches Err(CoreError::InvariantViolation(s)) && s@
                        == "encountered denomination that isn't present in total supplies table"@
                } else {
                    r is Ok
                },
            },
            r is Ok <==> supplies_match(ctx.state),
            r is Ok ==> ctx.state.supply_conserved(),
    {
        let st = &ctx.state;
        let ts = &st.total_supplies.entries;
        let mut i: usize = 0;
        while i < ts.len()
            invariant
                st == &ctx.state,
                st.wf(),
                ts == &st.total_supplies.entries,
                forall|d: Seq<u8>| #[trigger] st.sum_of_balances(d) <= u128::MAX,
                0 <= i <= ts@.len(),
                supplies_violation(*st, ts@.take(i as int)) is None,
            decreases ts@.len() - i,
        {
            proof {
                lemma_supplies_violation_prefix(*st, ts@, i as int);
            }
            let d = &ts[i].0;
            let t = ts[i].1;
            let (held, total) = denomination_total(st, d);
            if !held {
                proof {
                    assert(supplies_violation(*st, ts@) == supplies_violation(*st, ts@.take(i + 1))) by {
                        lemma_violation_kept(*st, ts@, i + 1);
                    }
                    lemma_lookup_at(ts@, i as int);
                    assert(st.total_supplies.get_spec(d@) is Some);
                }
                let msg = String::from_str("unexpected denomination");
                return Err(CoreError::InvariantViolation(msg));
            }
            if total != t {
                let mut msg = String::from_str("computed and actual total supplies don't match (computed=");
                let c = decimal_string(total);
                msg.append(c.as_str());
                msg.append(", actual=");
                let a = decimal_string(t);
                msg.append(a.as_str());
                msg.append(")");
                proof {
                    lemma_violation_kept(*st, ts@, i + 1);
                    lemma_lookup_at(ts@, i as int);
                    assert(st.total_supplies.get_spec(d@) == Some(t));
                    assert(!den_held(*st, d@) || st.total_supply(d@) != st.sum_of_balances(d@));
                }
                return Err(CoreError::InvariantViolation(msg));
            }
            i = i + 1;
        }
        proof {
            assert(ts@.take(ts@.len() as int) =~= ts@);
            lemma_no_violation(*st, ts@);
        }
        if has_unlisted_denomination(st) {
            proof {
                let (j, d) = choose|j: int, d: Seq<u8>|
                    0 <= j < st.balances.entries@.len() && (#[trigger] st.balances.entries@[j].1.get_spec(d))
                        is Some && st.total_supplies.get_spec(d) is None;
                assert(st.balances.entries@[j].1.get_spec(d) is Some);
                assert(den_held(*st, d));
            }
            return Err(
                CoreError::InvariantViolation(
                    String::from_str("encountered denomination that isn't present in total supplies table"),
                ),
            );
        }
        proof {
            assert forall|d: Seq<u8>|
                #![trigger st.total_supplies.get_spec(d)]
                #![trigger den_held(*st, d)]
                (st.total_supplies.get_spec(d) is Some <==> den_held(*st, d)) && st.total_supply(d)
                    == st.sum_of_balances(d) by {
                if st.total_supplies.get_spec(d) is Some {
                    let k = key_index(ts@, d);
                    assert(ts@[k].0@ == d);
                } else if den_held(*st, d) {
                    let j = choose|j: int|
                        0 <= j < st.balances.entries@.len() && (#[trigger] st.balances.entries@[j]).1.get_spec(
                            d,
                        ) is Some;
                    assert(st.balances.entries@[j].1.get_spec(d) is Some);
                } else {
                    lemma_sum_not_held(st.balances.entries@, d);
                }
            }
        }
        Ok(())
    }
}

/// A violation among the first entries is the first violation of all.
proof fn lemma_violation_kept(st: AccountsState, e: Seq<(Denomination, u128)>, i: int)
    requires
        0 <= i <= e.len(),
        supplies_violation(st, e.take(i)) is Some,
    ensures
        supplies_violation(st, e) == supplies_violation(st, e.take(i)),
    decreases e.len() - i,
{
    if i < e.len() {
        assert(e.take(i + 1).drop_last() =~= e.take(i));
        lemma_violation_kept(st, e, i + 1);
    } else {
        assert(e.take(i) =~= e);
    }
}

} // verus!
