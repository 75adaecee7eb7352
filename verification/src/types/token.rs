//! Token amounts and denominations.
use vstd::prelude::*;

use crate::keyed::{bytes_order, Key, Order};

verus! {

/// Maximum length of a denomination.
pub const MAX_DENOMINATION_LENGTH: usize = 32;

/// Name of a token; the native token's name is empty.
#[derive(Debug, Default, PartialEq, Eq, PartialOrd, Ord, Hash)]
pub struct Denomination(Vec<u8>);

impl View for Denomination {
    type V = Seq<u8>;

    closed spec fn view(&self) -> Seq<u8> {
        self.0@
    }
}

impl Denomination {
    /// The denomination of the native token.
    pub fn native() -> (r: Self)
        ensures
            r@ == Seq::<u8>::empty(),
    {
        Denomination(Vec::new())
    }

    /// A denomination of at most `MAX_DENOMINATION_LENGTH` bytes.
    pub fn from_bytes(bytes: &[u8]) -> (r: Option<Self>)
        ensures
            r is Some <==> bytes@.len() <= MAX_DENOMINATION_LENGTH,
            r matches Some(d) ==> d@ == bytes@,
    {
        if bytes.len() > MAX_DENOMINATION_LENGTH {
            return None;
        }
        let mut v: Vec<u8> = Vec::new();
        let mut i: usize = 0;
        while i < bytes.len()
            invariant
                0 <= i <= bytes@.len(),
                v@ =~= bytes@.subrange(0, i as int),
            decreases bytes@.len() - i,
        {
            v.push(bytes[i]);
            i = i + 1;
        }
        assert(v@ =~= bytes@);
        Some(Denomination(v))
    }

    /// The bytes of the denomination.
    pub fn as_bytes(&self) -> (r: &[u8])
        ensures
            r@ == self@,
    {
        self.0.as_slice()
    }

    /// A copy of the denomination.
    pub fn duplicate(&self) -> (r: Self)
        ensures
            r@ == self@,
    {
        let mut v: Vec<u8> = Vec::new();
        let mut i: usize = 0;
        while i < self.0.len()
            invariant
                0 <= i <= self.0@.len(),
                v@ =~= self.0@.subrange(0, i as int),
            decreases self.0@.len() - i,
        {
            v.push(self.0[i]);
            i = i + 1;
        }
        assert(v@ =~= self.0@);
        Denomination(v)
    }
}

impl Key for Denomination {
    open spec fn key_bytes(&self) -> Seq<u8> {
        self@
    }

    fn key_order(&self, other: &Self) -> (r: Order) {
        bytes_order(self.as_bytes(), other.as_bytes())
    }
}

/// An amount of tokens of one denomination.
#[derive(Debug, Default, PartialEq, Eq)]
pub struct BaseUnits {
    pub amount: u128,
    pub denomination: Denomination,
}

impl BaseUnits {
    pub fn new(amount: u128, denomination: Denomination) -> (r: Self)
        ensures
            r.amount == amount,
            r.denomination@ == denomination@,
    {
        BaseUnits { amount, denomination }
    }

    pub fn amount(&self) -> (r: u128)
        ensures
            r == self.amount,
    {
        self.amount
    }

    pub fn denomination(&self) -> (r: &Denomination)
        ensures
            r@ == self.denomination@,
    {
        &self.denomination
    }

    /// A copy of the amount.
    pub fn duplicate(&self) -> (r: Self)
        ensures
            r.amount == self.amount,
            r.denomination@ == self.denomination@,
    {
        BaseUnits { amount: self.amount, denomination: self.denomination.duplicate() }
    }
}

} // verus!
