//! Storage keys of the accounts module that join an address and a
//! denomination or a role.
use vstd::prelude::*;

use crate::types::address::{Address, ADDRESS_SIZE};
use crate::types::role::{role_from_byte, Role};
use crate::types::token::{Denomination, MAX_DENOMINATION_LENGTH};

verus! {

/// An address and a denomination, as balances are keyed.
#[derive(Debug)]
pub struct AddressWithDenomination(pub Address, pub Denomination);

/// Why a key of an address and a denomination is malformed.
#[derive(Debug, Clone, Copy, PartialEq, Eq)]
pub enum AwdError {
    MalformedAddress,
    MalformedDenomination,
}

/// An address and the byte of a role, as role entries are keyed.
#[derive(Debug, Clone, Copy)]
pub struct AddressWithRole(pub Address, pub [u8; 1]);

/// Why a key of an address and a role is malformed.
#[derive(Debug, Clone, Copy, PartialEq, Eq)]
pub enum RaError {
    MalformedAddress,
    MalformedRole,
}

/// The bytes of `s` from `start` on.
fn tail(s: &[u8], start: usize) -> (r: Vec<u8>)
    requires
        start <= s@.len(),
    ensures
        r@ == s@.subrange(start as int, s@.len() as int),
{
    let mut v: Vec<u8> = Vec::new();
    let mut i: usize = start;
    while i < s.len()
        invariant
            start <= i <= s@.len(),
            v@ =~= s@.subrange(start as int, i as int),
        decreases s@.len() - i,
    {
        v.push(s[i]);
        i = i + 1;
    }
    v
}

/// The first `n` bytes of `s`.
fn head(s: &[u8], n: usize) -> (r: Vec<u8>)
    requires
        n <= s@.len(),
    ensures
        r@ == s@.take(n as int),
{
    let mut v: Vec<u8> = Vec::new();
    let mut i: usize = 0;
    while i < n
        invariant
            0 <= i <= n,
            n <= s@.len(),
            v@ =~= s@.take(i as int),
        decreases n - i,
    {
        v.push(s[i]);
        i = i + 1;
    }
    v
}

impl AddressWithDenomination {
    /// Splits a balance key: the address bytes, then the denomination
    /// (at most `MAX_DENOMINATION_LENGTH` bytes).
    pub fn try_from(bytes: &[u8]) -> (r: Result<Self, AwdError>)
        requires
            bytes@.len() >= ADDRESS_SIZE,
        ensures
            (bytes@.len() - ADDRESS_SIZE <= MAX_DENOMINATION_LENGTH) <==> r is Ok,
            r matches Ok(k) ==> k.0@ == bytes@.take(ADDRESS_SIZE as int) && k.1@ == bytes@.subrange(
                ADDRESS_SIZE as int,
                bytes@.len() as int,
            ),
            r matches Err(e) ==> e == AwdError::MalformedDenomination,
    {
        let address = match Address::try_from(head(bytes, ADDRESS_SIZE).as_slice()) {
            Ok(a) => a,
            Err(_) => {
                return Err(AwdError::MalformedAddress);
            },
        };
        let denomination = match Denomination::from_bytes(tail(bytes, ADDRESS_SIZE).as_slice()) {
            Some(d) => d,
            None => {
                return Err(AwdError::MalformedDenomination);
            },
        };
        Ok(AddressWithDenomination(address, denomination))
    }
}

impl AddressWithRole {
    /// Splits a role key: the address bytes, then the role's byte.
    pub fn try_from(bytes: &[u8]) -> (r: Result<Self, RaError>)
        requires
            bytes@.len() >= ADDRESS_SIZE,
        ensures
            (bytes@.len() == ADDRESS_SIZE + 1 && role_from_byte(bytes@[ADDRESS_SIZE as int]) is Some)
                <==> r is Ok,
            r matches Ok(k) ==> k.0@ == bytes@.take(ADDRESS_SIZE as int) && k.1@ == seq![
                bytes@[ADDRESS_SIZE as int],
            ],
            r matches Err(e) ==> e == RaError::MalformedRole,
    {
        let address = match Address::try_from(head(bytes, ADDRESS_SIZE).as_slice()) {
            Ok(a) => a,
            Err(_) => {
                return Err(RaError::MalformedAddress);
            },
        };
        let rest = tail(bytes, ADDRESS_SIZE);
        let role = match Role::try_from(rest.as_slice()) {
            Ok(r) => r,
            Err(_) => {
                return Err(RaError::MalformedRole);
            },
        };
        proof {
            crate::types::role::lemma_role_byte_roundtrip(role);
        }
        Ok(AddressWithRole(address, role.marshal_binary()))
    }
}

} // verus!
