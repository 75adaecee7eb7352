//! The storage prefixes that the calls of the accounts module read, for
//! fetching them ahead of execution.
use vstd::prelude::*;

use super::auth::AuthInfo;
use super::types::{MintST, RoleAddress, Transfer};
use super::Module;
use crate::types::address::Address;

verus! {

/// Storage table of account metadata.
pub const ACCOUNTS: u8 = 0x01;

/// Storage table of balances.
pub const BALANCES: u8 = 0x02;

/// Storage table of total supplies.
pub const TOTAL_SUPPLY: u8 = 0x03;

/// Storage table of roles.
pub const ROLES: u8 = 0x04;

/// Storage table of proposals.
pub const PROPOSALS: u8 = 0x05;

/// The bytes of the module's name, `accounts`, which prefix its storage.
pub const MODULE_NAME_BYTES: [u8; 8] = [0x61, 0x63, 0x63, 0x6f, 0x75, 0x6e, 0x74, 0x73];

/// The storage prefix of `table` for address `a`.
pub open spec fn storage_prefix(table: u8, a: Seq<u8>) -> Seq<u8> {
    MODULE_NAME_BYTES@ + seq![table] + a
}

/// The storage prefix of `table` for `address`.
fn prefix_of(table: u8, address: &Address) -> (r: Vec<u8>)
    ensures
        r@ == storage_prefix(table, address@),
{
    let mut v: Vec<u8> = Vec::new();
    let mut i: usize = 0;
    while i < 8
        invariant
            0 <= i <= 8,
            v@ =~= MODULE_NAME_BYTES@.take(i as int),
        decreases 8 - i,
    {
        v.push(MODULE_NAME_BYTES[i]);
        i = i + 1;
    }
    v.push(table);
    let bytes = address.as_bytes();
    let ghost v0 = v@;
    let mut i: usize = 0;
    while i < bytes.len()
        invariant
            0 <= i <= bytes@.len(),
            v@ =~= v0 + bytes@.take(i as int),
        decreases bytes@.len() - i,
    {
        v.push(bytes[i]);
        i = i + 1;
    }
    proof {
        assert(bytes@.take(bytes@.len() as int) =~= bytes@);
        assert(v@ =~= storage_prefix(table, address@));
    }
    v
}

impl Module {
    /// Prefixes read by a transfer: the metadata and balances of the
    /// recipient, then of the sender (the first signer).
    pub fn prefetch_transfer(args: &Transfer, auth_info: &AuthInfo) -> (r: Vec<Vec<u8>>)
        requires
            auth_info.signer_info@.len() > 0,
        ensures
            r@.len() == 4,
            r@[0]@ == storage_prefix(ACCOUNTS, args.to@),
            r@[1]@ == storage_prefix(BALANCES, args.to@),
            r@[2]@ == storage_prefix(ACCOUNTS, auth_info.signer_info@[0].address@),
            r@[3]@ == storage_prefix(BALANCES, auth_info.signer_info@[0].address@),
    {
        let from = auth_info.signer_info[0].address;
        let mut r: Vec<Vec<u8>> = Vec::new();
        r.push(prefix_of(ACCOUNTS, &args.to));
        r.push(prefix_of(BALANCES, &args.to));
        r.push(prefix_of(ACCOUNTS, &from));
        r.push(prefix_of(BALANCES, &from));
        r
    }

    /// Prefixes read by a proposal: the metadata of the proposer.
    pub fn prefetch_propose(auth_info: &AuthInfo) -> (r: Vec<Vec<u8>>)
        requires
            auth_info.signer_info@.len() > 0,
        ensures
            r@.len() == 1,
            r@[0]@ == storage_prefix(ACCOUNTS, auth_info.signer_info@[0].address@),
    {
        let from = auth_info.signer_info[0].address;
        let mut r: Vec<Vec<u8>> = Vec::new();
        r.push(prefix_of(ACCOUNTS, &from));
        r
    }

    /// Prefixes read by a vote: the metadata of the voter.
    pub fn prefetch_votest(auth_info: &AuthInfo) -> (r: Vec<Vec<u8>>)
        requires
            auth_info.signer_info@.len() > 0,
        ensures
            r@.len() == 1,
            r@[0]@ == storage_prefix(ACCOUNTS, auth_info.signer_info@[0].address@),
    {
        let from = auth_info.signer_info[0].address;
        let mut r: Vec<Vec<u8>> = Vec::new();
        r.push(prefix_of(ACCOUNTS, &from));
        r
    }

    /// Prefixes read by owner initialization: the metadata of the sender,
    /// then of each address given a role.
    pub fn prefetch_initowners(args: &Vec<RoleAddress>, auth_info: &AuthInfo) -> (r: Vec<Vec<u8>>)
        requires
            auth_info.signer_info@.len() > 0,
        ensures
            r@.len() == args@.len() + 1,
            r@[0]@ == storage_prefix(ACCOUNTS, auth_info.signer_info@[0].address@),
            forall|i: int| 0 <= i < args@.len() ==> (#[trigger] r@[i + 1])@ == storage_prefix(ACCOUNTS, args@[i].address@),
    {
        let from = auth_info.signer_info[0].address;
        let mut r: Vec<Vec<u8>> = Vec::new();
        r.push(prefix_of(ACCOUNTS, &from));
        let mut i: usize = 0;
        while i < args.len()
            invariant
                0 <= i <= args@.len(),
                r@.len() == i + 1,
                r@[0]@ == storage_prefix(ACCOUNTS, from@),
                forall|j: int| 0 <= j < i ==> (#[trigger] r@[j + 1])@ == storage_prefix(ACCOUNTS, args@[j].address@),
            decreases args@.len() - i,
        {
            r.push(prefix_of(ACCOUNTS, &args[i].address));
            i = i + 1;
        }
        r
    }

    /// Prefixes read by a mint: the metadata and balances of the recipient,
    /// then the metadata of the sender.
    pub fn prefetch_mintst(args: &MintST, auth_info: &AuthInfo) -> (r: Vec<Vec<u8>>)
        requires
            auth_info.signer_info@.len() > 0,
        ensures
            r@.len() == 3,
            r@[0]@ == storage_prefix(ACCOUNTS, args.to@),
            r@[1]@ == storage_prefix(BALANCES, args.to@),
            r@[2]@ == storage_prefix(ACCOUNTS, auth_info.signer_info@[0].address@),
    {
        let from = auth_info.signer_info[0].address;
        let mut r: Vec<Vec<u8>> = Vec::new();
        r.push(prefix_of(ACCOUNTS, &args.to));
        r.push(prefix_of(BALANCES, &args.to));
        r.push(prefix_of(ACCOUNTS, &from));
        r
    }

    /// Prefixes read by a burn: the metadata and balances of the sender.
    pub fn prefetch_burnst(auth_info: &AuthInfo) -> (r: Vec<Vec<u8>>)
        requires
            auth_info.signer_info@.len() > 0,
        ensures
            r@.len() == 2,
            r@[0]@ == storage_prefix(ACCOUNTS, auth_info.signer_info@[0].address@),
            r@[1]@ == storage_prefix(BALANCES, auth_info.signer_info@[0].address@),
    {
        let from = auth_info.signer_info[0].address;
        let mut r: Vec<Vec<u8>> = Vec::new();
        r.push(prefix_of(ACCOUNTS, &from));
        r.push(prefix_of(BALANCES, &from));
        r
    }
}

} // verus!
