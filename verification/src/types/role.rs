//! Roles of accounts.
use vstd::prelude::*;

use crate::keyed::{bytes_order, Key, Order};
use crate::types::cbor::{byte_string, DecodeError, Value};

verus! {

/// The role of an account.
///
/// The order of the variants is the order in which roles are enumerated.
#[derive(Copy, Clone, Debug, PartialEq, Eq, Structural, PartialOrd, Ord, Hash)]
pub enum Role {
    /// Proposes and votes on all actions.
    Admin,
    MintProposer,
    BurnProposer,
    WhitelistProposer,
    BlacklistProposer,
    MintVoter,
    BurnVoter,
    WhitelistVoter,
    BlacklistVoter,
    WhitelistedUser,
    BlacklistedUser,
    User,
}

/// Error.
#[derive(Debug, Clone, Copy, PartialEq, Eq, Structural)]
pub enum Error {
    MalformedRole,
}

/// The byte that encodes a role.
pub open spec fn role_byte(r: Role) -> u8 {
    match r {
        Role::Admin => 0,
        Role::MintProposer => 1,
        Role::MintVoter => 2,
        Role::BurnProposer => 3,
        Role::BurnVoter => 4,
        Role::WhitelistProposer => 5,
        Role::WhitelistVoter => 6,
        Role::BlacklistProposer => 7,
        Role::BlacklistVoter => 8,
        Role::WhitelistedUser => 9,
        Role::BlacklistedUser => 10,
        Role::User => 11,
    }
}

/// The role that a byte encodes, if any.
pub open spec fn role_from_byte(b: u8) -> Option<Role> {
    if b == 0 {
        Some(Role::Admin)
    } else if b == 1 {
        Some(Role::MintProposer)
    } else if b == 2 {
        Some(Role::MintVoter)
    } else if b == 3 {
        Some(Role::BurnProposer)
    } else if b == 4 {
        Some(Role::BurnVoter)
    } else if b == 5 {
        Some(Role::WhitelistProposer)
    } else if b == 6 {
        Some(Role::WhitelistVoter)
    } else if b == 7 {
        Some(Role::BlacklistProposer)
    } else if b == 8 {
        Some(Role::BlacklistVoter)
    } else if b == 9 {
        Some(Role::WhitelistedUser)
    } else if b == 10 {
        Some(Role::BlacklistedUser)
    } else if b == 11 {
        Some(Role::User)
    } else {
        None
    }
}

/// The name of a role.
pub open spec fn role_name(r: Role) -> Seq<char> {
    match r {
        Role::Admin => "Admin"@,
        Role::MintProposer => "MintProposer"@,
        Role::MintVoter => "MintVoter"@,
        Role::BurnProposer => "BurnProposer"@,
        Role::BurnVoter => "BurnVoter"@,
        Role::WhitelistProposer => "WhitelistProposer"@,
        Role::WhitelistVoter => "WhitelistVoter"@,
        Role::BlacklistProposer => "BlacklistProposer"@,
        Role::BlacklistVoter => "BlacklistVoter"@,
        Role::WhitelistedUser => "WhitelistedUser"@,
        Role::BlacklistedUser => "BlacklistedUser"@,
        Role::User => "User"@,
    }
}

/// The role that a CBOR value decodes to.
pub open spec fn role_decode_spec(v: Value) -> Result<Role, DecodeError> {
    match byte_string(v) {
        Some(b) => if b.len() == Role::ROLE_SIZE {
            match role_from_byte(b[0]) {
                Some(r) => Ok(r),
                None => Err(DecodeError::UnexpectedType),
            }
        } else {
            Err(DecodeError::UnexpectedType)
        },
        None => Err(DecodeError::UnexpectedType),
    }
}

/// Decoding the byte of a role gives the role back.
pub proof fn lemma_role_byte_roundtrip(r: Role)
    ensures
        role_from_byte(role_byte(r)) == Some(r),
{
}

/// Each byte that decodes to a role is the byte of that role.
pub proof fn lemma_role_byte_unique(b: u8)
    ensures
        role_from_byte(b) matches Some(r) ==> role_byte(r) == b,
        role_from_byte(b) is Some <==> b < 12,
{
}

/// Decoding the CBOR encoding of a role gives the role back.
pub proof fn lemma_role_cbor_roundtrip(r: Role, v: Value)
    requires
        byte_string(v) == Some(seq![role_byte(r)]),
    ensures
        role_decode_spec(v) == Ok::<Role, DecodeError>(r),
{
}

impl Role {
    /// Number of bytes of an encoded role.
    pub const ROLE_SIZE: usize = 1;

    /// Encodes the role as bytes.
    pub fn marshal_binary(&self) -> (r: [u8; 1])
        ensures
            r@ == seq![role_byte(*self)],
    {
        let mut data = [0u8; 1];
        match self {
            Role::Admin => data[0] = 0,
            Role::MintProposer => data[0] = 1,
            Role::MintVoter => data[0] = 2,
            Role::BurnProposer => data[0] = 3,
            Role::BurnVoter => data[0] = 4,
            Role::WhitelistProposer => data[0] = 5,
            Role::WhitelistVoter => data[0] = 6,
            Role::BlacklistProposer => data[0] = 7,
            Role::BlacklistVoter => data[0] = 8,
            Role::WhitelistedUser => data[0] = 9,
            Role::BlacklistedUser => data[0] = 10,
            Role::User => data[0] = 11,
        }
        assert(data@ =~= seq![role_byte(*self)]);
        data
    }

    /// The name of the role.
    pub fn to_string(&self) -> (r: String)
        ensures
            r@ == role_name(*self),
    {
        match self {
            Role::Admin => String::from_str("Admin"),
            Role::MintProposer => String::from_str("MintProposer"),
            Role::MintVoter => String::from_str("MintVoter"),
            Role::BurnProposer => String::from_str("BurnProposer"),
            Role::BurnVoter => String::from_str("BurnVoter"),
            Role::WhitelistProposer => String::from_str("WhitelistProposer"),
            Role::WhitelistVoter => String::from_str("WhitelistVoter"),
            Role::BlacklistProposer => String::from_str("BlacklistProposer"),
            Role::BlacklistVoter => String::from_str("BlacklistVoter"),
            Role::WhitelistedUser => String::from_str("WhitelistedUser"),
            Role::BlacklistedUser => String::from_str("BlacklistedUser"),
            Role::User => String::from_str("User"),
        }
    }

    /// Tries to create a new role from raw bytes.
    pub fn from_bytes(data: &[u8]) -> (r: Result<Self, Error>)
        ensures
            r is Ok <==> data@.len() == Role::ROLE_SIZE && role_from_byte(data@[0]) is Some,
            r matches Ok(role) ==> role_from_byte(data@[0]) == Some(role),
            r matches Err(e) ==> e == Error::MalformedRole,
    {
        if data.len() != Self::ROLE_SIZE {
            return Err(Error::MalformedRole);
        }
        Self::from_byte(data[0])
    }

    fn from_byte(b: u8) -> (r: Result<Self, Error>)
        ensures
            match role_from_byte(b) {
                Some(role) => r == Ok::<Role, Error>(role),
                None => r == Err::<Role, Error>(Error::MalformedRole),
            },
    {
        match b {
            0 => Ok(Role::Admin),
            1 => Ok(Role::MintProposer),
            2 => Ok(Role::MintVoter),
            3 => Ok(Role::BurnProposer),
            4 => Ok(Role::BurnVoter),
            5 => Ok(Role::WhitelistProposer),
            6 => Ok(Role::WhitelistVoter),
            7 => Ok(Role::BlacklistProposer),
            8 => Ok(Role::BlacklistVoter),
            9 => Ok(Role::WhitelistedUser),
            10 => Ok(Role::BlacklistedUser),
            11 => Ok(Role::User),
            _ => Err(Error::MalformedRole),
        }
    }

    /// Tries to create a role from raw bytes.
    pub fn try_from(bytes: &[u8]) -> (r: Result<Self, Error>)
        ensures
            r is Ok <==> bytes@.len() == Role::ROLE_SIZE && role_from_byte(bytes@[0]) is Some,
            r matches Ok(role) ==> role_from_byte(bytes@[0]) == Some(role),
            r matches Err(e) ==> e == Error::MalformedRole,
    {
        Self::from_bytes(bytes)
    }


    /// Encodes the role as a CBOR byte string of its byte.
    pub fn into_cbor_value(self) -> (r: Value)
        ensures
            byte_string(r) == Some(seq![role_byte(self)]),
    {
        let b = self.marshal_binary();
        let mut v: Vec<u8> = Vec::new();
        v.push(b[0]);
        assert(v@ =~= seq![role_byte(self)]);
        Value::ByteString(v)
    }

    /// Decodes a role from a CBOR byte string holding its byte.
    pub fn try_from_cbor_value(value: Value) -> (r: Result<Self, DecodeError>)
        ensures
            r == role_decode_spec(value),
    {
        match value {
            Value::ByteString(bytes) => {
                if bytes.len() == Role::ROLE_SIZE {
                    match Self::from_byte(bytes[0]) {
                        Ok(role) => Ok(role),
                        Err(_) => Err(DecodeError::UnexpectedType),
                    }
                } else {
                    Err(DecodeError::UnexpectedType)
                }
            },
            _ => Err(DecodeError::UnexpectedType),
        }
    }

    /// Role equality.
    pub fn equals(&self, other: &Role) -> (r: bool)
        ensures
            r == (*self == *other),
    {
        *self == *other
    }
}

impl Key for Role {
    open spec fn key_bytes(&self) -> Seq<u8> {
        seq![role_byte(*self)]
    }

    fn key_order(&self, other: &Self) -> (r: Order) {
        let a = self.marshal_binary();
        let b = other.marshal_binary();
        bytes_order(a.as_slice(), b.as_slice())
    }
}


impl Default for Role {
    fn default() -> (r: Self)
        ensures
            r == Role::User,
    {
        Role::User
    }
}

} // verus!
