//! Votes and the actions that proposals carry.
use vstd::prelude::*;

use crate::types::cbor::{byte_string, DecodeError, Value};

verus! {

/// A vote on a proposal.
#[derive(Copy, Clone, Debug, PartialEq, Eq, Structural, Hash)]
pub enum Vote {
    VoteYes,
    VoteNo,
    VoteAbstain,
}

/// The number that encodes a vote.
pub open spec fn vote_number(v: Vote) -> u8 {
    match v {
        Vote::VoteYes => 0,
        Vote::VoteNo => 1,
        Vote::VoteAbstain => 2,
    }
}

/// The vote that a CBOR value decodes to.
pub open spec fn vote_decode_spec(v: Value) -> Result<Vote, DecodeError> {
    match v {
        Value::Unsigned(u) => if u == 0 {
            Ok(Vote::VoteYes)
        } else if u == 1 {
            Ok(Vote::VoteNo)
        } else if u == 2 {
            Ok(Vote::VoteAbstain)
        } else {
            Err(DecodeError::UnexpectedType)
        },
        _ => Err(DecodeError::UnexpectedType),
    }
}

/// Decoding the CBOR encoding of a vote gives the vote back.
pub proof fn lemma_vote_cbor_roundtrip(x: Vote)
    ensures
        vote_decode_spec(Value::Unsigned(vote_number(x) as u64)) == Ok::<Vote, DecodeError>(x),
{
}

impl Vote {
    /// The number that encodes the vote.
    pub fn to_u8(&self) -> (r: u8)
        ensures
            r == vote_number(*self),
    {
        match self {
            Vote::VoteYes => 0,
            Vote::VoteNo => 1,
            Vote::VoteAbstain => 2,
        }
    }


    /// Encodes the vote as an unsigned CBOR integer.
    pub fn into_cbor_value(self) -> (r: Value)
        ensures
            r == Value::Unsigned(vote_number(self) as u64),
    {
        Value::Unsigned(self.to_u8() as u64)
    }

    /// Decodes a vote from an unsigned CBOR integer.
    pub fn try_from_cbor_value(value: Value) -> (r: Result<Self, DecodeError>)
        ensures
            r == vote_decode_spec(value),
    {
        match value {
            Value::Unsigned(u) => {
                if u == 0 {
                    Ok(Vote::VoteYes)
                } else if u == 1 {
                    Ok(Vote::VoteNo)
                } else if u == 2 {
                    Ok(Vote::VoteAbstain)
                } else {
                    Err(DecodeError::UnexpectedType)
                }
            },
            _ => Err(DecodeError::UnexpectedType),
        }
    }
}

/// The action that a proposal carries out.
#[derive(Copy, Clone, Debug, PartialEq, Eq, Structural, PartialOrd, Ord, Hash)]
pub enum Action {
    NoAction,
    SetRoles,
    Mint,
    Burn,
    Whitelist,
    Blacklist,
    Config,
}

/// The byte that encodes an action.
pub open spec fn action_byte(a: Action) -> u8 {
    match a {
        Action::NoAction => 0,
        Action::SetRoles => 1,
        Action::Mint => 2,
        Action::Burn => 3,
        Action::Whitelist => 4,
        Action::Blacklist => 5,
        Action::Config => 6,
    }
}

/// The action that a byte encodes, if any.
pub open spec fn action_from_byte(b: u8) -> Option<Action> {
    if b == 0 {
        Some(Action::NoAction)
    } else if b == 1 {
        Some(Action::SetRoles)
    } else if b == 2 {
        Some(Action::Mint)
    } else if b == 3 {
        Some(Action::Burn)
    } else if b == 4 {
        Some(Action::Whitelist)
    } else if b == 5 {
        Some(Action::Blacklist)
    } else if b == 6 {
        Some(Action::Config)
    } else {
        None
    }
}

/// The action that a CBOR value decodes to.
pub open spec fn action_decode_spec(v: Value) -> Result<Action, DecodeError> {
    match byte_string(v) {
        Some(b) => if b.len() == 1 {
            match action_from_byte(b[0]) {
                Some(a) => Ok(a),
                None => Err(DecodeError::UnexpectedType),
            }
        } else {
            Err(DecodeError::UnexpectedType)
        },
        None => Err(DecodeError::UnexpectedType),
    }
}

/// Decoding the CBOR encoding of an action gives the action back.
pub proof fn lemma_action_cbor_roundtrip(a: Action, v: Value)
    requires
        byte_string(v) == Some(seq![action_byte(a)]),
    ensures
        action_decode_spec(v) == Ok::<Action, DecodeError>(a),
{
}

impl Action {
    /// Number of bytes of an encoded action.
    pub const ACT_SIZE: usize = 1;

    /// Encodes the action as bytes.
    pub fn marshal_binary(&self) -> (r: [u8; 1])
        ensures
            r@ == seq![action_byte(*self)],
    {
        let r = match self {
            Action::NoAction => [0u8],
            Action::SetRoles => [1u8],
            Action::Mint => [2u8],
            Action::Burn => [3u8],
            Action::Whitelist => [4u8],
            Action::Blacklist => [5u8],
            Action::Config => [6u8],
        };
        assert(r@ =~= seq![action_byte(*self)]);
        r
    }


    /// Encodes the action as a CBOR byte string of its byte.
    pub fn into_cbor_value(self) -> (r: Value)
        ensures
            byte_string(r) == Some(seq![action_byte(self)]),
    {
        let b = self.marshal_binary();
        let mut v: Vec<u8> = Vec::new();
        v.push(b[0]);
        assert(v@ =~= seq![action_byte(self)]);
        Value::ByteString(v)
    }

    /// Decodes an action from a CBOR byte string holding its byte.
    pub fn try_from_cbor_value(value: Value) -> (r: Result<Self, DecodeError>)
        ensures
            r == action_decode_spec(value),
    {
        match value {
            Value::ByteString(bytes) => {
                if bytes.len() == Action::ACT_SIZE {
                    let b = bytes[0];
                    if b == 0 {
                        Ok(Action::NoAction)
                    } else if b == 1 {
                        Ok(Action::SetRoles)
                    } else if b == 2 {
                        Ok(Action::Mint)
                    } else if b == 3 {
                        Ok(Action::Burn)
                    } else if b == 4 {
                        Ok(Action::Whitelist)
                    } else if b == 5 {
                        Ok(Action::Blacklist)
                    } else if b == 6 {
                        Ok(Action::Config)
                    } else {
                        Err(DecodeError::UnexpectedType)
                    }
                } else {
                    Err(DecodeError::UnexpectedType)
                }
            },
            _ => Err(DecodeError::UnexpectedType),
        }
    }
}


impl Default for Vote {
    fn default() -> (r: Self)
        ensures
            r == Vote::VoteAbstain,
    {
        Vote::VoteAbstain
    }
}


impl Default for Action {
    fn default() -> (r: Self)
        ensures
            r == Action::NoAction,
    {
        Action::NoAction
    }
}

} // verus!
