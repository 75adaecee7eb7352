//! Proposal states and proposal metadata.
use vstd::prelude::*;

use crate::types::cbor::{byte_string, DecodeError, Value};

verus! {

/// Error.
#[derive(Debug, Clone, PartialEq, Eq)]
pub enum Error {
    UnexpectedValue,
    UnexpectedType,
    Overflow,
    MalformedValue(String),
}

/// The state of a proposal.
#[derive(Clone, Copy, Debug, PartialEq, Eq, Structural)]
pub enum ProposalState {
    Active,
    Passed,
    Rejected,
    Expired,
    Cancelled,
}

/// The byte that encodes a proposal state.
pub open spec fn state_byte(s: ProposalState) -> u8 {
    match s {
        ProposalState::Active => 0,
        ProposalState::Passed => 1,
        ProposalState::Rejected => 2,
        ProposalState::Expired => 3,
        ProposalState::Cancelled => 4,
    }
}

/// The name of a proposal state.
pub open spec fn state_name(s: ProposalState) -> Seq<char> {
    match s {
        ProposalState::Active => "Active"@,
        ProposalState::Passed => "Passed"@,
        ProposalState::Rejected => "Rejected"@,
        ProposalState::Expired => "Expired"@,
        ProposalState::Cancelled => "Cancelled"@,
    }
}

/// The proposal state that a CBOR value decodes to.
pub open spec fn state_decode_spec(v: Value) -> Result<ProposalState, DecodeError> {
    match byte_string(v) {
        Some(b) => if b.len() == 1 {
            if b[0] == 0 {
                Ok(ProposalState::Active)
            } else if b[0] == 1 {
                Ok(ProposalState::Passed)
            } else if b[0] == 2 {
                Ok(ProposalState::Rejected)
            } else if b[0] == 3 {
                Ok(ProposalState::Expired)
            } else if b[0] == 4 {
                Ok(ProposalState::Cancelled)
            } else {
                Err(DecodeError::UnexpectedType)
            }
        } else {
            Err(DecodeError::UnexpectedType)
        },
        None => Err(DecodeError::UnexpectedType),
    }
}

/// Decoding the CBOR encoding of a proposal state gives the state back.
pub proof fn lemma_state_cbor_roundtrip(s: ProposalState, v: Value)
    requires
        byte_string(v) == Some(seq![state_byte(s)]),
    ensures
        state_decode_spec(v) == Ok::<ProposalState, DecodeError>(s),
{
}

impl ProposalState {
    const PROPOSAL_STATE_SIZE: usize = 1;

    /// Encodes the state as bytes.
    pub fn marshal_binary(&self) -> (r: [u8; 1])
        ensures
            r@ == seq![state_byte(*self)],
    {
        let mut data = [0u8; 1];
        match self {
            ProposalState::Active => data[0] = 0,
            ProposalState::Passed => data[0] = 1,
            ProposalState::Rejected => data[0] = 2,
            ProposalState::Expired => data[0] = 3,
            ProposalState::Cancelled => data[0] = 4,
        }
        assert(data@ =~= seq![state_byte(*self)]);
        data
    }

    /// The name of the state.
    pub fn to_string(&self) -> (r: String)
        ensures
            r@ == state_name(*self),
    {
        match self {
            ProposalState::Active => String::from_str("Active"),
            ProposalState::Passed => String::from_str("Passed"),
            ProposalState::Rejected => String::from_str("Rejected"),
            ProposalState::Expired => String::from_str("Expired"),
            ProposalState::Cancelled => String::from_str("Cancelled"),
        }
    }


    /// Encodes the state as a CBOR byte string of its byte.
    pub fn into_cbor_value(self) -> (r: Value)
        ensures
            byte_string(r) == Some(seq![state_byte(self)]),
    {
        let b = self.marshal_binary();
        let mut v: Vec<u8> = Vec::new();
        v.push(b[0]);
        assert(v@ =~= seq![state_byte(self)]);
        Value::ByteString(v)
    }

    /// Decodes a state from a CBOR byte string holding its byte.
    pub fn try_from_cbor_value(value: Value) -> (r: Result<Self, DecodeError>)
        ensures
            r == state_decode_spec(value),
    {
        match value {
            Value::ByteString(bytes) => {
                if bytes.len() == ProposalState::PROPOSAL_STATE_SIZE {
                    let b = bytes[0];
                    if b == 0 {
                        Ok(ProposalState::Active)
                    } else if b == 1 {
                        Ok(ProposalState::Passed)
                    } else if b == 2 {
                        Ok(ProposalState::Rejected)
                    } else if b == 3 {
                        Ok(ProposalState::Expired)
                    } else if b == 4 {
                        Ok(ProposalState::Cancelled)
                    } else {
                        Err(DecodeError::UnexpectedType)
                    }
                } else {
                    Err(DecodeError::UnexpectedType)
                }
            },
            _ => Err(DecodeError::UnexpectedType),
        }
    }
}

/// Maximum length of proposal metadata.
pub const MAX_META: usize = 64;

/// Proposal metadata, such as a sequence number of a mint or burn.
#[derive(Copy, Clone, Debug, PartialEq, Eq, PartialOrd, Ord, Hash)]
pub struct Meta(pub [u8; MAX_META]);

impl Meta {
    /// Metadata of zero bytes.
    pub fn default() -> (r: Self)
        ensures
            forall|i: int| 0 <= i < MAX_META ==> r.0@[i] == 0,
    {
        Meta([0u8; MAX_META])
    }

    /// Encodes the metadata as a CBOR byte string of all its bytes.
    pub fn into_cbor_value(self) -> (r: Value)
        ensures
            byte_string(r) == Some(self.0@),
    {
        let mut v: Vec<u8> = Vec::new();
        let mut i: usize = 0;
        while i < MAX_META
            invariant
                0 <= i <= MAX_META,
                v@ =~= self.0@.subrange(0, i as int),
            decreases MAX_META - i,
        {
            v.push(self.0[i]);
            i = i + 1;
        }
        assert(v@ =~= self.0@);
        Value::ByteString(v)
    }

    /// Decodes metadata from a CBOR byte string of at most `MAX_META` bytes,
    /// padded with zero bytes; any other value is refused.
    pub fn try_from_cbor_value(value: Value) -> (r: Result<Self, DecodeError>)
        ensures
            match byte_string(value) {
                Some(b) => if b.len() <= MAX_META {
                    r matches Ok(m) && m.0@ == b + Seq::new((MAX_META - b.len()) as nat, |i: int| 0u8)
                } else {
                    r == Err::<Meta, DecodeError>(DecodeError::UnexpectedType)
                },
                None => r == Err::<Meta, DecodeError>(DecodeError::UnexpectedType),
            },
    {
        match value {
            Value::ByteString(bytes) => {
                if bytes.len() > MAX_META {
                    return Err(DecodeError::UnexpectedType);
                }
                let mut buf = [0u8; MAX_META];
                let mut i: usize = 0;
                while i < bytes.len()
                    invariant
                        bytes@.len() <= MAX_META,
                        0 <= i <= bytes@.len(),
                        forall|j: int| 0 <= j < i ==> buf@[j] == bytes@[j],
                        forall|j: int| bytes@.len() <= j < MAX_META ==> buf@[j] == 0,
                    decreases bytes@.len() - i,
                {
                    buf[i] = bytes[i];
                    i = i + 1;
                }
                assert(buf@ =~= bytes@ + Seq::new((MAX_META - bytes@.len()) as nat, |i: int| 0u8));
                Ok(Meta(buf))
            },
            _ => Err(DecodeError::UnexpectedType),
        }
    }
}


impl Default for ProposalState {
    fn default() -> (r: Self)
        ensures
            r == ProposalState::Active,
    {
        ProposalState::Active
    }
}

} // verus!
