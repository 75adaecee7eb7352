//! The shapes of CBOR values that the types of this crate encode into and
//! decode from.
use vstd::prelude::*;

verus! {

/// Simple values of CBOR.
#[derive(Clone, Copy, Debug, PartialEq, Eq)]
pub enum SimpleValue {
    FalseValue,
    TrueValue,
    NullValue,
    Undefined,
}

/// A CBOR value.
#[derive(Debug)]
pub enum Value {
    Unsigned(u64),
    Negative(i64),
    ByteString(Vec<u8>),
    TextString(String),
    Array(Vec<Value>),
    Mapping(Vec<(Value, Value)>),
    Tag(u64, Box<Value>),
    Simple(SimpleValue),
}

/// Error of decoding a value from CBOR.
#[derive(Clone, Copy, Debug, PartialEq, Eq)]
pub enum DecodeError {
    UnexpectedType,
}

/// The bytes of a byte-string value.
pub open spec fn byte_string(v: Value) -> Option<Seq<u8>> {
    match v {
        Value::ByteString(b) => Some(b@),
        _ => None,
    }
}

} // verus!
