//! The EVM module: how the outcome of an EVM run becomes a result or a
//! readable error, the conversions between 256-bit words and token amounts,
//! the calls of the deposit/withdrawal contract, and the window of historic
//! block hashes.
use vstd::prelude::*;

use crate::context::{local_config_spec, Mode};
use crate::modules::accounts::auth::{gas_price_of, move_from_outcome, Fee};
use crate::modules::accounts::handlers::{gas_error, gas_fits};
use crate::modules::accounts::voting::paid;
use crate::modules::accounts::{transfer_outcome, AccountsContext};
use crate::types::address::Address;
use crate::types::token::{BaseUnits, Denomination};
use crate::keyed::{bytes_order, Key, KvStore, Order};
use crate::modules::core_module::Error as CoreError;

pub mod messages;
pub mod settle;
pub mod u256;

verus! {

/// Unique module name.
pub const MODULE_NAME: &'static str = "evm";

/// The number of recent blocks whose hashes are kept.
pub const BLOCK_HASH_WINDOW_SIZE: u64 = 256;

/// Address of the system account that calls the deposit/withdrawal contract.
pub const DW_SYSTEM_ADDRESS: [u8; 20] = [
    0x05, 0x2c, 0xc6, 0x47, 0xe1, 0x36, 0xc8, 0x5e, 0xd9, 0xf6, 0xbf, 0x5d, 0xbb, 0x5e, 0x79, 0x95,
    0x2b, 0xe0, 0x49, 0x9f,
];

/// Address of the deposit/withdrawal contract.
pub const DW_CONTRACT_ADDRESS: [u8; 20] = [
    0xbe, 0x75, 0xfd, 0xe9, 0xde, 0xde, 0x70, 0x06, 0x35, 0xe3, 0xdd, 0xbe, 0x7e, 0x29, 0xb5, 0xdb,
    0x1a, 0x76, 0xc1, 0x25,
];

/// Function selector of `Error(string)`, which starts a revert reason.
pub const ERROR_STRING_SELECTOR: [u8; 4] = [0x08, 0xc3, 0x79, 0xa0];

/// Largest revert reason (and raw revert data shown) in bytes.
pub const MAX_REASON_SIZE: usize = 1024;

/// Errors emitted by the EVM module.
#[derive(Debug, Clone, PartialEq, Eq)]
pub enum Error {
    InvalidArgument,
    ExecutionFailed(String),
    InvalidSignerType,
    FeeOverflow,
    GasLimitTooLow(u64),
    InsufficientBalance,
    Forbidden,
    Reverted(String),
    SimulationTooExpensive(u64),
    InvalidSignedSimulateCall(String),
    Core(CoreError),
}

/// How an EVM run succeeded.
#[derive(Debug, Clone, Copy, PartialEq, Eq)]
pub enum ExitSucceed {
    Stopped,
    Returned,
    Suicided,
}

/// How an EVM run failed in a way the contract caused.
#[derive(Debug, Clone, PartialEq, Eq)]
pub enum ExitError {
    StackUnderflow,
    StackOverflow,
    InvalidJump,
    InvalidRange,
    DesignatedInvalid,
    CallTooDeep,
    CreateCollision,
    CreateContractLimit,
    /// An invalid opcode.
    InvalidCode(u8),
    OutOfOffset,
    OutOfGas,
    OutOfFund,
    PCUnderflow,
    CreateEmpty,
    Other(String),
}

/// How an EVM run failed fatally.
#[derive(Debug, Clone, PartialEq, Eq)]
pub enum ExitFatal {
    NotSupported,
    UnhandledInterrupt,
    CallErrorAsFatal(ExitError),
    Other(String),
}

/// Why an EVM run ended.
#[derive(Debug, Clone, PartialEq, Eq)]
pub enum ExitReason {
    Succeed(ExitSucceed),
    Error(ExitError),
    /// The contract reverted.
    Revert,
    Fatal(ExitFatal),
}

/// The message of an EVM error that has a fixed one.
pub open spec fn exit_error_message(e: ExitError) -> Seq<char> {
    match e {
        ExitError::StackUnderflow => "stack underflow"@,
        ExitError::StackOverflow => "stack overflow"@,
        ExitError::InvalidJump => "invalid jump"@,
        ExitError::InvalidRange => "invalid range"@,
        ExitError::DesignatedInvalid => "designated invalid"@,
        ExitError::CallTooDeep => "call too deep"@,
        ExitError::CreateCollision => "create collision"@,
        ExitError::CreateContractLimit => "create contract limit"@,
        ExitError::InvalidCode(_) => "invalid code"@,
        ExitError::OutOfOffset => "out of offset"@,
        ExitError::OutOfGas => "out of gas"@,
        ExitError::OutOfFund => "out of funds"@,
        ExitError::PCUnderflow => "PC underflow"@,
        ExitError::CreateEmpty => "create empty"@,
        ExitError::Other(msg) => msg@,
    }
}

/// The message of a fatal EVM error.
pub open spec fn exit_fatal_message(e: ExitFatal) -> Seq<char> {
    match e {
        ExitFatal::NotSupported => "not supported"@,
        ExitFatal::UnhandledInterrupt => "unhandled interrupt"@,
        ExitFatal::CallErrorAsFatal(err) => exit_error_message(err),
        ExitFatal::Other(msg) => msg@,
    }
}

impl Error {
    /// The module error for an EVM error: execution failed, with its message.
    pub fn from_exit_error(e: ExitError) -> (r: Error)
        ensures
            r matches Error::ExecutionFailed(s) && s@ == exit_error_message(e),
    {
        let msg = match e {
            ExitError::StackUnderflow => "stack underflow",
            ExitError::StackOverflow => "stack overflow",
            ExitError::InvalidJump => "invalid jump",
            ExitError::InvalidRange => "invalid range",
            ExitError::DesignatedInvalid => "designated invalid",
            ExitError::CallTooDeep => "call too deep",
            ExitError::CreateCollision => "create collision",
            ExitError::CreateContractLimit => "create contract limit",
            ExitError::InvalidCode(_) => "invalid code",
            ExitError::OutOfOffset => "out of offset",
            ExitError::OutOfGas => "out of gas",
            ExitError::OutOfFund => "out of funds",
            ExitError::PCUnderflow => "PC underflow",
            ExitError::CreateEmpty => "create empty",
            ExitError::Other(msg) => {
                return Error::ExecutionFailed(msg);
            },
        };
        Error::ExecutionFailed(String::from_str(msg))
    }

    /// The module error for a fatal EVM error: execution failed, with its
    /// message (a call error turned fatal keeps the call error's).
    pub fn from_exit_fatal(e: ExitFatal) -> (r: Error)
        ensures
            r matches Error::ExecutionFailed(s) && s@ == exit_fatal_message(e),
    {
        let msg = match e {
            ExitFatal::NotSupported => "not supported",
            ExitFatal::UnhandledInterrupt => "unhandled interrupt",
            ExitFatal::CallErrorAsFatal(err) => {
                return Error::from_exit_error(err);
            },
            ExitFatal::Other(msg) => {
                return Error::ExecutionFailed(msg);
            },
        };
        Error::ExecutionFailed(String::from_str(msg))
    }
}

/// The character of the six-bit value `v` in the standard base64 alphabet.
pub open spec fn base64_char(v: int) -> char {
    if v < 26 {
        (65 + v) as char
    } else if v < 52 {
        (97 + v - 26) as char
    } else if v < 62 {
        (48 + v - 52) as char
    } else if v == 62 {
        '+'
    } else {
        '/'
    }
}

/// Standard base64 with padding: each three bytes become four characters
/// of six bits each; a last one or two bytes become two or three
/// characters, padded with `=` to four.
pub open spec fn base64_standard(d: Seq<u8>) -> Seq<char>
    decreases d.len(),
{
    if d.len() == 0 {
        Seq::empty()
    } else if d.len() == 1 {
        let n = d[0] as int * 65536;
        seq![base64_char(n / 262144), base64_char(n / 4096 % 64), '=', '=']
    } else if d.len() == 2 {
        let n = d[0] as int * 65536 + d[1] as int * 256;
        seq![base64_char(n / 262144), base64_char(n / 4096 % 64), base64_char(n / 64 % 64), '=']
    } else {
        let n = d[0] as int * 65536 + d[1] as int * 256 + d[2] as int;
        seq![
            base64_char(n / 262144),
            base64_char(n / 4096 % 64),
            base64_char(n / 64 % 64),
            base64_char(n % 64),
        ] + base64_standard(d.skip(3))
    }
}

/// What `String::from_utf8_lossy` makes of `data`.
pub uninterp spec fn spec_utf8_lossy(data: Seq<u8>) -> Seq<char>;

/// Calls `base64::encode`. Claims: the result is the standard padded
/// base64 of `data` (see `base64_standard`).
#[verifier::external_body]
fn base64_encode(data: &[u8]) -> (r: String)
    ensures
        r@ == base64_standard(data@),
{
    base64::encode(data)
}

/// Calls `String::from_utf8_lossy`. Claims: the result is named by
/// `spec_utf8_lossy`, and it decodes bytes that are valid UTF-8 exactly
/// (only invalid sequences become replacement characters).
#[verifier::external_body]
fn utf8_lossy(data: &[u8]) -> (r: String)
    ensures
        r@ == spec_utf8_lossy(data@),
        vstd::utf8::valid_utf8(data@) ==> r@ == vstd::utf8::decode_utf8(data@),
{
    String::from_utf8_lossy(data).to_string()
}

/// The 32-bit number that big-endian bytes `b` (four of them) make.
pub open spec fn be_u32(b: Seq<u8>) -> int {
    ((b[0] as int * 256 + b[1] as int) * 256 + b[2] as int) * 256 + b[3] as int
}

/// The revert data `data` shown in an error: at most its first
/// `MAX_REASON_SIZE` bytes, in base64.
pub open spec fn shown_data(data: Seq<u8>) -> Seq<char> {
    base64_standard(
        data.take(
            if data.len() > MAX_REASON_SIZE {
                MAX_REASON_SIZE as int
            } else {
                data.len() as int
            },
        ),
    )
}

/// The reason bytes of revert data `data`, where it is an `Error(string)`
/// reason (the selector, an offset word and a length word whose low four
/// bytes give the length, then that many bytes): those bytes, cut to
/// `MAX_REASON_SIZE`; `None` where the data is no such reason.
pub open spec fn revert_reason_bytes(data: Seq<u8>) -> Option<Seq<u8>> {
    if data.len() < 68 || data.take(4) != ERROR_STRING_SELECTOR@ {
        None
    } else {
        let length = be_u32(data.subrange(64, 68));
        if 68 + length > data.len() {
            None
        } else {
            let cut = if length > MAX_REASON_SIZE {
                MAX_REASON_SIZE as int
            } else {
                length
            };
            Some(data.subrange(68, 68 + cut))
        }
    }
}

/// The error of a reverted run with return data `data`: where the data is
/// an `Error(string)` reason (see `revert_reason_bytes`), the reason, read
/// as UTF-8; otherwise a message showing the data.
pub open spec fn revert_error(data: Seq<u8>) -> Seq<char> {
    if data.len() == 0 {
        "no revert reason"@
    } else if data.len() < 68 || data.take(4) != ERROR_STRING_SELECTOR@ {
        "invalid reason prefix: '"@ + shown_data(data) + "'"@
    } else {
        match revert_reason_bytes(data) {
            Some(b) => spec_utf8_lossy(b),
            None => "invalid reason length: '"@ + shown_data(data) + "'"@,
        }
    }
}

/// A reason whose bytes are valid UTF-8 reads as those characters.
pub open spec fn reason_reads_as_utf8(data: Seq<u8>, reason: Seq<char>) -> bool {
    match revert_reason_bytes(data) {
        Some(b) => vstd::utf8::valid_utf8(b) ==> reason == vstd::utf8::decode_utf8(b),
        None => true,
    }
}

/// What a run that ended with `exit_reason` and returned `data` gives: the
/// data where it succeeded; the reason where it reverted (see
/// `revert_error`); the message of an EVM error or a fatal one.
pub open spec fn evm_result(exit_reason: ExitReason, data: Seq<u8>, r: Result<Vec<u8>, Error>) -> bool {
    match exit_reason {
        ExitReason::Succeed(_) => r matches Ok(v) && v@ == data,
        ExitReason::Revert => r matches Err(Error::Reverted(s)) && s@ == revert_error(data)
            && reason_reads_as_utf8(data, s@),
        ExitReason::Error(e) => r matches Err(Error::ExecutionFailed(s)) && s@ == exit_error_message(e),
        ExitReason::Fatal(e) => r matches Err(Error::ExecutionFailed(s)) && s@ == exit_fatal_message(e),
    }
}

/// Turns the outcome of an EVM run into its return data, or a readable
/// error: a revert gives its reason (see `revert_error`), an EVM error or a
/// fatal one its message.
pub fn process_evm_result(exit_reason: ExitReason, data: Vec<u8>) -> (r: Result<Vec<u8>, Error>)
    ensures
        exit_reason is Succeed ==> r == Ok::<Vec<u8>, Error>(data),
        evm_result(exit_reason, data@, r),
{
    match exit_reason {
        ExitReason::Succeed(_) => Ok(data),
        ExitReason::Revert => Err(Error::Reverted(revert_reason(&data))),
        ExitReason::Error(err) => Err(Error::from_exit_error(err)),
        ExitReason::Fatal(err) => Err(Error::from_exit_fatal(err)),
    }
}

/// The reason of a reverted run with return data `data` (see
/// `revert_error`).
fn revert_reason(data: &Vec<u8>) -> (r: String)
    ensures
        r@ == revert_error(data@),
        reason_reads_as_utf8(data@, r@),
{
    if data.len() == 0 {
        return String::from_str("no revert reason");
    }
    let max_raw_len: usize = if data.len() > MAX_REASON_SIZE {
        MAX_REASON_SIZE
    } else {
        data.len()
    };
    let starts = data.len() >= 4 && data[0] == ERROR_STRING_SELECTOR[0] && data[1]
        == ERROR_STRING_SELECTOR[1] && data[2] == ERROR_STRING_SELECTOR[2] && data[3]
        == ERROR_STRING_SELECTOR[3];
    proof {
        if data@.len() >= 4 {
            assert(starts <==> data@.take(4) =~= ERROR_STRING_SELECTOR@);
        }
    }
    if data.len() < 68 || !starts {
        let shown = base64_encode(slice_prefix(data.as_slice(), max_raw_len).as_slice());
        let mut msg = String::from_str("invalid reason prefix: '");
        msg.append(shown.as_str());
        msg.append("'");
        return msg;
    }
    let length: u64 = (((data[64] as u64) * 256 + (data[65] as u64)) * 256 + (data[66] as u64)) * 256
        + (data[67] as u64);
    proof {
        assert(data@.subrange(64, 68)[0] == data@[64]);
        assert(data@.subrange(64, 68)[1] == data@[65]);
        assert(data@.subrange(64, 68)[2] == data@[66]);
        assert(data@.subrange(64, 68)[3] == data@[67]);
    }
    if 68 + length > data.len() as u64 {
        let shown = base64_encode(slice_prefix(data.as_slice(), max_raw_len).as_slice());
        let mut msg = String::from_str("invalid reason length: '");
        msg.append(shown.as_str());
        msg.append("'");
        return msg;
    }
    let cut: usize = if length > MAX_REASON_SIZE as u64 {
        MAX_REASON_SIZE
    } else {
        length as usize
    };
    let reason_bytes = slice_range(data.as_slice(), 68, 68 + cut);
    utf8_lossy(reason_bytes.as_slice())
}

/// The first `n` bytes of `s`.
fn slice_prefix(s: &[u8], n: usize) -> (r: Vec<u8>)
    requires
        n <= s@.len(),
    ensures
        r@ == s@.take(n as int),
{
    slice_range(s, 0, n)
}

/// The bytes of `s` from `start` up to `end`.
fn slice_range(s: &[u8], start: usize, end: usize) -> (r: Vec<u8>)
    requires
        start <= end <= s@.len(),
    ensures
        r@ == s@.subrange(start as int, end as int),
{
    let mut v: Vec<u8> = Vec::new();
    let mut i: usize = start;
    while i < end
        invariant
            start <= i <= end,
            end <= s@.len(),
            v@ =~= s@.subrange(start as int, i as int),
        decreases end - i,
    {
        v.push(s[i]);
        i = i + 1;
    }
    v
}

/// The number that four 64-bit limbs make, least significant first.
pub open spec fn u256_value(limbs: [u64; 4]) -> int {
    limbs[0] as int + limbs[1] as int * 0x1_0000_0000_0000_0000 + limbs[2] as int
        * 0x1_0000_0000_0000_0000_0000_0000_0000_0000 + limbs[3] as int
        * 0x1_0000_0000_0000_0000_0000_0000_0000_0000_0000_0000_0000_0000
}

/// A 256-bit value (as its limbs, least significant first) as a token
/// amount: below `u128::MAX`, the value itself; otherwise the call reverts
/// with "too large value".
pub fn u256_to_u128(value: [u64; 4]) -> (r: Result<u128, Error>)
    ensures
        u256_value(value) < u128::MAX ==> r == Ok::<u128, Error>(u256_value(value) as u128),
        u256_value(value) >= u128::MAX ==> (r matches Err(Error::Reverted(s)) && s@
            == "too large value"@),
{
    let small = value[2] == 0 && value[3] == 0 && !(value[0] == u64::MAX && value[1] == u64::MAX);
    proof {
        let l0 = value[0] as int;
        let l1 = value[1] as int;
        let l2 = value[2] as int;
        let l3 = value[3] as int;
        assert(l1 * 0x1_0000_0000_0000_0000 <= (0xffff_ffff_ffff_ffffint) * 0x1_0000_0000_0000_0000) by (nonlinear_arith)
            requires
                0 <= l1 <= 0xffff_ffff_ffff_ffffint,
        ;
        assert(l2 * 0x1_0000_0000_0000_0000_0000_0000_0000_0000 >= 0) by (nonlinear_arith)
            requires
                l2 >= 0,
        ;
        assert(l3 * 0x1_0000_0000_0000_0000_0000_0000_0000_0000_0000_0000_0000_0000 >= 0) by (nonlinear_arith)
            requires
                l3 >= 0,
        ;
        assert(l2 >= 1 ==> l2 * 0x1_0000_0000_0000_0000_0000_0000_0000_0000 >= 0x1_0000_0000_0000_0000_0000_0000_0000_0000) by (nonlinear_arith);
        assert(l3 >= 1 ==> l3 * 0x1_0000_0000_0000_0000_0000_0000_0000_0000_0000_0000_0000_0000 >= 0x1_0000_0000_0000_0000_0000_0000_0000_0000) by (nonlinear_arith);
    }
    if small {
        let low: u128 = (value[1] as u128) * 0x1_0000_0000_0000_0000 + (value[0] as u128);
        Ok(low)
    } else {
        Err(Error::Reverted(String::from_str("too large value")))
    }
}

/// The big-endian 32 bytes of a token amount: sixteen zero bytes, then the
/// amount's own.
pub open spec fn u128_word(v: u128) -> Seq<u8> {
    Seq::new(32, |i: int| if i < 16 {
        0u8
    } else {
        ((v as int / pow256(31 - i)) % 256) as u8
    })
}

/// 256 to the power `k`.
pub open spec fn pow256(k: int) -> int
    decreases k,
{
    if k <= 0 {
        1
    } else {
        256 * pow256(k - 1)
    }
}

/// The number that big-endian bytes make.
pub open spec fn be_value(b: Seq<u8>) -> int
    decreases b.len(),
{
    if b.len() == 0 {
        0
    } else {
        be_value(b.drop_last()) * 256 + b.last() as int
    }
}

/// The first `k` bytes of an amount's word make the amount divided by
/// 256 for each byte left out (nothing while only its zero bytes are taken).
proof fn lemma_word_prefix(v: u128, k: int)
    requires
        0 <= k <= 32,
    ensures
        be_value(u128_word(v).take(k)) == if k <= 16 {
            0
        } else {
            v as int / pow256(32 - k)
        },
    decreases k,
{
    let w = u128_word(v);
    if k > 0 {
        lemma_word_prefix(v, k - 1);
        assert(w.take(k).drop_last() =~= w.take(k - 1));
        assert(w.take(k).last() == w[k - 1]);
        if k > 16 {
            let q = pow256(32 - k);
            lemma_pow256_positive(32 - k);
            assert(pow256(33 - k) == 256 * q);
            let x = v as int / q;
            if k == 17 {
                assert(pow256(16) == 0x1_0000_0000_0000_0000_0000_0000_0000_0000) by {
                    reveal_with_fuel(pow256, 17);
                }
                assert(v as int / pow256(16) == 0) by {
                    vstd::arithmetic::div_mod::lemma_basic_div_specific_divisor(pow256(16));
                }
            }
            assert(v as int / pow256(33 - k) == x / 256) by {
                vstd::arithmetic::div_mod::lemma_div_denominator(v as int, q, 256);
                assert(q * 256 == 256 * q);
            }
            vstd::arithmetic::div_mod::lemma_fundamental_div_mod(x, 256);
            assert(w[k - 1] == (x % 256) as u8);
        }
    }
}

/// An amount's big-endian word reads back as the amount; so, with
/// `u256_to_u128`, an amount below `u128::MAX` comes back from the 256-bit
/// value whose big-endian bytes are its word.
pub proof fn law_u128_word_round_trip(v: u128)
    ensures
        be_value(u128_word(v)) == v,
{
    lemma_word_prefix(v, 32);
    assert(u128_word(v).take(32) =~= u128_word(v));
    assert(pow256(0) == 1);
}

/// A token amount as a big-endian 256-bit word (see `u128_word`).
pub fn u128_to_h256(v: u128) -> (r: [u8; 32])
    ensures
        r@ == u128_word(v),
{
    let mut out = [0u8; 32];
    let mut rest: u128 = v;
    let mut i: usize = 32;
    while i > 16
        invariant
            16 <= i <= 32,
            rest as int == v as int / pow256(32 - i),
            forall|j: int| 0 <= j < i ==> out@[j] == 0,
            forall|j: int| i <= j < 32 ==> out@[j] == ((v as int / pow256(31 - j)) % 256) as u8,
            pow256(32 - i) > 0,
        decreases i,
    {
        i = i - 1;
        out[i] = (rest % 256) as u8;
        proof {
            assert(pow256(32 - i) == 256 * pow256(31 - i));
            let p = pow256(31 - i);
            assert((v as int / p) / 256 == v as int / (256 * p)) by (nonlinear_arith)
                requires
                    p > 0,
            ;
        }
        rest = rest / 256;
    }
    assert(out@ =~= u128_word(v));
    out
}

/// The 256-bit word with `x` in its last eight bytes, big-endian.
pub open spec fn low_u64_word(x: u64) -> Seq<u8> {
    Seq::new(32, |i: int| if i < 24 {
        0u8
    } else {
        ((x as int / pow256(31 - i)) % 256) as u8
    })
}

/// The call data of a mint (`selector` `d1a1beb4`) or burn (`76fd4fdf`) on
/// the deposit/withdrawal contract: the selector, twelve zero bytes, the
/// address, the amount word and the word of the flag of a call by the
/// system.
pub open spec fn sc_call_data(selector: Seq<u8>, address: Seq<u8>, amount: Seq<u8>, by_system: bool) -> Seq<u8> {
    selector + Seq::new(12, |i: int| 0u8) + address + amount + low_u64_word(
        if by_system {
            1
        } else {
            0
        },
    )
}

/// A call on the deposit/withdrawal contract, by the system account.
#[derive(Debug)]
pub struct ScCall {
    pub caller: [u8; 20],
    pub contract: [u8; 20],
    /// The value sent with the call (a 256-bit value, see `u256_value`).
    pub value: [u64; 4],
    pub gas_limit: u64,
    /// The gas price of the call (a 256-bit value, see `u256_value`).
    pub gas_price: [u64; 4],
    pub data: Vec<u8>,
}

/// The gas limit of a call of the deposit/withdrawal contract.
pub const SC_GAS_LIMIT: u64 = 1085479;

/// The gas price of a call of the deposit/withdrawal contract.
pub const SC_GAS_PRICE: u64 = 1000;

/// `c` is the call of the contract's function `selector` with `address`,
/// `amount` and `by_system`: from the system address to the contract, with
/// no value, the contract's gas limit and gas price, and that call data.
pub open spec fn sc_call_of(c: ScCall, selector: Seq<u8>, address: Seq<u8>, amount: Seq<u8>, by_system: bool) -> bool {
    &&& c.caller == DW_SYSTEM_ADDRESS
    &&& c.contract == DW_CONTRACT_ADDRESS
    &&& u256_value(c.value) == 0
    &&& c.gas_limit == SC_GAS_LIMIT
    &&& u256_value(c.gas_price) == SC_GAS_PRICE
    &&& c.data@ == sc_call_data(selector, address, amount, by_system)
}

/// A call of the contract's function with `data`.
fn sc_call(data: Vec<u8>) -> (r: ScCall)
    ensures
        r.caller == DW_SYSTEM_ADDRESS,
        r.contract == DW_CONTRACT_ADDRESS,
        u256_value(r.value) == 0,
        r.gas_limit == SC_GAS_LIMIT,
        u256_value(r.gas_price) == SC_GAS_PRICE,
        r.data == data,
{
    ScCall {
        caller: DW_SYSTEM_ADDRESS,
        contract: DW_CONTRACT_ADDRESS,
        value: [0, 0, 0, 0],
        gas_limit: SC_GAS_LIMIT,
        gas_price: [SC_GAS_PRICE, 0, 0, 0],
        data,
    }
}

/// What a call of the deposit/withdrawal contract comes to: nothing to run
/// (only fast checks are allowed), or a call to run in the EVM.
#[derive(Debug)]
pub enum ScCallPlan {
    Skip,
    Run(ScCall),
}

/// The selector of the contract's mint function.
pub const MINT_SELECTOR: [u8; 4] = [0xd1, 0xa1, 0xbe, 0xb4];

/// The selector of the contract's burn function.
pub const BURN_SELECTOR: [u8; 4] = [0x76, 0xfd, 0x4f, 0xdf];

/// Builds the call data of the contract's function `selector` (see
/// `sc_call_data`).
fn build_sc_call_data(selector: [u8; 4], address: &[u8; 20], amount: &[u8; 32], by_system: bool) -> (r: Vec<u8>)
    ensures
        r@ == sc_call_data(selector@, address@, amount@, by_system),
{
    let mut data: Vec<u8> = Vec::new();
    let mut i: usize = 0;
    while i < 4
        invariant
            0 <= i <= 4,
            data@ =~= selector@.take(i as int),
        decreases 4 - i,
    {
        data.push(selector[i]);
        i = i + 1;
    }
    let ghost d0 = data@;
    let mut i: usize = 0;
    while i < 12
        invariant
            0 <= i <= 12,
            data@ =~= d0 + Seq::new(i as nat, |j: int| 0u8),
        decreases 12 - i,
    {
        data.push(0);
        i = i + 1;
    }
    let ghost d1 = data@;
    let mut i: usize = 0;
    while i < 20
        invariant
            0 <= i <= 20,
            data@ =~= d1 + address@.take(i as int),
        decreases 20 - i,
    {
        data.push(address[i]);
        i = i + 1;
    }
    let ghost d2 = data@;
    let mut i: usize = 0;
    while i < 32
        invariant
            0 <= i <= 32,
            data@ =~= d2 + amount@.take(i as int),
        decreases 32 - i,
    {
        data.push(amount[i]);
        i = i + 1;
    }
    let ghost d3 = data@;
    let mut i: usize = 0;
    while i < 31
        invariant
            0 <= i <= 31,
            data@ =~= d3 + Seq::new(i as nat, |j: int| 0u8),
        decreases 31 - i,
    {
        data.push(0);
        i = i + 1;
    }
    data.push(if by_system {
        1
    } else {
        0
    });
    proof {
        let x: u64 = if by_system {
            1
        } else {
            0
        };
        assert(pow256(0) == 1);
        assert forall|k: int| 24 <= k < 31 implies (x as int / #[trigger] pow256(31 - k)) % 256 == 0 by {
            assert(pow256(31 - k) == 256 * pow256(30 - k));
            assert(pow256(30 - k) >= 1) by {
                lemma_pow256_positive(30 - k);
            }
            let p = pow256(31 - k);
            let xi = x as int;
            assert(xi / p == 0) by (nonlinear_arith)
                requires
                    0 <= xi < p,
            ;
        }
        assert(data@ =~= sc_call_data(selector@, address@, amount@, by_system));
    }
    data
}

proof fn lemma_pow256_positive(k: int)
    ensures
        pow256(k) >= 1,
    decreases k,
{
    if k > 0 {
        lemma_pow256_positive(k - 1);
    }
}

/// Plans a call of the contract's mint function for `amount` to `address`:
/// nothing to run where contracts are not executed.
pub fn call_sc_mint(should_execute_contracts: bool, address: &[u8; 20], amount: &[u8; 32], by_system: bool) -> (r: ScCallPlan)
    ensures
        !should_execute_contracts ==> r is Skip,
        should_execute_contracts ==> (r matches ScCallPlan::Run(c) && sc_call_of(
            c,
            MINT_SELECTOR@,
            address@,
            amount@,
            by_system,
        )),
{
    let data = build_sc_call_data(MINT_SELECTOR, address, amount, by_system);
    if !should_execute_contracts {
        return ScCallPlan::Skip;
    }
    ScCallPlan::Run(sc_call(data))
}

/// Plans a call of the contract's burn function for `amount` of `address`:
/// nothing to run where contracts are not executed.
pub fn call_sc_burn(should_execute_contracts: bool, address: &[u8; 20], amount: &[u8; 32], by_system: bool) -> (r: ScCallPlan)
    ensures
        !should_execute_contracts ==> r is Skip,
        should_execute_contracts ==> (r matches ScCallPlan::Run(c) && sc_call_of(
            c,
            BURN_SELECTOR@,
            address@,
            amount@,
            by_system,
        )),
{
    let data = build_sc_call_data(BURN_SELECTOR, address, amount, by_system);
    if !should_execute_contracts {
        return ScCallPlan::Skip;
    }
    ScCallPlan::Run(sc_call(data))
}

/// Plans the burn of a withdrawal reserve: `value` of the 20-byte address
/// `address`, by the system.
pub fn withdraw_reserve(should_execute_contracts: bool, address: &[u8], value: u128) -> (r: ScCallPlan)
    requires
        address@.len() == 20,
    ensures
        !should_execute_contracts ==> r is Skip,
        should_execute_contracts ==> (r matches ScCallPlan::Run(c) && sc_call_of(
            c,
            BURN_SELECTOR@,
            address@,
            u128_word(value),
            true,
        )),
{
    let mut a = [0u8; 20];
    let mut i: usize = 0;
    while i < 20
        invariant
            0 <= i <= 20,
            address@.len() == 20,
            forall|j: int| 0 <= j < i ==> a@[j] == address@[j],
        decreases 20 - i,
    {
        a[i] = address[i];
        i = i + 1;
    }
    assert(a@ =~= address@);
    let amount = u128_to_h256(value);
    call_sc_burn(should_execute_contracts, &a, &amount, true)
}

/// Gas costs.
#[derive(Debug, Clone, Copy, Default, PartialEq, Eq)]
pub struct GasCosts {}

/// Parameters for the EVM module.
#[derive(Debug, Clone, Copy, Default, PartialEq, Eq)]
pub struct Parameters {
    pub gas_costs: GasCosts,
}

impl Parameters {
    /// Every parameter set is valid.
    pub fn validate_basic(&self) -> (r: Result<(), ()>)
        ensures
            r is Ok,
    {
        Ok(())
    }
}

/// Genesis state for the EVM module.
#[derive(Debug, Clone, Copy, Default, PartialEq, Eq)]
pub struct Genesis {
    pub parameters: Parameters,
}

/// Local configuration that can be provided by the node operator.
#[derive(Debug, Clone, Copy, Default, PartialEq, Eq)]
pub struct LocalConfig {
    /// Maximum gas limit that can be passed to the `evm.SimulateCall` query;
    /// zero means no limit.
    pub query_simulate_call_max_gas: u64,
}

/// Events emitted by the EVM module.
#[derive(Debug)]
pub enum Event {
    Log { address: [u8; 20], topics: Vec<[u8; 32]>, data: Vec<u8> },
}

/// Whether a simulated call with `gas_limit` is too expensive for the local
/// configuration `cfg` (as a context of mode `m` sees it, the default where
/// there is none).
pub open spec fn simulation_too_expensive(m: Mode, cfg: Option<LocalConfig>, gas_limit: u64) -> bool {
    let max = match local_config_spec(m, cfg) {
        Some(c) => c.query_simulate_call_max_gas,
        None => 0,
    };
    max > 0 && gas_limit > max
}

/// Checks a simulated call's gas limit against the local configuration:
/// refused with `SimulationTooExpensive` and the configured maximum where
/// it exceeds a non-zero maximum.
pub fn check_simulate_call_gas(m: Mode, cfg: Option<LocalConfig>, gas_limit: u64) -> (r: Result<(), Error>)
    ensures
        simulation_too_expensive(m, cfg, gas_limit) ==> r == Err::<(), Error>(
            Error::SimulationTooExpensive(local_config_spec(m, cfg)->0.query_simulate_call_max_gas),
        ),
        !simulation_too_expensive(m, cfg, gas_limit) ==> r is Ok,
{
    let cfg = match crate::context::local_config(m, cfg) {
        Some(c) => c,
        None => LocalConfig { query_simulate_call_max_gas: 0 },
    };
    if cfg.query_simulate_call_max_gas > 0 && gas_limit > cfg.query_simulate_call_max_gas {
        return Err(Error::SimulationTooExpensive(cfg.query_simulate_call_max_gas));
    }
    Ok(())
}

/// The big-endian bytes of a `u64`.
pub open spec fn u64_be_bytes(x: u64) -> Seq<u8> {
    seq![
        ((x >> 56u64) & 0xff) as u8,
        ((x >> 48u64) & 0xff) as u8,
        ((x >> 40u64) & 0xff) as u8,
        ((x >> 32u64) & 0xff) as u8,
        ((x >> 24u64) & 0xff) as u8,
        ((x >> 16u64) & 0xff) as u8,
        ((x >> 8u64) & 0xff) as u8,
        (x & 0xff) as u8,
    ]
}

/// The big-endian bytes of `x`.
fn u64_be_array(x: u64) -> (r: [u8; 8])
    ensures
        r@ == u64_be_bytes(x),
{
    let r = [
        ((x >> 56u64) & 0xff) as u8,
        ((x >> 48u64) & 0xff) as u8,
        ((x >> 40u64) & 0xff) as u8,
        ((x >> 32u64) & 0xff) as u8,
        ((x >> 24u64) & 0xff) as u8,
        ((x >> 16u64) & 0xff) as u8,
        ((x >> 8u64) & 0xff) as u8,
        (x & 0xff) as u8,
    ];
    assert(r@ =~= u64_be_bytes(x));
    r
}

/// Block numbers are stored under their big-endian bytes.
impl Key for u64 {
    open spec fn key_bytes(&self) -> Seq<u8> {
        u64_be_bytes(*self)
    }

    fn key_order(&self, other: &Self) -> (r: Order) {
        let a = u64_be_array(*self);
        let b = u64_be_array(*other);
        bytes_order(a.as_slice(), b.as_slice())
    }
}

/// Records the hash of the block of `round` and drops the hash of the block
/// that leaves the window of the last `BLOCK_HASH_WINDOW_SIZE` blocks.
pub fn end_block(block_hashes: &mut KvStore<u64, [u8; 32]>, round: u64, block_hash: [u8; 32])
    requires
        old(block_hashes).wf(),
    ensures
        final(block_hashes).wf(),
        forall|kb: Seq<u8>| #[trigger]
            final(block_hashes).get_spec(kb) == if kb == u64_be_bytes(round) {
                Some(block_hash)
            } else if round > BLOCK_HASH_WINDOW_SIZE && kb == u64_be_bytes(
                (round - BLOCK_HASH_WINDOW_SIZE) as u64,
            ) {
                None
            } else {
                old(block_hashes).get_spec(kb)
            },
{
    block_hashes.insert(round, block_hash);
    if round > BLOCK_HASH_WINDOW_SIZE {
        let start_number = round - BLOCK_HASH_WINDOW_SIZE;
        proof {
            lemma_u64_be_bytes_injective(round, start_number);
        }
        block_hashes.remove(&start_number);
    }
}

/// Different numbers have different big-endian bytes.
proof fn lemma_u64_be_bytes_injective(a: u64, b: u64)
    requires
        a != b,
    ensures
        u64_be_bytes(a) != u64_be_bytes(b),
{
    if u64_be_bytes(a) == u64_be_bytes(b) {
        assert(u64_be_bytes(a)[0] == u64_be_bytes(b)[0]);
        assert(u64_be_bytes(a)[1] == u64_be_bytes(b)[1]);
        assert(u64_be_bytes(a)[2] == u64_be_bytes(b)[2]);
        assert(u64_be_bytes(a)[3] == u64_be_bytes(b)[3]);
        assert(u64_be_bytes(a)[4] == u64_be_bytes(b)[4]);
        assert(u64_be_bytes(a)[5] == u64_be_bytes(b)[5]);
        assert(u64_be_bytes(a)[6] == u64_be_bytes(b)[6]);
        assert(u64_be_bytes(a)[7] == u64_be_bytes(b)[7]);
        assert((((a >> 56u64) & 0xff) as u8 == ((b >> 56u64) & 0xff) as u8 && ((a >> 48u64) & 0xff) as u8
            == ((b >> 48u64) & 0xff) as u8 && ((a >> 40u64) & 0xff) as u8 == ((b >> 40u64) & 0xff) as u8
            && ((a >> 32u64) & 0xff) as u8 == ((b >> 32u64) & 0xff) as u8 && ((a >> 24u64) & 0xff) as u8
            == ((b >> 24u64) & 0xff) as u8 && ((a >> 16u64) & 0xff) as u8 == ((b >> 16u64) & 0xff) as u8
            && ((a >> 8u64) & 0xff) as u8 == ((b >> 8u64) & 0xff) as u8 && (a & 0xff) as u8 == (b & 0xff) as u8)
            ==> a == b) by (bit_vector);
    }
}

/// The gas a plain transfer uses.
pub const TRANSFER_GAS: u64 = 21000;

/// Gas that is left.
pub open spec fn remaining_gas(used: u64, limit: u64) -> int {
    if used <= limit {
        limit - used
    } else {
        0
    }
}

/// Whether the accounts transfer succeeds (see `transfer_outcome`).
pub open spec fn transfer_succeeds(old: AccountsContext, from: Address, to: Address, amount: u128, d: Seq<u8>) -> bool {
    let st = old.state;
    let after_sub = st.balance(from@, d) - amount;
    let to_before = if to@ == from@ {
        after_sub
    } else {
        st.balance(to@, d)
    };
    old.mode.is_check_only_spec() || (amount <= st.balance(from@, d) && to_before + amount <= u128::MAX)
}

/// The outcome of an EVM transfer of `value` from `from` to `to` (both
/// already mapped to accounts) in a transaction whose fee pays `price` per
/// unit of gas in `fee_d`: nothing where contracts are not executed;
/// refused where the value does not fit a token amount; otherwise the
/// accounts transfer; where it fails, its gas is used and it is refused
/// with `InvalidArgument`; where it succeeds, the fee prepaid for the gas
/// left beyond the transfer's gas is returned to the sender from the fee
/// accumulator.
pub open spec fn evm_transfer_outcome(
    new: AccountsContext,
    old: AccountsContext,
    should_execute_contracts: bool,
    from: Address,
    to: Address,
    value: [u64; 4],
    token_d: Seq<u8>,
    price: u128,
    fee_d: Seq<u8>,
    r: Result<Vec<u8>, Error>,
) -> bool {
    if !should_execute_contracts {
        r matches Ok(v) && v@.len() == 0 && new == old
    } else if u256_value(value) >= u128::MAX {
        (r matches Err(Error::Reverted(s)) && s@ == "too large value"@) && new == old
    } else {
        let v = u256_value(value) as u128;
        let gas_left = remaining_gas(old.gas.used, old.gas.limit);
        let return_fee = price * gas_left - price * TRANSFER_GAS;
        exists|mid: AccountsContext, tr: Result<(), super::accounts::Error>|
            {
                &&& #[trigger] transfer_outcome(mid, old, from, to, v, token_d, tr)
                &&& tr is Err ==> if gas_fits(mid.gas, TRANSFER_GAS) {
                    r == Err::<Vec<u8>, Error>(Error::InvalidArgument) && new == paid(mid, TRANSFER_GAS)
                } else {
                    r == Err::<Vec<u8>, Error>(Error::Core(gas_error(mid.gas, TRANSFER_GAS))) && new == mid
                }
                &&& tr is Ok ==> if return_fee < 0 {
                    r == Err::<Vec<u8>, Error>(Error::InsufficientBalance) && new == mid
                } else if !gas_fits(mid.gas, TRANSFER_GAS) {
                    r == Err::<Vec<u8>, Error>(Error::Core(gas_error(mid.gas, TRANSFER_GAS))) && new == mid
                } else {
                    exists|mr: Result<(), CoreError>|
                        #[trigger] move_from_outcome(
                            new,
                            paid(mid, TRANSFER_GAS),
                            from,
                            return_fee as u128,
                            fee_d,
                            mr,
                        ) && if mr is Ok {
                            r matches Ok(out) && out@.len() == 0
                        } else {
                            r == Err::<Vec<u8>, Error>(Error::InsufficientBalance)
                        }
                }
            }
    }
}

/// The EVM module.
pub struct Module;

impl Module {
    /// A transfer of native tokens to an account without code (see
    /// `evm_transfer_outcome`); `from` and `to` are the sender and the
    /// target mapped to accounts, and `fee` the transaction's fee.
    pub fn transfer(
        ctx: &mut AccountsContext,
        should_execute_contracts: bool,
        from: Address,
        to: Address,
        value: [u64; 4],
        token_denomination: &Denomination,
        fee: &Fee,
    ) -> (r: Result<Vec<u8>, Error>)
        requires
            old(ctx).wf(),
            ({
                let price = gas_price_of(fee.amount.amount, fee.gas);
                let gas_left = remaining_gas(old(ctx).gas.used, old(ctx).gas.limit);
                should_execute_contracts && u256_value(value) < u128::MAX && transfer_succeeds(
                    *old(ctx),
                    from,
                    to,
                    u256_value(value) as u128,
                    token_denomination@,
                ) ==> price * gas_left - price * TRANSFER_GAS <= u128::MAX
            }),
        ensures
            final(ctx).wf(),
            evm_transfer_outcome(
                *final(ctx),
                *old(ctx),
                should_execute_contracts,
                from,
                to,
                value,
                token_denomination@,
                gas_price_of(fee.amount.amount, fee.gas),
                fee.amount.denomination@,
                r,
            ),
    {
        if !should_execute_contracts {
            return Ok(Vec::new());
        }
        let u128value = match u256_to_u128(value) {
            Ok(v) => v,
            Err(e) => {
                return Err(e);
            },
        };
        let amount = BaseUnits::new(u128value, token_denomination.duplicate());
        let gas_limit = ctx.gas.remaining_tx_gas();
        let gas_price = fee.gas_price();
        let ghost old_ctx = *ctx;
        let transferred = super::accounts::Module::transfer(ctx, from, to, &amount);
        let ghost mid = *ctx;
        proof {
            assert(transfer_outcome(mid, old_ctx, from, to, u128value, token_denomination@, transferred));
        }
        match transferred {
            Err(_) => {
                return match ctx.gas.use_tx_gas(TRANSFER_GAS) {
                    Ok(()) => Err(Error::InvalidArgument),
                    Err(e) => Err(Error::Core(e)),
                };
            },
            Ok(()) => {},
        }
        let ghost ret = gas_price * gas_limit - gas_price * TRANSFER_GAS;
        if gas_price > 0 && gas_limit < TRANSFER_GAS {
            proof {
                assert(gas_price * gas_limit < gas_price * TRANSFER_GAS) by (nonlinear_arith)
                    requires
                        gas_price > 0,
                        gas_limit < TRANSFER_GAS,
                ;
            }
            return Err(Error::InsufficientBalance);
        }
        proof {
            assert(ret >= 0) by (nonlinear_arith)
                requires
                    ret == gas_price * gas_limit - gas_price * TRANSFER_GAS,
                    gas_price == 0 || gas_limit >= TRANSFER_GAS,
            ;
            assert(transfer_succeeds(old_ctx, from, to, u128value, token_denomination@));
        }
        let return_fee: u128 = if gas_price == 0 {
            0
        } else {
            let over = (gas_limit - TRANSFER_GAS) as u128;
            proof {
                assert(gas_price * over == ret) by (nonlinear_arith)
                    requires
                        ret == gas_price * gas_limit - gas_price * TRANSFER_GAS,
                        over == gas_limit - TRANSFER_GAS,
                ;
            }
            gas_price * over
        };
        match ctx.gas.use_tx_gas(TRANSFER_GAS) {
            Ok(()) => {},
            Err(e) => {
                return Err(Error::Core(e));
            },
        }
        let ghost after_gas = *ctx;
        proof {
            assert(after_gas == paid(mid, TRANSFER_GAS));
        }
        let moved = super::accounts::Module::move_from_fee_accumulator(
            ctx,
            from,
            &BaseUnits::new(return_fee, fee.amount.denomination().duplicate()),
        );
        match moved {
            Ok(()) => Ok(Vec::new()),
            Err(_) => Err(Error::InsufficientBalance),
        }
    }
}

} // verus!
