//! Account addresses: 21 raw bytes (a version byte and 20 data bytes), with a
//! Bech32 text form.
use vstd::prelude::*;

use bech32::{FromBase32, ToBase32};

use crate::keyed::{bytes_order, Key, Order};

verus! {

const ADDRESS_VERSION_SIZE: usize = 1;

const ADDRESS_DATA_SIZE: usize = 20;

pub const ADDRESS_SIZE: usize = 21;

/// Human-readable part of the Bech32 form of an address.
pub const ADDRESS_BECH32_HRP: &'static str = "hela0";

/// Error.
#[derive(Debug, Clone, Copy, PartialEq, Eq)]
pub enum Error {
    MalformedAddress,
}

/// An account address.
#[derive(Copy, Clone, Debug, PartialEq, Eq, PartialOrd, Ord, Hash)]
pub struct Address([u8; ADDRESS_SIZE]);

impl View for Address {
    type V = Seq<u8>;

    closed spec fn view(&self) -> Seq<u8> {
        self.0@
    }
}

/// The bytes of an address from its Bech32 form, when it is one: the form
/// decodes with the address HRP in the Bech32 (not Bech32m) variant, and its
/// words convert to exactly `ADDRESS_SIZE` bytes.
pub open spec fn from_bech32_spec(s: Seq<char>) -> Option<Seq<u8>> {
    match spec_bech32_decode(s) {
        None => None,
        Some(d) => if d.0 == ADDRESS_BECH32_HRP@ && d.2 {
            match spec_from_base32(d.1) {
                Some(b) => if b.len() == ADDRESS_SIZE {
                    Some(b)
                } else {
                    None
                },
                None => None,
            }
        } else {
            None
        },
    }
}

/// The Bech32 form of the address bytes `a`: the Bech32 encoding of their
/// base32 words with the address HRP.
pub open spec fn to_bech32_spec(a: Seq<u8>) -> Option<Seq<char>> {
    spec_bech32_encode(ADDRESS_BECH32_HRP@, spec_to_base32(a))
}

impl Address {
    /// Size of an address in bytes.
    pub const SIZE: usize = ADDRESS_SIZE;

    pub proof fn lemma_view_len(&self)
        ensures
            self@.len() == ADDRESS_SIZE,
    {
    }

    /// Two addresses with the same bytes are the same address.
    pub proof fn lemma_view_injective(a: Address, b: Address)
        ensures
            a@ == b@ ==> a == b,
    {
        if a@ == b@ {
            assert(a.0@ =~= b.0@);
            assert(a.0 == b.0);
        }
    }

    /// Tries to create a new address from raw bytes.
    pub fn from_bytes(data: &[u8]) -> (r: Result<Self, Error>)
        ensures
            r is Ok <==> data@.len() == ADDRESS_SIZE,
            r matches Ok(a) ==> a@ == data@,
            r matches Err(e) ==> e == Error::MalformedAddress,
    {
        if data.len() != ADDRESS_SIZE {
            return Err(Error::MalformedAddress);
        }
        let mut a = [0u8; ADDRESS_SIZE];
        let mut i: usize = 0;
        while i < ADDRESS_SIZE
            invariant
                data@.len() == ADDRESS_SIZE,
                0 <= i <= ADDRESS_SIZE,
                forall|j: int| 0 <= j < i ==> a@[j] == data@[j],
            decreases ADDRESS_SIZE - i,
        {
            a[i] = data[i];
            i = i + 1;
        }
        assert(a@ =~= data@);
        Ok(Address(a))
    }

    /// Tries to create a new address from raw bytes (see `from_bytes`).
    pub fn try_from(bytes: &[u8]) -> (r: Result<Self, Error>)
        ensures
            r is Ok <==> bytes@.len() == ADDRESS_SIZE,
            r matches Ok(a) ==> a@ == bytes@,
            r matches Err(e) ==> e == Error::MalformedAddress,
    {
        Self::from_bytes(bytes)
    }

    /// The raw bytes of the address.
    pub fn as_bytes(&self) -> (r: &[u8])
        ensures
            r@ == self@,
    {
        self.0.as_slice()
    }

    /// Whether two addresses have the same bytes.
    pub fn equals(&self, other: &Address) -> (r: bool)
        ensures
            r <==> self@ == other@,
    {
        match bytes_order(self.as_bytes(), other.as_bytes()) {
            Order::Same => true,
            _ => false,
        }
    }

    /// Tries to create a new address from Bech32-encoded string.
    pub fn from_bech32(data: &str) -> (r: Result<Self, Error>)
        ensures
            r is Ok <==> from_bech32_spec(data@) is Some,
            r matches Ok(a) ==> from_bech32_spec(data@) == Some(a@),
            r matches Err(e) ==> e == Error::MalformedAddress,
    {
        proof {
            reveal_strlit("hela0");
        }
        let (hrp, words, is_bech32) = match bech32_decode(data) {
            Some(d) => d,
            None => {
                return Err(Error::MalformedAddress);
            },
        };
        let expected_hrp = String::from_str(ADDRESS_BECH32_HRP);
        if hrp != expected_hrp {
            return Err(Error::MalformedAddress);
        }
        if !is_bech32 {
            return Err(Error::MalformedAddress);
        }
        let bytes = match bech32_from_base32(&words) {
            Some(b) => b,
            None => {
                return Err(Error::MalformedAddress);
            },
        };
        Address::from_bytes(bytes.as_slice())
    }

    /// Converts an address to Bech32 representation.
    ///
    /// Decoding the Bech32 form of an address gives that address back.
    pub fn to_bech32(self) -> (r: String)
        ensures
            to_bech32_spec(self@) == Some(r@),
            from_bech32_spec(r@) == Some(self@),
    {
        proof {
            reveal_strlit("hela0");
            assert(bech32_hrp_is_valid_lower(ADDRESS_BECH32_HRP@));
        }
        let words = bech32_to_base32(self.as_bytes());
        match bech32_encode(ADDRESS_BECH32_HRP, &words) {
            Some(s) => {
                proof {
                    self.lemma_view_len();
                }
                s
            },
            None => {
                proof {
                    assert(false);
                }
                String::new()
            },
        }
    }
}

impl Default for Address {
    /// The address of all zero bytes.
    fn default() -> (r: Self)
        ensures
            r@ == Seq::new(ADDRESS_SIZE as nat, |i: int| 0u8),
    {
        let r = Address([0u8; ADDRESS_SIZE]);
        assert(r@ =~= Seq::new(ADDRESS_SIZE as nat, |i: int| 0u8));
        r
    }
}

impl Key for Address {
    open spec fn key_bytes(&self) -> Seq<u8> {
        self@
    }

    fn key_order(&self, other: &Self) -> (r: Order) {
        bytes_order(self.as_bytes(), other.as_bytes())
    }
}

/// A Bech32 human-readable part that encoding accepts and that decoding gives
/// back unchanged: 1 to 83 characters, each in the printable ASCII range
/// 33..=126, none an upper-case letter.
pub open spec fn bech32_hrp_is_valid_lower(hrp: Seq<char>) -> bool {
    &&& 1 <= hrp.len() <= 83
    &&& forall|i: int|
        0 <= i < hrp.len() ==> 33 <= (#[trigger] hrp[i]) as u32 <= 126 && !('A' <= hrp[i] <= 'Z')
}

/// What `bech32::decode` gives for a string: the lower-case human-readable
/// part, the data words (each below 32) and whether the checksum is of the
/// Bech32 variant; `None` where it fails.
pub uninterp spec fn spec_bech32_decode(s: Seq<char>) -> Option<(Seq<char>, Seq<u8>, bool)>;

/// What `bech32::encode` gives, in the Bech32 variant, for a human-readable
/// part and base32 words (each below 32); `None` where it fails.
pub uninterp spec fn spec_bech32_encode(hrp: Seq<char>, words: Seq<u8>) -> Option<Seq<char>>;

/// The base32 words that `ToBase32::to_base32` makes of bytes.
pub uninterp spec fn spec_to_base32(data: Seq<u8>) -> Seq<u8>;

/// The bytes that `FromBase32::from_base32` makes of base32 words (each
/// below 32); `None` where the padding is five bits or more, or not zero.
pub uninterp spec fn spec_from_base32(words: Seq<u8>) -> Option<Seq<u8>>;

/// The position of the last `'1'` in `s` (the Bech32 separator), or -1.
pub open spec fn last_separator(s: Seq<char>) -> int
    decreases s.len(),
{
    if s.len() == 0 {
        -1
    } else if s.last() == '1' {
        s.len() - 1
    } else {
        last_separator(s.drop_last())
    }
}

/// `s` with its ASCII upper-case letters made lower-case.
pub open spec fn ascii_lower(s: Seq<char>) -> Seq<char> {
    s.map_values(|c: char| if 'A' <= c <= 'Z' {
        ((c as u32) + 32) as char
    } else {
        c
    })
}

/// Calls `bech32::decode`, its words taken as bytes. Claims: the result is
/// named by `spec_bech32_decode`; its human-readable part is the text
/// before the last `'1'`, in lower case (decoding accepts only printable
/// ASCII there); and each word is below 32 (a `u5` holds no more).
#[verifier::external_body]
fn bech32_decode(s: &str) -> (r: Option<(String, Vec<u8>, bool)>)
    ensures
        r is Some <==> spec_bech32_decode(s@) is Some,
        r matches Some(d) ==> spec_bech32_decode(s@) == Some((d.0@, d.1@, d.2)),
        r matches Some(d) ==> forall|i: int| 0 <= i < d.1@.len() ==> #[trigger] d.1@[i] < 32,
        r matches Some(d) ==> 0 <= last_separator(s@) && d.0@ == ascii_lower(
            s@.take(last_separator(s@)),
        ),
{
    match bech32::decode(s) {
        Ok((hrp, words, variant)) => Some(
            (
                hrp,
                words.into_iter().map(u8::from).collect(),
                match variant {
                    bech32::Variant::Bech32 => true,
                    bech32::Variant::Bech32m => false,
                },
            ),
        ),
        Err(_) => None,
    }
}

/// Calls `FromBase32::from_base32` on words below 32, made `u5` values
/// first. Claims: the result is named by `spec_from_base32`.
#[verifier::external_body]
fn bech32_from_base32(words: &Vec<u8>) -> (r: Option<Vec<u8>>)
    requires
        forall|i: int| 0 <= i < words@.len() ==> #[trigger] words@[i] < 32,
    ensures
        r is Some <==> spec_from_base32(words@) is Some,
        r matches Some(b) ==> spec_from_base32(words@) == Some(b@),
{
    let w: Result<Vec<bech32::u5>, bech32::Error> = words.iter().map(|b| bech32::u5::try_from_u8(*b)).collect();
    match w {
        Ok(w) => match Vec::<u8>::from_base32(&w) {
            Ok(b) => Some(b),
            Err(_) => None,
        },
        Err(_) => None,
    }
}

/// Calls `ToBase32::to_base32`, its words taken as bytes. Claims: the result
/// is named by `spec_to_base32`; each word is below 32; and the words convert
/// back to `data` (the conversion pads with fewer than five zero bits, which
/// `from_base32` drops).
#[verifier::external_body]
fn bech32_to_base32(data: &[u8]) -> (r: Vec<u8>)
    ensures
        r@ == spec_to_base32(data@),
        forall|i: int| 0 <= i < r@.len() ==> #[trigger] r@[i] < 32,
        spec_from_base32(r@) == Some(data@),
{
    data.to_base32().into_iter().map(u8::from).collect()
}

/// Calls `bech32::encode` with the Bech32 variant on words below 32, made
/// `u5` values first. Claims: the result is named by `spec_bech32_encode`;
/// encoding succeeds for a valid human-readable part (the crate fails only
/// where its check of that part fails); and what it makes from a valid
/// lower-case part decodes back to that part, the words and the Bech32
/// variant (decoding finds the separator, the case and the checksum that
/// encoding wrote).
#[verifier::external_body]
fn bech32_encode(hrp: &str, words: &Vec<u8>) -> (r: Option<String>)
    requires
        forall|i: int| 0 <= i < words@.len() ==> #[trigger] words@[i] < 32,
    ensures
        r is Some <==> spec_bech32_encode(hrp@, words@) is Some,
        r matches Some(s) ==> spec_bech32_encode(hrp@, words@) == Some(s@),
        bech32_hrp_is_valid_lower(hrp@) ==> r is Some,
        r matches Some(s) ==> (bech32_hrp_is_valid_lower(hrp@) ==> spec_bech32_decode(s@) == Some(
            (hrp@, words@, true),
        )),
{
    let w: Result<Vec<bech32::u5>, bech32::Error> = words.iter().map(|b| bech32::u5::try_from_u8(*b)).collect();
    match w {
        Ok(w) => match bech32::encode(hrp, w, bech32::Variant::Bech32) {
            Ok(s) => Some(s),
            Err(_) => None,
        },
        Err(_) => None,
    }
}

} // verus!
