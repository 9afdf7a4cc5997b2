//! Canonical conversion between a fixed-width binary address and its
//! hex-serialized representations.
//!
//! An address travels either as a hex string, prefixed (`0x...`) or
//! unprefixed, or as the bridge-wide length-tagged binary wrapper.
//! Formatting is pure and total; parsing rejects any input whose decoded
//! byte length is not the chain family's fixed width or whose digits are
//! not hex.

use vstd::prelude::*;
use vstd::string::StrSliceExecFns;
use crate::errors::Error;
use crate::types::HexSerializedVec;

verus! {

/// Width in bytes of an address on an EVM-compatible chain.
pub const EVM_COMPATIBLE_ADDRESS_BYTES: usize = 20;

/// Whether `c` is a hex digit, in either case.
pub open spec fn spec_is_hex_digit(c: char) -> bool {
    let v = c as u32;
    (48 <= v && v <= 57) || (97 <= v && v <= 102) || (65 <= v && v <= 70)
}

/// The value of the hex digit `c`.
pub open spec fn spec_hex_nibble(c: char) -> u8 {
    let v = c as u32;
    if 48 <= v && v <= 57 {
        (v - 48) as u8
    } else if 97 <= v && v <= 102 {
        (v - 87) as u8
    } else {
        (v - 55) as u8
    }
}

/// The lowercase hex digit for a nibble value.
pub open spec fn spec_nibble_char(n: u8) -> char {
    seq!['0', '1', '2', '3', '4', '5', '6', '7', '8', '9', 'a', 'b', 'c', 'd', 'e', 'f'][n as int]
}

/// The lowercase hex rendering of a byte string: two digits per byte,
/// most significant nibble first.
pub open spec fn spec_hex_of(s: Seq<u8>) -> Seq<char>
    decreases s.len(),
{
    if s.len() == 0 {
        Seq::<char>::empty()
    } else {
        spec_hex_of(s.drop_last())
            + seq![spec_nibble_char(s.last() / 16), spec_nibble_char(s.last() % 16)]
    }
}

/// Whether every character of `s` is a hex digit.
pub open spec fn spec_all_hex(s: Seq<char>) -> bool {
    forall|j: int| 0 <= j < s.len() ==> spec_is_hex_digit(#[trigger] s[j])
}

/// The bytes an even-length hex digit string denotes.
pub open spec fn spec_hex_bytes(s: Seq<char>) -> Seq<u8>
    decreases s.len(),
{
    if s.len() < 2 {
        Seq::<u8>::empty()
    } else {
        spec_hex_bytes(s.subrange(0, s.len() - 2))
            + seq![(spec_hex_nibble(s[s.len() - 2]) * 16 + spec_hex_nibble(s[s.len() - 1])) as u8]
    }
}

/// Whether a string is a valid address rendering: 40 hex digits, with or
/// without the `0x` prefix.
pub open spec fn spec_addr_str_valid(s: Seq<char>) -> bool {
    ||| (s.len() == 42 && s[0] == '0' && s[1] == 'x' && spec_all_hex(s.subrange(2, 42)))
    ||| (s.len() == 40 && spec_all_hex(s))
}

/// The address bytes a valid address rendering denotes.
pub open spec fn spec_parse_addr(s: Seq<char>) -> Seq<u8> {
    if s.len() == 42 {
        spec_hex_bytes(s.subrange(2, 42))
    } else {
        spec_hex_bytes(s)
    }
}

/// The prefixed hex rendering of address bytes.
pub open spec fn spec_format_addr(bytes: Seq<u8>) -> Seq<char> {
    seq!['0', 'x'] + spec_hex_of(bytes)
}

/// A fixed-width binary address on an EVM-compatible chain.
#[derive(Clone, Debug, PartialEq, Eq)]
pub struct EvmCompatibleAddress {
    pub address: Vec<u8>,
}

/// The lowercase hex digit of a nibble value is a hex digit and decodes
/// back to the nibble.
pub proof fn lemma_nibble_char_value(n: u8)
    requires
        n < 16,
    ensures
        spec_is_hex_digit(spec_nibble_char(n)),
        spec_hex_nibble(spec_nibble_char(n)) == n,
{
}

/// The hex rendering of a byte string is twice as long and consists of
/// hex digits only.
pub proof fn lemma_hex_of_shape(bytes: Seq<u8>)
    ensures
        spec_hex_of(bytes).len() == 2 * bytes.len(),
        spec_all_hex(spec_hex_of(bytes)),
    decreases bytes.len(),
{
    if bytes.len() > 0 {
        lemma_hex_of_shape(bytes.drop_last());
        lemma_nibble_char_value(bytes.last() / 16);
        lemma_nibble_char_value(bytes.last() % 16);
        let prev = spec_hex_of(bytes.drop_last());
        let cur = spec_hex_of(bytes);
        assert forall|j: int| 0 <= j < cur.len() implies spec_is_hex_digit(#[trigger] cur[j]) by {
            if j < prev.len() {
                assert(cur[j] == prev[j]);
            }
        }
    }
}

/// Decoding the hex rendering of a byte string gives the bytes back.
pub proof fn lemma_hex_round_trip(bytes: Seq<u8>)
    ensures
        spec_hex_bytes(spec_hex_of(bytes)) == bytes,
    decreases bytes.len(),
{
    if bytes.len() == 0 {
        assert(spec_hex_bytes(spec_hex_of(bytes)) =~= bytes);
    } else {
        lemma_hex_round_trip(bytes.drop_last());
        lemma_hex_of_shape(bytes.drop_last());
        lemma_nibble_char_value(bytes.last() / 16);
        lemma_nibble_char_value(bytes.last() % 16);
        let s = spec_hex_of(bytes);
        assert(s.subrange(0, s.len() - 2) =~= spec_hex_of(bytes.drop_last()));
        assert(s[s.len() - 2] == spec_nibble_char(bytes.last() / 16));
        assert(s[s.len() - 1] == spec_nibble_char(bytes.last() % 16));
        assert(spec_hex_nibble(s[s.len() - 2]) * 16 + spec_hex_nibble(s[s.len() - 1])
            == bytes.last());
        assert(spec_hex_bytes(s) =~= bytes);
    }
}

/// Address round trip: formatting a well-formed address, in either the
/// prefixed or the unprefixed rendering, yields a string the parser
/// accepts, and parsing it reproduces the original byte sequence
/// exactly.
pub proof fn lemma_address_round_trip(a: EvmCompatibleAddress)
    requires
        a.wf(),
    ensures
        spec_addr_str_valid(spec_format_addr(a.address@)),
        spec_parse_addr(spec_format_addr(a.address@)) == a.address@,
        spec_addr_str_valid(spec_hex_of(a.address@)),
        spec_parse_addr(spec_hex_of(a.address@)) == a.address@,
{
    lemma_hex_of_shape(a.address@);
    lemma_hex_round_trip(a.address@);
    let hex = spec_hex_of(a.address@);
    let prefixed = spec_format_addr(a.address@);
    assert(prefixed.len() == 42);
    assert(prefixed[0] == '0');
    assert(prefixed[1] == 'x');
    assert(prefixed.subrange(2, 42) =~= hex);
}

/// The single lowercase hex digit for a nibble value.
fn nibble_str(n: u8) -> (r: &'static str)
    requires
        n < 16,
    ensures
        r@ == seq![spec_nibble_char(n)],
{
    proof {
        reveal_strlit("0");
        reveal_strlit("1");
        reveal_strlit("2");
        reveal_strlit("3");
        reveal_strlit("4");
        reveal_strlit("5");
        reveal_strlit("6");
        reveal_strlit("7");
        reveal_strlit("8");
        reveal_strlit("9");
        reveal_strlit("a");
        reveal_strlit("b");
        reveal_strlit("c");
        reveal_strlit("d");
        reveal_strlit("e");
        reveal_strlit("f");
    }
    match n {
        0 => "0",
        1 => "1",
        2 => "2",
        3 => "3",
        4 => "4",
        5 => "5",
        6 => "6",
        7 => "7",
        8 => "8",
        9 => "9",
        10 => "a",
        11 => "b",
        12 => "c",
        13 => "d",
        14 => "e",
        _ => "f",
    }
}

/// The value of a hex digit character, or `None` when `c` is not one.
fn hex_nibble_of_char(c: char) -> (r: Option<u8>)
    ensures
        r is Some <==> spec_is_hex_digit(c),
        r is Some ==> r->0 == spec_hex_nibble(c) && r->0 < 16,
{
    let v = c as u32;
    if 48 <= v && v <= 57 {
        Some((v - 48) as u8)
    } else if 97 <= v && v <= 102 {
        Some((v - 87) as u8)
    } else if 65 <= v && v <= 70 {
        Some((v - 55) as u8)
    } else {
        None
    }
}

/// Parses the 40 hex digits of `s` starting at `start` into address bytes.
fn parse_hex_window(s: &str, start: usize) -> (r: Result<Vec<u8>, Error>)
    requires
        start + 2 * EVM_COMPATIBLE_ADDRESS_BYTES == s@.len(),
        s@.len() <= usize::MAX,
    ensures
        r is Ok <==> spec_all_hex(s@.subrange(start as int, s@.len() as int)),
        r matches Ok(v) ==> v@ == spec_hex_bytes(s@.subrange(start as int, s@.len() as int))
            && v@.len() == EVM_COMPATIBLE_ADDRESS_BYTES,
        r matches Err(e) ==> e == Error::InvalidAddressFormat,
{
    let ghost window = s@.subrange(start as int, s@.len() as int);
    let mut bytes: Vec<u8> = Vec::new();
    let mut i: usize = 0;
    while i < EVM_COMPATIBLE_ADDRESS_BYTES
        invariant
            start + 2 * EVM_COMPATIBLE_ADDRESS_BYTES == s@.len(),
            s@.len() <= usize::MAX,
            i <= EVM_COMPATIBLE_ADDRESS_BYTES,
            window == s@.subrange(start as int, s@.len() as int),
            spec_all_hex(window.subrange(0, 2 * i as int)),
            bytes@ == spec_hex_bytes(window.subrange(0, 2 * i as int)),
            bytes@.len() == i,
        decreases EVM_COMPATIBLE_ADDRESS_BYTES - i,
    {
        let hi = match hex_nibble_of_char(s.get_char(start + 2 * i)) {
            Some(v) => v,
            None => {
                assert(!spec_is_hex_digit(window[2 * i as int]));
                return Err(Error::InvalidAddressFormat);
            },
        };
        let lo = match hex_nibble_of_char(s.get_char(start + 2 * i + 1)) {
            Some(v) => v,
            None => {
                assert(!spec_is_hex_digit(window[2 * i as int + 1]));
                return Err(Error::InvalidAddressFormat);
            },
        };
        bytes.push(hi * 16 + lo);
        proof {
            let prev = window.subrange(0, 2 * i as int);
            let cur = window.subrange(0, 2 * (i + 1) as int);
            assert(cur.subrange(0, cur.len() - 2) =~= prev);
            assert(bytes@ =~= spec_hex_bytes(cur));
        }
        i += 1;
    }
    proof {
        assert(window.subrange(0, 2 * i as int) =~= window);
    }
    Ok(bytes)
}

impl EvmCompatibleAddress {
    /// An address is well formed when it has exactly the chain family's
    /// fixed width.
    pub open spec fn wf(&self) -> bool {
        self.address@.len() == EVM_COMPATIBLE_ADDRESS_BYTES
    }

    /// Renders the address as `0x` followed by 40 lowercase hex digits.
    pub fn to_hex_str(&self) -> (r: String)
        ensures
            r@ == spec_format_addr(self.address@),
    {
        proof {
            reveal_strlit("0x");
        }
        let mut out = String::from_str("0x");
        let tail = self.to_hex_str_without_prefix();
        out.append(tail.as_str());
        assert(out@ =~= spec_format_addr(self.address@));
        out
    }

    /// Renders the address as 40 lowercase hex digits without a prefix.
    pub fn to_hex_str_without_prefix(&self) -> (r: String)
        ensures
            r@ == spec_hex_of(self.address@),
    {
        let mut out = String::new();
        let mut i: usize = 0;
        while i < self.address.len()
            invariant
                i <= self.address@.len(),
                out@ == spec_hex_of(self.address@.subrange(0, i as int)),
            decreases self.address@.len() - i,
        {
            let b = self.address[i];
            out.append(nibble_str(b / 16));
            out.append(nibble_str(b % 16));
            proof {
                let prev = self.address@.subrange(0, i as int);
                let cur = self.address@.subrange(0, i + 1);
                assert(cur.drop_last() =~= prev);
                assert(out@ =~= spec_hex_of(cur));
            }
            i += 1;
        }
        proof {
            assert(self.address@.subrange(0, self.address@.len() as int) =~= self.address@);
        }
        out
    }

    /// Wraps the address bytes in the bridge-wide serialized form.
    pub fn to_hex_serialized_vec(&self) -> (r: HexSerializedVec)
        ensures
            r.data@ == self.address@,
    {
        let mut data: Vec<u8> = Vec::new();
        let mut i: usize = 0;
        while i < self.address.len()
            invariant
                i <= self.address@.len(),
                data@ == self.address@.subrange(0, i as int),
            decreases self.address@.len() - i,
        {
            data.push(self.address[i]);
            proof {
                assert(data@ =~= self.address@.subrange(0, i + 1));
            }
            i += 1;
        }
        proof {
            assert(data@ =~= self.address@);
        }
        HexSerializedVec { data }
    }

    /// Parses a hex address string, with or without the `0x` prefix.
    ///
    /// Succeeds exactly on the strings `spec_addr_str_valid` admits and
    /// returns the denoted fixed-width byte sequence; every other input
    /// is rejected with `InvalidAddressFormat`.
    pub fn from_hex_str(address: &str) -> (r: Result<EvmCompatibleAddress, Error>)
        ensures
            r is Ok <==> spec_addr_str_valid(address@),
            r matches Ok(a) ==> a.address@ == spec_parse_addr(address@) && a.wf(),
            r matches Err(e) ==> e == Error::InvalidAddressFormat,
    {
        let n = address.unicode_len();
        if n == 2 * EVM_COMPATIBLE_ADDRESS_BYTES + 2 {
            if address.get_char(0) == '0' && address.get_char(1) == 'x' {
                match parse_hex_window(address, 2) {
                    Ok(bytes) => Ok(EvmCompatibleAddress { address: bytes }),
                    Err(e) => Err(e),
                }
            } else {
                Err(Error::InvalidAddressFormat)
            }
        } else if n == 2 * EVM_COMPATIBLE_ADDRESS_BYTES {
            match parse_hex_window(address, 0) {
                Ok(bytes) => {
                    proof {
                        assert(address@.subrange(0, address@.len() as int) =~= address@);
                    }
                    Ok(EvmCompatibleAddress { address: bytes })
                },
                Err(e) => {
                    proof {
                        assert(address@.subrange(0, address@.len() as int) =~= address@);
                    }
                    Err(e)
                },
            }
        } else {
            Err(Error::InvalidAddressFormat)
        }
    }

    /// Unwraps the bridge-wide serialized form back into an address.
    ///
    /// Succeeds exactly when the wrapped byte string has the chain
    /// family's fixed width.
    pub fn from_hex_serialized_vec(address: &HexSerializedVec) -> (r: Result<
        EvmCompatibleAddress,
        Error,
    >)
        ensures
            r is Ok <==> address.data@.len() == EVM_COMPATIBLE_ADDRESS_BYTES,
            r matches Ok(a) ==> a.address@ == address.data@ && a.wf(),
            r matches Err(e) ==> e == Error::InvalidAddressFormat,
    {
        if address.data.len() != EVM_COMPATIBLE_ADDRESS_BYTES {
            return Err(Error::InvalidAddressFormat);
        }
        let mut bytes: Vec<u8> = Vec::new();
        let mut i: usize = 0;
        while i < address.data.len()
            invariant
                i <= address.data@.len(),
                bytes@ == address.data@.subrange(0, i as int),
            decreases address.data@.len() - i,
        {
            bytes.push(address.data[i]);
            proof {
                assert(bytes@ =~= address.data@.subrange(0, i + 1));
            }
            i += 1;
        }
        proof {
            assert(bytes@ =~= address.data@);
        }
        Ok(EvmCompatibleAddress { address: bytes })
    }
}

} // verus!
