//! Wire encoding of bridge messages.
//!
//! The destination treasury contract receives a transfer message as one
//! byte payload and decodes it before acting on it.  This module defines
//! that encoding, its decoder, and the derivation of the execution
//! descriptor the contract matches against the Merkle-proved commit.
//!
//! Integers travel big-endian with a fixed width; a string field travels
//! as an 8-byte character count followed by each character's Unicode
//! scalar value in 4 bytes.  The decoder keeps string fields as the raw
//! byte strings they decode to, which is how the treasury model keys its
//! ledger.

use vstd::prelude::*;
use vstd::string::StrSliceExecFns;
use crate::errors::Error;
use crate::types::FungibleTokenTransfer;
use crate::types::NonFungibleTokenTransfer;

verus! {

/// Big-endian base-256 encoding of `n`, `width` bytes long (the low
/// `width` bytes of `n`, most significant first).
pub open spec fn spec_be_bytes(n: nat, width: nat) -> Seq<u8>
    decreases width,
{
    if width == 0 {
        Seq::<u8>::empty()
    } else {
        spec_be_bytes(n / 256, (width - 1) as nat) + seq![(n % 256) as u8]
    }
}

/// The number a big-endian byte string denotes.
pub open spec fn spec_be_value(s: Seq<u8>) -> nat
    decreases s.len(),
{
    if s.len() == 0 {
        0
    } else {
        spec_be_value(s.drop_last()) * 256 + s.last() as nat
    }
}

/// 256 to the power `width`: the number of byte strings of that width.
pub open spec fn spec_pow256(width: nat) -> nat
    decreases width,
{
    if width == 0 {
        1
    } else {
        256 * spec_pow256((width - 1) as nat)
    }
}

/// A big-endian encoding has exactly the requested width.
pub proof fn lemma_be_bytes_len(n: nat, width: nat)
    ensures
        spec_be_bytes(n, width).len() == width,
    decreases width,
{
    if width > 0 {
        lemma_be_bytes_len(n / 256, (width - 1) as nat);
    }
}

/// The value a byte string denotes is below 256 to its length.
pub proof fn lemma_be_value_bound(s: Seq<u8>)
    ensures
        spec_be_value(s) < spec_pow256(s.len()),
    decreases s.len(),
{
    if s.len() > 0 {
        lemma_be_value_bound(s.drop_last());
        assert((spec_be_value(s.drop_last()) * 256 + (s.last() as nat))
            < spec_pow256((s.len() - 1) as nat) * 256) by (nonlinear_arith)
            requires
                spec_be_value(s.drop_last()) < spec_pow256((s.len() - 1) as nat),
                s.last() < 256,
        ;
    }
}

/// Decoding the encoding of a number below the width's capacity gives
/// the number back.
pub proof fn lemma_be_round_trip(n: nat, width: nat)
    requires
        n < spec_pow256(width),
    ensures
        spec_be_value(spec_be_bytes(n, width)) == n,
    decreases width,
{
    if width == 0 {
        assert(n == 0);
    } else {
        let w1 = (width - 1) as nat;
        assert(n / 256 < spec_pow256(w1)) by (nonlinear_arith)
            requires
                n < 256 * spec_pow256(w1),
        ;
        lemma_be_round_trip(n / 256, w1);
        lemma_be_bytes_len(n / 256, w1);
        let s = spec_be_bytes(n, width);
        assert(s.drop_last() =~= spec_be_bytes(n / 256, w1));
        assert(s.last() == (n % 256) as u8);
        assert(spec_be_value(s) == (n / 256) * 256 + n % 256);
        assert((n / 256) * 256 + n % 256 == n) by (nonlinear_arith);
    }
}

/// Powers of 256 do not shrink as the width grows.
pub proof fn lemma_pow256_monotonic(a: nat, b: nat)
    requires
        a <= b,
    ensures
        spec_pow256(a) <= spec_pow256(b),
    decreases b,
{
    if a < b {
        lemma_pow256_monotonic(a, (b - 1) as nat);
        assert(spec_pow256(b) == 256 * spec_pow256((b - 1) as nat));
    }
}

/// The capacities of the three widths the wire format uses.
pub proof fn lemma_pow256_values()
    ensures
        spec_pow256(4) == 0x1_0000_0000,
        spec_pow256(8) == 0x1_0000_0000_0000_0000,
        spec_pow256(16) == 0x1_0000_0000_0000_0000_0000_0000_0000_0000,
{
    assert(spec_pow256(0) == 1);
    assert(spec_pow256(1) == 256);
    assert(spec_pow256(2) == 0x1_0000);
    assert(spec_pow256(3) == 0x100_0000);
    assert(spec_pow256(4) == 0x1_0000_0000);
    assert(spec_pow256(5) == 0x100_0000_0000);
    assert(spec_pow256(6) == 0x1_0000_0000_0000);
    assert(spec_pow256(7) == 0x100_0000_0000_0000);
    assert(spec_pow256(8) == 0x1_0000_0000_0000_0000);
    assert(spec_pow256(9) == 0x100_0000_0000_0000_0000);
    assert(spec_pow256(10) == 0x1_0000_0000_0000_0000_0000);
    assert(spec_pow256(11) == 0x100_0000_0000_0000_0000_0000);
    assert(spec_pow256(12) == 0x1_0000_0000_0000_0000_0000_0000);
    assert(spec_pow256(13) == 0x100_0000_0000_0000_0000_0000_0000);
    assert(spec_pow256(14) == 0x1_0000_0000_0000_0000_0000_0000_0000);
    assert(spec_pow256(15) == 0x100_0000_0000_0000_0000_0000_0000_0000);
    assert(spec_pow256(16) == 0x1_0000_0000_0000_0000_0000_0000_0000_0000);
}

/// The big-endian bytes of the low `width` bytes of `n`, most
/// significant first.
fn be_bytes(n: u128, width: usize) -> (r: Vec<u8>)
    requires
        width <= 16,
        n < spec_pow256(width as nat),
    ensures
        r@ == spec_be_bytes(n as nat, width as nat),
        r@.len() == width,
    decreases width,
{
    if width == 0 {
        Vec::new()
    } else {
        proof {
            assert((n as nat) / 256 == (n / 256) as nat);
        }
        let mut r = be_bytes(n / 256, width - 1);
        r.push((n % 256) as u8);
        r
    }
}

/// The 8-byte big-endian form of a 64-bit number.
pub fn be_bytes_u64(n: u64) -> (r: Vec<u8>)
    ensures
        r@ == spec_be_bytes(n as nat, 8),
        r@.len() == 8,
{
    proof {
        lemma_pow256_values();
    }
    be_bytes(n as u128, 8)
}

/// The 16-byte big-endian form of a 128-bit number.
pub fn be_bytes_u128(n: u128) -> (r: Vec<u8>)
    ensures
        r@ == spec_be_bytes(n as nat, 16),
        r@.len() == 16,
{
    proof {
        lemma_pow256_values();
        lemma_be_value_bound(spec_be_bytes(n as nat, 16));
    }
    be_bytes(n, 16)
}

/// Reads the number the bytes at `start .. start + width` denote.
fn read_be(bytes: &Vec<u8>, start: usize, width: usize) -> (r: u128)
    requires
        start + width <= bytes@.len(),
        width <= 16,
    ensures
        r as nat == spec_be_value(bytes@.subrange(start as int, start + width)),
{
    let n = bytes.len();
    let mut acc: u128 = 0;
    let mut j: usize = 0;
    while j < width
        invariant
            start + width <= n == bytes@.len(),
            width <= 16,
            j <= width,
            acc as nat == spec_be_value(bytes@.subrange(start as int, start + j)),
        decreases width - j,
    {
        proof {
            let prev = bytes@.subrange(start as int, start + j);
            let cur = bytes@.subrange(start as int, start + j + 1);
            assert(cur.drop_last() =~= prev);
            lemma_be_value_bound(cur);
            lemma_pow256_monotonic(cur.len(), 16);
            lemma_pow256_values();
        }
        acc = acc * 256 + bytes[start + j] as u128;
        j += 1;
    }
    acc
}


/// The 4-byte wire form of one character: its Unicode scalar value,
/// big-endian.
pub open spec fn spec_char_bytes(c: char) -> Seq<u8> {
    spec_be_bytes((c as u32) as nat, 4)
}

/// The wire form of a string's characters, without a length prefix.
pub open spec fn spec_str_bytes(s: Seq<char>) -> Seq<u8>
    decreases s.len(),
{
    if s.len() == 0 {
        Seq::<u8>::empty()
    } else {
        spec_str_bytes(s.drop_last()) + spec_char_bytes(s.last())
    }
}

/// A string's characters take four bytes each on the wire.
pub proof fn lemma_str_bytes_len(s: Seq<char>)
    ensures
        spec_str_bytes(s).len() == 4 * s.len(),
    decreases s.len(),
{
    if s.len() > 0 {
        lemma_str_bytes_len(s.drop_last());
        lemma_be_bytes_len((s.last() as u32) as nat, 4);
    }
}

/// A string field: an 8-byte character count, then the characters.
pub open spec fn spec_str_field(s: Seq<char>) -> Seq<u8> {
    spec_be_bytes(s.len(), 8) + spec_str_bytes(s)
}

/// The wire form of a string's characters.
pub fn encode_str_bytes(s: &str) -> (r: Vec<u8>)
    ensures
        r@ == spec_str_bytes(s@),
        r@.len() == 4 * s@.len(),
{
    let n = s.unicode_len();
    let mut out: Vec<u8> = Vec::new();
    let mut i: usize = 0;
    while i < n
        invariant
            n == s@.len(),
            i <= n,
            out@ == spec_str_bytes(s@.subrange(0, i as int)),
        decreases n - i,
    {
        let c = s.get_char(i);
        proof {
            lemma_pow256_values();
        }
        let mut cb = be_bytes(c as u32 as u128, 4);
        out.append(&mut cb);
        proof {
            let prev = s@.subrange(0, i as int);
            let cur = s@.subrange(0, i + 1);
            assert(cur.drop_last() =~= prev);
            assert(out@ =~= spec_str_bytes(cur));
        }
        i += 1;
    }
    proof {
        assert(s@.subrange(0, s@.len() as int) =~= s@);
        lemma_str_bytes_len(s@);
    }
    out
}

/// Appends a length-prefixed string field to `out`.
fn append_str_field(out: &mut Vec<u8>, s: &str)
    ensures
        final(out)@ == old(out)@ + spec_str_field(s@),
{
    let n = s.unicode_len();
    let mut prefix = be_bytes_u64(n as u64);
    out.append(&mut prefix);
    let mut body = encode_str_bytes(s);
    out.append(&mut body);
    proof {
        assert(out@ =~= old(out)@ + spec_str_field(s@));
    }
}

/// The one-byte payload tag of a fungible transfer.
pub const TAG_FUNGIBLE: u8 = 1;

/// The one-byte payload tag of a non-fungible transfer.
pub const TAG_NON_FUNGIBLE: u8 = 2;

/// The wire form of a fungible transfer: the tag, the token identifier,
/// the amount, the receiver and the replay-protection sequence.
pub open spec fn spec_encode_fungible(m: FungibleTokenTransfer) -> Seq<u8> {
    seq![TAG_FUNGIBLE] + spec_str_field(m.token_id@) + spec_be_bytes(m.amount as nat, 16)
        + spec_str_field(m.receiver_address@) + spec_be_bytes(m.contract_sequence as nat, 8)
}

/// The wire form of a non-fungible transfer: the tag, the collection,
/// the token index, the receiver and the replay-protection sequence.
pub open spec fn spec_encode_non_fungible(m: NonFungibleTokenTransfer) -> Seq<u8> {
    seq![TAG_NON_FUNGIBLE] + spec_str_field(m.collection_address@)
        + spec_str_field(m.token_index@) + spec_str_field(m.receiver_address@)
        + spec_be_bytes(m.contract_sequence as nat, 8)
}

/// Encodes a fungible transfer into its wire form.
pub fn encode_fungible_transfer(m: &FungibleTokenTransfer) -> (r: Vec<u8>)
    ensures
        r@ == spec_encode_fungible(*m),
{
    let mut out: Vec<u8> = Vec::new();
    out.push(TAG_FUNGIBLE);
    append_str_field(&mut out, m.token_id.as_str());
    let mut amount = be_bytes_u128(m.amount);
    out.append(&mut amount);
    append_str_field(&mut out, m.receiver_address.as_str());
    let mut sequence = be_bytes_u64(m.contract_sequence);
    out.append(&mut sequence);
    proof {
        assert(out@ =~= spec_encode_fungible(*m));
    }
    out
}

/// Encodes a non-fungible transfer into its wire form.
pub fn encode_non_fungible_transfer(m: &NonFungibleTokenTransfer) -> (r: Vec<u8>)
    ensures
        r@ == spec_encode_non_fungible(*m),
{
    let mut out: Vec<u8> = Vec::new();
    out.push(TAG_NON_FUNGIBLE);
    append_str_field(&mut out, m.collection_address.as_str());
    append_str_field(&mut out, m.token_index.as_str());
    append_str_field(&mut out, m.receiver_address.as_str());
    let mut sequence = be_bytes_u64(m.contract_sequence);
    out.append(&mut sequence);
    proof {
        assert(out@ =~= spec_encode_non_fungible(*m));
    }
    out
}


/// The mathematical form of a decoded message: string fields stay the
/// raw byte strings the payload carried.
pub enum MessageModel {
    Fungible {
        token_id: Seq<u8>,
        amount: u128,
        receiver_address: Seq<u8>,
        contract_sequence: u64,
    },
    NonFungible {
        collection_address: Seq<u8>,
        token_index: Seq<u8>,
        receiver_address: Seq<u8>,
        contract_sequence: u64,
    },
}

/// A transfer message as the destination contract sees it after
/// decoding the payload.
#[derive(Clone, Debug, PartialEq, Eq)]
pub enum DecodedMessage {
    Fungible {
        token_id: Vec<u8>,
        amount: u128,
        receiver_address: Vec<u8>,
        contract_sequence: u64,
    },
    NonFungible {
        collection_address: Vec<u8>,
        token_index: Vec<u8>,
        receiver_address: Vec<u8>,
        contract_sequence: u64,
    },
}

impl View for DecodedMessage {
    type V = MessageModel;

    open spec fn view(&self) -> MessageModel {
        match self {
            DecodedMessage::Fungible { token_id, amount, receiver_address, contract_sequence } =>
                MessageModel::Fungible {
                    token_id: token_id@,
                    amount: *amount,
                    receiver_address: receiver_address@,
                    contract_sequence: *contract_sequence,
                },
            DecodedMessage::NonFungible {
                collection_address,
                token_index,
                receiver_address,
                contract_sequence,
            } => MessageModel::NonFungible {
                collection_address: collection_address@,
                token_index: token_index@,
                receiver_address: receiver_address@,
                contract_sequence: *contract_sequence,
            },
        }
    }
}

impl DecodedMessage {
    /// The replay-protection sequence the message carries.
    pub fn contract_sequence(&self) -> (r: u64)
        ensures
            r == self.spec_contract_sequence(),
    {
        match self {
            DecodedMessage::Fungible { contract_sequence, .. } => *contract_sequence,
            DecodedMessage::NonFungible { contract_sequence, .. } => *contract_sequence,
        }
    }

    /// The replay-protection sequence the message carries.
    pub open spec fn spec_contract_sequence(&self) -> u64 {
        match self {
            DecodedMessage::Fungible { contract_sequence, .. } => *contract_sequence,
            DecodedMessage::NonFungible { contract_sequence, .. } => *contract_sequence,
        }
    }
}

/// Reads the length-prefixed string field at `offset`: the field's byte
/// string and the offset just past it, or nothing when the payload is
/// too short.
pub open spec fn spec_take_field(bytes: Seq<u8>, offset: int) -> Option<(Seq<u8>, int)> {
    if offset + 8 > bytes.len() {
        None
    } else {
        let m = spec_be_value(bytes.subrange(offset, offset + 8)) as int;
        if offset + 8 + 4 * m > bytes.len() {
            None
        } else {
            Some((bytes.subrange(offset + 8, offset + 8 + 4 * m), offset + 8 + 4 * m))
        }
    }
}

/// What a payload decodes to, or nothing when it is malformed: a wrong
/// tag, a truncated field, or bytes left over after the message.
pub open spec fn spec_decode_message(bytes: Seq<u8>) -> Option<MessageModel> {
    if bytes.len() < 1 {
        None
    } else if bytes[0] == TAG_FUNGIBLE {
        match spec_take_field(bytes, 1) {
            None => None,
            Some((token_id, off1)) => if off1 + 16 > bytes.len() {
                None
            } else {
                let amount = spec_be_value(bytes.subrange(off1, off1 + 16));
                match spec_take_field(bytes, off1 + 16) {
                    None => None,
                    Some((receiver, off2)) => if off2 + 8 != bytes.len() {
                        None
                    } else {
                        let cs = spec_be_value(bytes.subrange(off2, off2 + 8));
                        Some(MessageModel::Fungible {
                            token_id: token_id,
                            amount: amount as u128,
                            receiver_address: receiver,
                            contract_sequence: cs as u64,
                        })
                    },
                }
            },
        }
    } else if bytes[0] == TAG_NON_FUNGIBLE {
        match spec_take_field(bytes, 1) {
            None => None,
            Some((collection, off1)) => match spec_take_field(bytes, off1) {
                None => None,
                Some((index, off2)) => match spec_take_field(bytes, off2) {
                    None => None,
                    Some((receiver, off3)) => if off3 + 8 != bytes.len() {
                        None
                    } else {
                        let cs = spec_be_value(bytes.subrange(off3, off3 + 8));
                        Some(MessageModel::NonFungible {
                            collection_address: collection,
                            token_index: index,
                            receiver_address: receiver,
                            contract_sequence: cs as u64,
                        })
                    },
                },
            },
        }
    } else {
        None
    }
}

/// Copies the bytes at `start .. end` into a fresh vector.
fn copy_range(bytes: &Vec<u8>, start: usize, end: usize) -> (r: Vec<u8>)
    requires
        start <= end <= bytes@.len(),
    ensures
        r@ == bytes@.subrange(start as int, end as int),
{
    let mut out: Vec<u8> = Vec::new();
    let mut i: usize = start;
    while i < end
        invariant
            start <= i <= end <= bytes@.len(),
            out@ == bytes@.subrange(start as int, i as int),
        decreases end - i,
    {
        out.push(bytes[i]);
        proof {
            assert(out@ =~= bytes@.subrange(start as int, i + 1));
        }
        i += 1;
    }
    out
}

/// Reads the length-prefixed string field at `offset`.
fn read_field(bytes: &Vec<u8>, offset: usize) -> (r: Result<(Vec<u8>, usize), Error>)
    requires
        offset <= bytes@.len(),
    ensures
        r matches Ok(p) ==> spec_take_field(bytes@, offset as int) == Some((p.0@, p.1 as int))
            && offset + 8 <= p.1 <= bytes@.len(),
        r is Err <==> spec_take_field(bytes@, offset as int) is None,
        r matches Err(e) ==> e == Error::FailedToParseTransactionPayload,
{
    let n = bytes.len();
    if n - offset < 8 {
        return Err(Error::FailedToParseTransactionPayload);
    }
    let m128 = read_be(bytes, offset, 8);
    let rem = n - (offset + 8);
    let quarter = (rem as u128) / 4;
    proof {
        let m = spec_be_value(bytes@.subrange(offset as int, offset + 8));
        vstd::arithmetic::div_mod::lemma_fundamental_div_mod(rem as int, 4);
        assert(m128 > quarter ==> 4 * m > rem);
        assert(m128 <= quarter ==> 4 * m <= rem);
    }
    if m128 > quarter {
        return Err(Error::FailedToParseTransactionPayload);
    }
    let m = m128 as usize;
    let end = offset + 8 + 4 * m;
    let field = copy_range(bytes, offset + 8, end);
    Ok((field, end))
}

/// Decodes a transfer payload, or reports that the contract could not
/// parse it.
pub fn decode_message(bytes: &Vec<u8>) -> (r: Result<DecodedMessage, Error>)
    ensures
        r matches Ok(d) ==> spec_decode_message(bytes@) == Some(d@),
        r is Err <==> spec_decode_message(bytes@) is None,
        r matches Err(e) ==> e == Error::FailedToParseTransactionPayload,
{
    let n = bytes.len();
    if n == 0 {
        return Err(Error::FailedToParseTransactionPayload);
    }
    let tag = bytes[0];
    if tag == TAG_FUNGIBLE {
        let (token_id, off1) = match read_field(bytes, 1) {
            Ok(p) => p,
            Err(e) => {
                return Err(e);
            },
        };
        if n - off1 < 16 {
            return Err(Error::FailedToParseTransactionPayload);
        }
        let amount = read_be(bytes, off1, 16);
        let (receiver, off2) = match read_field(bytes, off1 + 16) {
            Ok(p) => p,
            Err(e) => {
                return Err(e);
            },
        };
        if n - off2 != 8 {
            return Err(Error::FailedToParseTransactionPayload);
        }
        let cs128 = read_be(bytes, off2, 8);
        proof {
            lemma_be_value_bound(bytes@.subrange(off2 as int, off2 + 8));
            lemma_pow256_values();
        }
        let cs = cs128 as u64;
        Ok(DecodedMessage::Fungible {
            token_id,
            amount,
            receiver_address: receiver,
            contract_sequence: cs,
        })
    } else if tag == TAG_NON_FUNGIBLE {
        let (collection, off1) = match read_field(bytes, 1) {
            Ok(p) => p,
            Err(e) => {
                return Err(e);
            },
        };
        let (index, off2) = match read_field(bytes, off1) {
            Ok(p) => p,
            Err(e) => {
                return Err(e);
            },
        };
        let (receiver, off3) = match read_field(bytes, off2) {
            Ok(p) => p,
            Err(e) => {
                return Err(e);
            },
        };
        if n - off3 != 8 {
            return Err(Error::FailedToParseTransactionPayload);
        }
        let cs128 = read_be(bytes, off3, 8);
        proof {
            lemma_be_value_bound(bytes@.subrange(off3 as int, off3 + 8));
            lemma_pow256_values();
        }
        let cs = cs128 as u64;
        Ok(DecodedMessage::NonFungible {
            collection_address: collection,
            token_index: index,
            receiver_address: receiver,
            contract_sequence: cs,
        })
    } else {
        Err(Error::FailedToParseTransactionPayload)
    }
}


/// The execution descriptor of a fungible transfer: the effect the
/// destination contract matches against the Merkle-proved commit,
/// without the replay-protection sequence.
pub open spec fn spec_descriptor_fungible(m: FungibleTokenTransfer) -> Seq<u8> {
    seq![TAG_FUNGIBLE] + spec_str_field(m.receiver_address@) + spec_be_bytes(m.amount as nat, 16)
        + spec_str_field(m.token_id@)
}

/// The execution descriptor of a non-fungible transfer.
pub open spec fn spec_descriptor_non_fungible(m: NonFungibleTokenTransfer) -> Seq<u8> {
    seq![TAG_NON_FUNGIBLE] + spec_str_field(m.receiver_address@)
        + spec_str_field(m.collection_address@) + spec_str_field(m.token_index@)
}

/// Derives the execution descriptor of a fungible transfer.
pub fn derive_descriptor_fungible(m: &FungibleTokenTransfer) -> (r: Vec<u8>)
    ensures
        r@ == spec_descriptor_fungible(*m),
{
    let mut out: Vec<u8> = Vec::new();
    out.push(TAG_FUNGIBLE);
    append_str_field(&mut out, m.receiver_address.as_str());
    let mut amount = be_bytes_u128(m.amount);
    out.append(&mut amount);
    append_str_field(&mut out, m.token_id.as_str());
    proof {
        assert(out@ =~= spec_descriptor_fungible(*m));
    }
    out
}

/// Derives the execution descriptor of a non-fungible transfer.
pub fn derive_descriptor_non_fungible(m: &NonFungibleTokenTransfer) -> (r: Vec<u8>)
    ensures
        r@ == spec_descriptor_non_fungible(*m),
{
    let mut out: Vec<u8> = Vec::new();
    out.push(TAG_NON_FUNGIBLE);
    append_str_field(&mut out, m.receiver_address.as_str());
    append_str_field(&mut out, m.collection_address.as_str());
    append_str_field(&mut out, m.token_index.as_str());
    proof {
        assert(out@ =~= spec_descriptor_non_fungible(*m));
    }
    out
}

/// Decoding the wire form of a fungible transfer reproduces the message
/// exactly, with each string field carried as its character bytes.
pub proof fn lemma_decode_encode_fungible(m: FungibleTokenTransfer)
    requires
        m.token_id@.len() < 0x1_0000_0000_0000_0000,
        m.receiver_address@.len() < 0x1_0000_0000_0000_0000,
    ensures
        spec_decode_message(spec_encode_fungible(m)) == Some(MessageModel::Fungible {
            token_id: spec_str_bytes(m.token_id@),
            amount: m.amount,
            receiver_address: spec_str_bytes(m.receiver_address@),
            contract_sequence: m.contract_sequence,
        }),
{
    lemma_pow256_values();
    let lt = m.token_id@.len();
    let lr = m.receiver_address@.len();
    let ta = spec_be_bytes(lt, 8);
    let tb = spec_str_bytes(m.token_id@);
    let am = spec_be_bytes(m.amount as nat, 16);
    let ra = spec_be_bytes(lr, 8);
    let rb = spec_str_bytes(m.receiver_address@);
    let cs = spec_be_bytes(m.contract_sequence as nat, 8);
    lemma_be_bytes_len(lt, 8);
    lemma_be_bytes_len(lr, 8);
    lemma_be_bytes_len(m.amount as nat, 16);
    lemma_be_bytes_len(m.contract_sequence as nat, 8);
    lemma_str_bytes_len(m.token_id@);
    lemma_str_bytes_len(m.receiver_address@);
    let bytes = spec_encode_fungible(m);
    assert(bytes.len() == 41 + 4 * lt + 4 * lr);
    assert(bytes[0] == TAG_FUNGIBLE);

    assert(bytes.subrange(1, 9) =~= ta);
    lemma_be_round_trip(lt, 8);
    let off1 = 9 + 4 * lt as int;
    assert(bytes.subrange(9, off1) =~= tb);

    assert(bytes.subrange(off1, off1 + 16) =~= am);
    lemma_be_round_trip(m.amount as nat, 16);

    assert(bytes.subrange(off1 + 16, off1 + 24) =~= ra);
    lemma_be_round_trip(lr, 8);
    let off2 = off1 + 24 + 4 * lr as int;
    assert(bytes.subrange(off1 + 24, off2) =~= rb);

    assert(off2 + 8 == bytes.len());
    assert(bytes.subrange(off2, off2 + 8) =~= cs);
    lemma_be_round_trip(m.contract_sequence as nat, 8);

    assert(spec_take_field(bytes, 1) == Some((tb, off1)));
    assert(spec_take_field(bytes, off1 + 16) == Some((rb, off2)));
}

/// Decoding the wire form of a non-fungible transfer reproduces the
/// message exactly, with each string field carried as its character
/// bytes.
pub proof fn lemma_decode_encode_non_fungible(m: NonFungibleTokenTransfer)
    requires
        m.collection_address@.len() < 0x1_0000_0000_0000_0000,
        m.token_index@.len() < 0x1_0000_0000_0000_0000,
        m.receiver_address@.len() < 0x1_0000_0000_0000_0000,
    ensures
        spec_decode_message(spec_encode_non_fungible(m)) == Some(MessageModel::NonFungible {
            collection_address: spec_str_bytes(m.collection_address@),
            token_index: spec_str_bytes(m.token_index@),
            receiver_address: spec_str_bytes(m.receiver_address@),
            contract_sequence: m.contract_sequence,
        }),
{
    lemma_pow256_values();
    let lc = m.collection_address@.len();
    let li = m.token_index@.len();
    let lr = m.receiver_address@.len();
    let ca = spec_be_bytes(lc, 8);
    let cb = spec_str_bytes(m.collection_address@);
    let ia = spec_be_bytes(li, 8);
    let ib = spec_str_bytes(m.token_index@);
    let ra = spec_be_bytes(lr, 8);
    let rb = spec_str_bytes(m.receiver_address@);
    let cs = spec_be_bytes(m.contract_sequence as nat, 8);
    lemma_be_bytes_len(lc, 8);
    lemma_be_bytes_len(li, 8);
    lemma_be_bytes_len(lr, 8);
    lemma_be_bytes_len(m.contract_sequence as nat, 8);
    lemma_str_bytes_len(m.collection_address@);
    lemma_str_bytes_len(m.token_index@);
    lemma_str_bytes_len(m.receiver_address@);
    let bytes = spec_encode_non_fungible(m);
    assert(bytes.len() == 33 + 4 * lc + 4 * li + 4 * lr);
    assert(bytes[0] == TAG_NON_FUNGIBLE);

    assert(bytes.subrange(1, 9) =~= ca);
    lemma_be_round_trip(lc, 8);
    let off1 = 9 + 4 * lc as int;
    assert(bytes.subrange(9, off1) =~= cb);
    assert(spec_take_field(bytes, 1) == Some((cb, off1)));

    assert(bytes.subrange(off1, off1 + 8) =~= ia);
    lemma_be_round_trip(li, 8);
    let off2 = off1 + 8 + 4 * li as int;
    assert(bytes.subrange(off1 + 8, off2) =~= ib);
    assert(spec_take_field(bytes, off1) == Some((ib, off2)));

    assert(bytes.subrange(off2, off2 + 8) =~= ra);
    lemma_be_round_trip(lr, 8);
    let off3 = off2 + 8 + 4 * lr as int;
    assert(bytes.subrange(off2 + 8, off3) =~= rb);
    assert(spec_take_field(bytes, off2) == Some((rb, off3)));

    assert(off3 + 8 == bytes.len());
    assert(bytes.subrange(off3, off3 + 8) =~= cs);
    lemma_be_round_trip(m.contract_sequence as nat, 8);
}

} // verus!
