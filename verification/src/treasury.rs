//! A model of the destination treasury contract's state machine.
//!
//! The treasury holds bridged assets, an embedded light client, and the
//! replay-protection sequence.  The bridge protocol's invariants are
//! invariants of this machine: how a finalized header advances the
//! light client, and how an authenticated transfer message moves assets
//! and advances the sequence.
//!
//! Proof verification itself is delegated: the destination chain's
//! cryptographic machinery decides whether a finalization proof or a
//! Merkle inclusion proof verifies against the recorded trust root, and
//! each transition here takes that verdict as an input.  The transitions
//! state what holds of every verdict.
//!
//! Token identifiers and account keys are opaque byte strings, exactly
//! as they arrive in a decoded payload.

use vstd::prelude::*;
use crate::errors::Error;
use crate::wire::DecodedMessage;
use crate::wire::MessageModel;
use crate::wire::decode_message;
use crate::wire::spec_decode_message;
use crate::wire::spec_encode_fungible;
use crate::wire::spec_str_bytes;
use crate::wire::lemma_decode_encode_fungible;
use crate::types::FungibleTokenTransfer;
use crate::types::bytes_eq;
use crate::types::clone_bytes;

verus! {

/// One fungible balance: `holder` owns `amount` units of `token`.
#[derive(Clone, Debug, PartialEq, Eq)]
pub struct BalanceEntry {
    pub token: Vec<u8>,
    pub holder: Vec<u8>,
    pub amount: u128,
}

/// The mathematical form of a fungible balance.
#[verifier::ext_equal]
pub struct BalanceRec {
    pub token: Seq<u8>,
    pub holder: Seq<u8>,
    pub amount: u128,
}

impl View for BalanceEntry {
    type V = BalanceRec;

    open spec fn view(&self) -> BalanceRec {
        BalanceRec { token: self.token@, holder: self.holder@, amount: self.amount }
    }
}

/// One non-fungible asset: `token_index` within `collection`, held by
/// `owner`.
#[derive(Clone, Debug, PartialEq, Eq)]
pub struct NftEntry {
    pub collection: Vec<u8>,
    pub token_index: Vec<u8>,
    pub owner: Vec<u8>,
}

/// The mathematical form of a non-fungible asset record.
#[verifier::ext_equal]
pub struct NftRec {
    pub collection: Seq<u8>,
    pub token_index: Seq<u8>,
    pub owner: Seq<u8>,
}

impl View for NftEntry {
    type V = NftRec;

    open spec fn view(&self) -> NftRec {
        NftRec {
            collection: self.collection@,
            token_index: self.token_index@,
            owner: self.owner@,
        }
    }
}

/// The mathematical form of the treasury contract's state.
#[verifier::ext_equal]
pub struct TreasuryModel {
    /// The ledger key under which the treasury itself holds assets.
    pub treasury_account: Seq<u8>,
    /// The first source-chain height the light client ever trusted.
    pub height_offset: u64,
    /// The source-chain height of the currently trusted header.
    pub last_height: u64,
    /// The currently trusted header payload.
    pub last_header: Seq<u8>,
    /// The replay-protection counter.
    pub sequence: u64,
    /// All fungible balances.
    pub balances: Seq<BalanceRec>,
    /// All non-fungible assets.
    pub nfts: Seq<NftRec>,
}

/// The destination treasury contract's state.
pub struct TreasuryContract {
    pub treasury_account: Vec<u8>,
    pub height_offset: u64,
    pub last_height: u64,
    pub last_header: Vec<u8>,
    pub sequence: u64,
    pub balances: Vec<BalanceEntry>,
    pub nfts: Vec<NftEntry>,
}

/// The mathematical form of a sequence of balance entries.
pub open spec fn balances_view(entries: Seq<BalanceEntry>) -> Seq<BalanceRec> {
    entries.map_values(|e: BalanceEntry| e@)
}

/// The mathematical form of a sequence of asset records.
pub open spec fn nfts_view(entries: Seq<NftEntry>) -> Seq<NftRec> {
    entries.map_values(|e: NftEntry| e@)
}

impl View for TreasuryContract {
    type V = TreasuryModel;

    open spec fn view(&self) -> TreasuryModel {
        TreasuryModel {
            treasury_account: self.treasury_account@,
            height_offset: self.height_offset,
            last_height: self.last_height,
            last_header: self.last_header@,
            sequence: self.sequence,
            balances: balances_view(self.balances@),
            nfts: nfts_view(self.nfts@),
        }
    }
}

/// How many units of `token` the first ledger entry for
/// `(token, holder)` holds; zero when there is none.
pub open spec fn spec_balance_of(s: Seq<BalanceRec>, token: Seq<u8>, holder: Seq<u8>) -> u128
    decreases s.len(),
{
    if s.len() == 0 {
        0
    } else if s[0].token == token && s[0].holder == holder {
        s[0].amount
    } else {
        spec_balance_of(s.subrange(1, s.len() as int), token, holder)
    }
}

/// The ledger after removing `amount` units from the first entry for
/// `(token, holder)`; unchanged when there is none.
pub open spec fn spec_debit(s: Seq<BalanceRec>, token: Seq<u8>, holder: Seq<u8>, amount: u128) -> Seq<
    BalanceRec,
>
    decreases s.len(),
{
    if s.len() == 0 {
        s
    } else if s[0].token == token && s[0].holder == holder {
        s.update(0, BalanceRec { amount: (s[0].amount - amount) as u128, ..s[0] })
    } else {
        seq![s[0]] + spec_debit(s.subrange(1, s.len() as int), token, holder, amount)
    }
}

/// The ledger after adding `amount` units to the first entry for
/// `(token, holder)`, or with a fresh entry when there is none.
pub open spec fn spec_credit(s: Seq<BalanceRec>, token: Seq<u8>, holder: Seq<u8>, amount: u128) -> Seq<
    BalanceRec,
>
    decreases s.len(),
{
    if s.len() == 0 {
        seq![BalanceRec { token: token, holder: holder, amount: amount }]
    } else if s[0].token == token && s[0].holder == holder {
        s.update(0, BalanceRec { amount: (s[0].amount + amount) as u128, ..s[0] })
    } else {
        seq![s[0]] + spec_credit(s.subrange(1, s.len() as int), token, holder, amount)
    }
}

/// Who owns the asset `token_index` of `collection`, if it is recorded.
pub open spec fn spec_nft_owner(s: Seq<NftRec>, collection: Seq<u8>, token_index: Seq<u8>) -> Option<
    Seq<u8>,
>
    decreases s.len(),
{
    if s.len() == 0 {
        None
    } else if s[0].collection == collection && s[0].token_index == token_index {
        Some(s[0].owner)
    } else {
        spec_nft_owner(s.subrange(1, s.len() as int), collection, token_index)
    }
}

/// The registry after handing the asset `token_index` of `collection`
/// to `owner`; unchanged when the asset is not recorded.
pub open spec fn spec_set_nft_owner(
    s: Seq<NftRec>,
    collection: Seq<u8>,
    token_index: Seq<u8>,
    owner: Seq<u8>,
) -> Seq<NftRec>
    decreases s.len(),
{
    if s.len() == 0 {
        s
    } else if s[0].collection == collection && s[0].token_index == token_index {
        s.update(0, NftRec { owner: owner, ..s[0] })
    } else {
        seq![s[0]] + spec_set_nft_owner(s.subrange(1, s.len() as int), collection, token_index, owner)
    }
}

/// When the first `k` entries miss the key and entry `k` matches it,
/// the balance is entry `k`'s amount.
proof fn lemma_balance_of_first_match(s: Seq<BalanceRec>, token: Seq<u8>, holder: Seq<u8>, k: int)
    requires
        0 <= k < s.len(),
        forall|j: int| 0 <= j < k ==> !(s[j].token == token && s[j].holder == holder),
        s[k].token == token && s[k].holder == holder,
    ensures
        spec_balance_of(s, token, holder) == s[k].amount,
    decreases k,
{
    if k > 0 {
        let tail = s.subrange(1, s.len() as int);
        lemma_balance_of_first_match(tail, token, holder, k - 1);
    }
}

/// When no entry matches the key, the balance is zero.
proof fn lemma_balance_of_no_match(s: Seq<BalanceRec>, token: Seq<u8>, holder: Seq<u8>)
    requires
        forall|j: int| 0 <= j < s.len() ==> !(s[j].token == token && s[j].holder == holder),
    ensures
        spec_balance_of(s, token, holder) == 0,
    decreases s.len(),
{
    if s.len() > 0 {
        let tail = s.subrange(1, s.len() as int);
        lemma_balance_of_no_match(tail, token, holder);
    }
}

/// When the first `k` entries miss the key and entry `k` matches it,
/// a debit rewrites exactly entry `k`.
proof fn lemma_debit_first_match(
    s: Seq<BalanceRec>,
    token: Seq<u8>,
    holder: Seq<u8>,
    amount: u128,
    k: int,
)
    requires
        0 <= k < s.len(),
        forall|j: int| 0 <= j < k ==> !(s[j].token == token && s[j].holder == holder),
        s[k].token == token && s[k].holder == holder,
    ensures
        spec_debit(s, token, holder, amount) == s.update(
            k,
            BalanceRec { amount: (s[k].amount - amount) as u128, ..s[k] },
        ),
    decreases k,
{
    if k == 0 {
    } else {
        let tail = s.subrange(1, s.len() as int);
        lemma_debit_first_match(tail, token, holder, amount, k - 1);
        assert(spec_debit(s, token, holder, amount) =~= s.update(
            k,
            BalanceRec { amount: (s[k].amount - amount) as u128, ..s[k] },
        ));
    }
}

/// When the first `k` entries miss the key and entry `k` matches it,
/// a credit rewrites exactly entry `k`.
proof fn lemma_credit_first_match(
    s: Seq<BalanceRec>,
    token: Seq<u8>,
    holder: Seq<u8>,
    amount: u128,
    k: int,
)
    requires
        0 <= k < s.len(),
        forall|j: int| 0 <= j < k ==> !(s[j].token == token && s[j].holder == holder),
        s[k].token == token && s[k].holder == holder,
    ensures
        spec_credit(s, token, holder, amount) == s.update(
            k,
            BalanceRec { amount: (s[k].amount + amount) as u128, ..s[k] },
        ),
    decreases k,
{
    if k == 0 {
    } else {
        let tail = s.subrange(1, s.len() as int);
        lemma_credit_first_match(tail, token, holder, amount, k - 1);
        assert(spec_credit(s, token, holder, amount) =~= s.update(
            k,
            BalanceRec { amount: (s[k].amount + amount) as u128, ..s[k] },
        ));
    }
}

/// When no entry matches the key, a credit appends a fresh entry.
proof fn lemma_credit_no_match(s: Seq<BalanceRec>, token: Seq<u8>, holder: Seq<u8>, amount: u128)
    requires
        forall|j: int| 0 <= j < s.len() ==> !(s[j].token == token && s[j].holder == holder),
    ensures
        spec_credit(s, token, holder, amount) == s.push(
            BalanceRec { token: token, holder: holder, amount: amount },
        ),
    decreases s.len(),
{
    if s.len() == 0 {
        assert(spec_credit(s, token, holder, amount) =~= s.push(
            BalanceRec { token: token, holder: holder, amount: amount },
        ));
    } else {
        let tail = s.subrange(1, s.len() as int);
        lemma_credit_no_match(tail, token, holder, amount);
        assert(spec_credit(s, token, holder, amount) =~= s.push(
            BalanceRec { token: token, holder: holder, amount: amount },
        ));
    }
}

/// When the first `k` records miss the asset and record `k` matches it,
/// the owner is record `k`'s owner.
proof fn lemma_nft_owner_first_match(s: Seq<NftRec>, collection: Seq<u8>, token_index: Seq<u8>, k: int)
    requires
        0 <= k < s.len(),
        forall|j: int|
            0 <= j < k ==> !(s[j].collection == collection && s[j].token_index == token_index),
        s[k].collection == collection && s[k].token_index == token_index,
    ensures
        spec_nft_owner(s, collection, token_index) == Some(s[k].owner),
    decreases k,
{
    if k > 0 {
        let tail = s.subrange(1, s.len() as int);
        lemma_nft_owner_first_match(tail, collection, token_index, k - 1);
    }
}

/// When no record matches the asset, it has no owner.
proof fn lemma_nft_owner_no_match(s: Seq<NftRec>, collection: Seq<u8>, token_index: Seq<u8>)
    requires
        forall|j: int|
            0 <= j < s.len() ==> !(s[j].collection == collection && s[j].token_index == token_index),
    ensures
        spec_nft_owner(s, collection, token_index) is None,
    decreases s.len(),
{
    if s.len() > 0 {
        let tail = s.subrange(1, s.len() as int);
        lemma_nft_owner_no_match(tail, collection, token_index);
    }
}

/// When the first `k` records miss the asset and record `k` matches it,
/// an ownership change rewrites exactly record `k`.
proof fn lemma_set_nft_owner_first_match(
    s: Seq<NftRec>,
    collection: Seq<u8>,
    token_index: Seq<u8>,
    owner: Seq<u8>,
    k: int,
)
    requires
        0 <= k < s.len(),
        forall|j: int|
            0 <= j < k ==> !(s[j].collection == collection && s[j].token_index == token_index),
        s[k].collection == collection && s[k].token_index == token_index,
    ensures
        spec_set_nft_owner(s, collection, token_index, owner) == s.update(
            k,
            NftRec { owner: owner, ..s[k] },
        ),
    decreases k,
{
    if k == 0 {
    } else {
        let tail = s.subrange(1, s.len() as int);
        lemma_set_nft_owner_first_match(tail, collection, token_index, owner, k - 1);
        assert(spec_set_nft_owner(s, collection, token_index, owner) =~= s.update(
            k,
            NftRec { owner: owner, ..s[k] },
        ));
    }
}


/// Debiting a key lowers exactly that balance by the debited amount and
/// leaves every other balance as it was.
pub proof fn lemma_debit_effect(s: Seq<BalanceRec>, token: Seq<u8>, holder: Seq<u8>, amount: u128)
    requires
        spec_balance_of(s, token, holder) >= amount,
    ensures
        spec_balance_of(spec_debit(s, token, holder, amount), token, holder) == spec_balance_of(
            s,
            token,
            holder,
        ) - amount,
        forall|t2: Seq<u8>, h2: Seq<u8>|
            !(t2 == token && h2 == holder) ==> #[trigger] spec_balance_of(
                spec_debit(s, token, holder, amount),
                t2,
                h2,
            ) == spec_balance_of(s, t2, h2),
        spec_debit(s, token, holder, amount).len() == s.len(),
    decreases s.len(),
{
    let d = spec_debit(s, token, holder, amount);
    if s.len() == 0 {
    } else if s[0].token == token && s[0].holder == holder {
        assert forall|t2: Seq<u8>, h2: Seq<u8>| !(t2 == token && h2 == holder) implies #[trigger]
            spec_balance_of(d, t2, h2) == spec_balance_of(s, t2, h2) by {
            assert(d.subrange(1, d.len() as int) =~= s.subrange(1, s.len() as int));
        }
    } else {
        let tail = s.subrange(1, s.len() as int);
        lemma_debit_effect(tail, token, holder, amount);
        assert(d.subrange(1, d.len() as int) =~= spec_debit(tail, token, holder, amount));
        assert(d[0] == s[0]);
        assert forall|t2: Seq<u8>, h2: Seq<u8>| !(t2 == token && h2 == holder) implies #[trigger]
            spec_balance_of(d, t2, h2) == spec_balance_of(s, t2, h2) by {
            if !(s[0].token == t2 && s[0].holder == h2) {
                assert(spec_balance_of(spec_debit(tail, token, holder, amount), t2, h2)
                    == spec_balance_of(tail, t2, h2));
            }
        }
    }
}

/// Crediting a key raises exactly that balance by the credited amount
/// and leaves every other balance as it was.
pub proof fn lemma_credit_effect(s: Seq<BalanceRec>, token: Seq<u8>, holder: Seq<u8>, amount: u128)
    requires
        spec_balance_of(s, token, holder) + amount <= u128::MAX,
    ensures
        spec_balance_of(spec_credit(s, token, holder, amount), token, holder) == spec_balance_of(
            s,
            token,
            holder,
        ) + amount,
        forall|t2: Seq<u8>, h2: Seq<u8>|
            !(t2 == token && h2 == holder) ==> #[trigger] spec_balance_of(
                spec_credit(s, token, holder, amount),
                t2,
                h2,
            ) == spec_balance_of(s, t2, h2),
    decreases s.len(),
{
    let c = spec_credit(s, token, holder, amount);
    if s.len() == 0 {
        assert forall|t2: Seq<u8>, h2: Seq<u8>| !(t2 == token && h2 == holder) implies #[trigger]
            spec_balance_of(c, t2, h2) == spec_balance_of(s, t2, h2) by {
            assert(c[0].token == token && c[0].holder == holder);
            let rest = c.subrange(1, c.len() as int);
            assert(rest =~= Seq::<BalanceRec>::empty());
            assert(spec_balance_of(c, t2, h2) == spec_balance_of(rest, t2, h2));
            assert(spec_balance_of(rest, t2, h2) == 0);
        }
    } else if s[0].token == token && s[0].holder == holder {
        assert forall|t2: Seq<u8>, h2: Seq<u8>| !(t2 == token && h2 == holder) implies #[trigger]
            spec_balance_of(c, t2, h2) == spec_balance_of(s, t2, h2) by {
            assert(c.subrange(1, c.len() as int) =~= s.subrange(1, s.len() as int));
        }
    } else {
        let tail = s.subrange(1, s.len() as int);
        lemma_credit_effect(tail, token, holder, amount);
        assert(c.subrange(1, c.len() as int) =~= spec_credit(tail, token, holder, amount));
        assert(c[0] == s[0]);
        assert forall|t2: Seq<u8>, h2: Seq<u8>| !(t2 == token && h2 == holder) implies #[trigger]
            spec_balance_of(c, t2, h2) == spec_balance_of(s, t2, h2) by {
            if !(s[0].token == t2 && s[0].holder == h2) {
                assert(spec_balance_of(spec_credit(tail, token, holder, amount), t2, h2)
                    == spec_balance_of(tail, t2, h2));
            }
        }
    }
}

/// Handing an asset to a new owner changes exactly that record's owner
/// and no other record.
pub proof fn lemma_set_nft_owner_effect(
    s: Seq<NftRec>,
    collection: Seq<u8>,
    token_index: Seq<u8>,
    owner: Seq<u8>,
)
    requires
        spec_nft_owner(s, collection, token_index) is Some,
    ensures
        spec_nft_owner(spec_set_nft_owner(s, collection, token_index, owner), collection,
            token_index) == Some(owner),
        forall|c2: Seq<u8>, i2: Seq<u8>|
            !(c2 == collection && i2 == token_index) ==> #[trigger] spec_nft_owner(
                spec_set_nft_owner(s, collection, token_index, owner),
                c2,
                i2,
            ) == spec_nft_owner(s, c2, i2),
    decreases s.len(),
{
    let u = spec_set_nft_owner(s, collection, token_index, owner);
    if s.len() == 0 {
    } else if s[0].collection == collection && s[0].token_index == token_index {
        assert forall|c2: Seq<u8>, i2: Seq<u8>| !(c2 == collection && i2 == token_index) implies
            #[trigger] spec_nft_owner(u, c2, i2) == spec_nft_owner(s, c2, i2) by {
            assert(u.subrange(1, u.len() as int) =~= s.subrange(1, s.len() as int));
        }
    } else {
        let tail = s.subrange(1, s.len() as int);
        lemma_set_nft_owner_effect(tail, collection, token_index, owner);
        assert(u.subrange(1, u.len() as int) =~= spec_set_nft_owner(tail, collection, token_index,
            owner));
        assert(u[0] == s[0]);
        assert forall|c2: Seq<u8>, i2: Seq<u8>| !(c2 == collection && i2 == token_index) implies
            #[trigger] spec_nft_owner(u, c2, i2) == spec_nft_owner(s, c2, i2) by {
            if !(s[0].collection == c2 && s[0].token_index == i2) {
                assert(spec_nft_owner(spec_set_nft_owner(tail, collection, token_index, owner), c2,
                    i2) == spec_nft_owner(tail, c2, i2));
            }
        }
    }
}

/// Looks up the balance of `(token, holder)` in the ledger.
fn balance_lookup(entries: &Vec<BalanceEntry>, token: &Vec<u8>, holder: &Vec<u8>) -> (r: u128)
    ensures
        r == spec_balance_of(balances_view(entries@), token@, holder@),
{
    let n = entries.len();
    let mut k: usize = 0;
    while k < n
        invariant
            n == entries@.len(),
            k <= n,
            forall|j: int|
                0 <= j < k ==> !((#[trigger] balances_view(entries@)[j]).token == token@
                    && balances_view(entries@)[j].holder == holder@),
        decreases n - k,
    {
        let te = bytes_eq(&entries[k].token, token);
        let he = bytes_eq(&entries[k].holder, holder);
        if te && he {
            proof {
                lemma_balance_of_first_match(balances_view(entries@), token@, holder@, k as int);
            }
            return entries[k].amount;
        }
        k += 1;
    }
    proof {
        lemma_balance_of_no_match(balances_view(entries@), token@, holder@);
    }
    0
}

/// Removes `amount` units from the first ledger entry for
/// `(token, holder)`.
fn debit_entries(entries: &mut Vec<BalanceEntry>, token: &Vec<u8>, holder: &Vec<u8>, amount: u128)
    requires
        amount > 0,
        spec_balance_of(balances_view(old(entries)@), token@, holder@) >= amount,
    ensures
        balances_view(final(entries)@) == spec_debit(
            balances_view(old(entries)@),
            token@,
            holder@,
            amount,
        ),
{
    let ghost s0 = balances_view(entries@);
    let n = entries.len();
    let mut k: usize = 0;
    while k < n
        invariant
            entries@ == old(entries)@,
            s0 == balances_view(entries@),
            spec_balance_of(s0, token@, holder@) >= amount,
            n == entries@.len(),
            k <= n,
            forall|j: int|
                0 <= j < k ==> !((#[trigger] s0[j]).token == token@ && s0[j].holder == holder@),
        decreases n - k,
    {
        let te = bytes_eq(&entries[k].token, token);
        let he = bytes_eq(&entries[k].holder, holder);
        if te && he {
            proof {
                lemma_balance_of_first_match(s0, token@, holder@, k as int);
                lemma_debit_first_match(s0, token@, holder@, amount, k as int);
            }
            let cur = entries[k].amount;
            proof {
                assert(s0[k as int] == entries@[k as int]@);
                assert(cur >= amount);
            }
            entries[k].amount = cur - amount;
            proof {
                assert(balances_view(entries@) =~= s0.update(
                    k as int,
                    BalanceRec { amount: (s0[k as int].amount - amount) as u128, ..s0[k as int] },
                ));
            }
            return;
        }
        k += 1;
    }
    proof {
        lemma_balance_of_no_match(s0, token@, holder@);
        assert(false);
    }
}

/// Adds `amount` units to the first ledger entry for `(token, holder)`,
/// or records a fresh entry when there is none.
fn credit_entries(entries: &mut Vec<BalanceEntry>, token: &Vec<u8>, holder: &Vec<u8>, amount: u128)
    requires
        spec_balance_of(balances_view(old(entries)@), token@, holder@) + amount <= u128::MAX,
    ensures
        balances_view(final(entries)@) == spec_credit(
            balances_view(old(entries)@),
            token@,
            holder@,
            amount,
        ),
{
    let ghost s0 = balances_view(entries@);
    let n = entries.len();
    let mut k: usize = 0;
    while k < n
        invariant
            entries@ == old(entries)@,
            s0 == balances_view(entries@),
            spec_balance_of(s0, token@, holder@) + amount <= u128::MAX,
            n == entries@.len(),
            k <= n,
            forall|j: int|
                0 <= j < k ==> !((#[trigger] s0[j]).token == token@ && s0[j].holder == holder@),
        decreases n - k,
    {
        let te = bytes_eq(&entries[k].token, token);
        let he = bytes_eq(&entries[k].holder, holder);
        if te && he {
            proof {
                lemma_balance_of_first_match(s0, token@, holder@, k as int);
                lemma_credit_first_match(s0, token@, holder@, amount, k as int);
            }
            let cur = entries[k].amount;
            proof {
                assert(s0[k as int] == entries@[k as int]@);
                assert(cur + amount <= u128::MAX);
            }
            entries[k].amount = cur + amount;
            proof {
                assert(balances_view(entries@) =~= s0.update(
                    k as int,
                    BalanceRec { amount: (s0[k as int].amount + amount) as u128, ..s0[k as int] },
                ));
            }
            return;
        }
        k += 1;
    }
    proof {
        lemma_balance_of_no_match(s0, token@, holder@);
        lemma_credit_no_match(s0, token@, holder@, amount);
    }
    entries.push(BalanceEntry { token: clone_bytes(token), holder: clone_bytes(holder), amount });
    proof {
        assert(balances_view(entries@) =~= s0.push(
            BalanceRec { token: token@, holder: holder@, amount: amount },
        ));
    }
}

/// Finds the registry index of the asset `token_index` of `collection`.
fn nft_find(entries: &Vec<NftEntry>, collection: &Vec<u8>, token_index: &Vec<u8>) -> (r: Option<
    usize,
>)
    ensures
        r matches Some(k) ==> k < entries@.len()
            && nfts_view(entries@)[k as int].collection == collection@
            && nfts_view(entries@)[k as int].token_index == token_index@
            && (forall|j: int|
                0 <= j < k ==> !((#[trigger] nfts_view(entries@)[j]).collection == collection@
                    && nfts_view(entries@)[j].token_index == token_index@))
            && spec_nft_owner(nfts_view(entries@), collection@, token_index@) == Some(
                nfts_view(entries@)[k as int].owner,
            ),
        r is None <==> spec_nft_owner(nfts_view(entries@), collection@, token_index@) is None,
{
    let n = entries.len();
    let mut k: usize = 0;
    while k < n
        invariant
            n == entries@.len(),
            k <= n,
            forall|j: int|
                0 <= j < k ==> !((#[trigger] nfts_view(entries@)[j]).collection == collection@
                    && nfts_view(entries@)[j].token_index == token_index@),
        decreases n - k,
    {
        let ce = bytes_eq(&entries[k].collection, collection);
        let ie = bytes_eq(&entries[k].token_index, token_index);
        if ce && ie {
            proof {
                lemma_nft_owner_first_match(nfts_view(entries@), collection@, token_index@,
                    k as int);
            }
            return Some(k);
        }
        k += 1;
    }
    proof {
        lemma_nft_owner_no_match(nfts_view(entries@), collection@, token_index@);
    }
    None
}

/// Hands the recorded asset `token_index` of `collection` to
/// `new_owner`.
fn set_nft_owner_entries(
    entries: &mut Vec<NftEntry>,
    collection: &Vec<u8>,
    token_index: &Vec<u8>,
    new_owner: &Vec<u8>,
)
    requires
        spec_nft_owner(nfts_view(old(entries)@), collection@, token_index@) is Some,
    ensures
        nfts_view(final(entries)@) == spec_set_nft_owner(
            nfts_view(old(entries)@),
            collection@,
            token_index@,
            new_owner@,
        ),
{
    let ghost s0 = nfts_view(entries@);
    match nft_find(entries, collection, token_index) {
        Some(k) => {
            proof {
                lemma_set_nft_owner_first_match(s0, collection@, token_index@, new_owner@,
                    k as int);
            }
            entries[k].owner = clone_bytes(new_owner);
            proof {
                assert(nfts_view(entries@) =~= s0.update(
                    k as int,
                    NftRec { owner: new_owner@, ..s0[k as int] },
                ));
            }
        },
        None => {
            proof {
                assert(false);
            }
        },
    }
}

/// The replay-protection sequence a decoded message carries.
pub open spec fn spec_message_sequence(msg: MessageModel) -> u64 {
    match msg {
        MessageModel::Fungible { contract_sequence, .. } => contract_sequence,
        MessageModel::NonFungible { contract_sequence, .. } => contract_sequence,
    }
}

/// How the treasury's light client reacts to a header submission, given
/// the delegated verifier's verdict on the finalization proof.
///
/// Re-submitting the header the light client already trusts is a no-op,
/// whatever the verdict; a new header is stored only when its proof
/// verified, and advances the trusted height by one.
pub open spec fn spec_update_light_client(
    m: TreasuryModel,
    header: Seq<u8>,
    proof_ok: bool,
) -> (TreasuryModel, Result<(), Error>) {
    if header == m.last_header {
        (m, Ok(()))
    } else if !proof_ok {
        (m, Err(Error::InvalidProof))
    } else if m.last_height == u64::MAX {
        (m, Err(Error::InternalContractError))
    } else {
        (
            TreasuryModel {
                last_header: header,
                last_height: (m.last_height + 1) as u64,
                ..m
            },
            Ok(()),
        )
    }
}

/// How the treasury applies an already authenticated transfer message:
/// the replay-protection check, the message's own validity checks, and
/// the asset movement.
pub open spec fn spec_apply_message(m: TreasuryModel, msg: MessageModel) -> (
    TreasuryModel,
    Result<(), Error>,
) {
    let got = spec_message_sequence(msg);
    if got != m.sequence {
        (m, Err(Error::InvalidContractSequence { expected: m.sequence, got: got }))
    } else if m.sequence == u64::MAX {
        (m, Err(Error::InternalContractError))
    } else {
        match msg {
            MessageModel::Fungible { token_id, amount, receiver_address, contract_sequence } => {
                if amount == 0 {
                    (m, Err(Error::InvalidMessageArgument))
                } else if spec_balance_of(m.balances, token_id, m.treasury_account) < amount {
                    (m, Err(Error::NotEnoughBalance))
                } else {
                    let debited = spec_debit(m.balances, token_id, m.treasury_account, amount);
                    if spec_balance_of(debited, token_id, receiver_address) + amount > u128::MAX {
                        (m, Err(Error::InternalContractError))
                    } else {
                        (
                            TreasuryModel {
                                balances: spec_credit(debited, token_id, receiver_address, amount),
                                sequence: (m.sequence + 1) as u64,
                                ..m
                            },
                            Ok(()),
                        )
                    }
                }
            },
            MessageModel::NonFungible {
                collection_address,
                token_index,
                receiver_address,
                contract_sequence,
            } => {
                if spec_nft_owner(m.nfts, collection_address, token_index) != Some(
                    m.treasury_account,
                ) {
                    (m, Err(Error::NotEnoughBalance))
                } else {
                    (
                        TreasuryModel {
                            nfts: spec_set_nft_owner(m.nfts, collection_address, token_index,
                                receiver_address),
                            sequence: (m.sequence + 1) as u64,
                            ..m
                        },
                        Ok(()),
                    )
                }
            },
        }
    }
}

/// How the treasury reacts to an `execute` submission: the block must be
/// one the light client trusts, the Merkle proof must have verified
/// (the delegated verifier's verdict), the payload must decode, and the
/// decoded message is then applied.
pub open spec fn spec_execute(
    m: TreasuryModel,
    tx: Seq<u8>,
    block_height: u64,
    proof_ok: bool,
) -> (TreasuryModel, Result<(), Error>) {
    if !(m.height_offset <= block_height && block_height <= m.last_height) {
        (m, Err(Error::InvalidProof))
    } else if !proof_ok {
        (m, Err(Error::InvalidProof))
    } else {
        match spec_decode_message(tx) {
            None => (m, Err(Error::FailedToParseTransactionPayload)),
            Some(msg) => spec_apply_message(m, msg),
        }
    }
}

impl TreasuryContract {
    /// The current replay-protection counter.
    pub fn get_contract_sequence(&self) -> (r: u64)
        ensures
            r == self@.sequence,
    {
        self.sequence
    }

    /// The light client's state: the height offset and the currently
    /// trusted header payload.
    pub fn get_light_client(&self) -> (r: (u64, Vec<u8>))
        ensures
            r.0 == self@.height_offset,
            r.1@ == self@.last_header,
    {
        (self.height_offset, clone_bytes(&self.last_header))
    }

    /// The balance `holder` has of `token`.
    pub fn get_fungible_balance(&self, token: &Vec<u8>, holder: &Vec<u8>) -> (r: u128)
        ensures
            r == spec_balance_of(self@.balances, token@, holder@),
    {
        balance_lookup(&self.balances, token, holder)
    }

    /// The balance the treasury itself holds of `token`.
    pub fn get_treasury_fungible_balance(&self, token: &Vec<u8>) -> (r: u128)
        ensures
            r == spec_balance_of(self@.balances, token@, self@.treasury_account),
    {
        balance_lookup(&self.balances, token, &self.treasury_account)
    }

    /// Who owns the asset `token_index` of `collection`, if recorded.
    pub fn get_non_fungible_owner(&self, collection: &Vec<u8>, token_index: &Vec<u8>) -> (r:
        Option<Vec<u8>>)
        ensures
            r matches Some(o) ==> spec_nft_owner(self@.nfts, collection@, token_index@) == Some(
                o@,
            ),
            r is None <==> spec_nft_owner(self@.nfts, collection@, token_index@) is None,
    {
        match nft_find(&self.nfts, collection, token_index) {
            Some(k) => Some(clone_bytes(&self.nfts[k].owner)),
            None => None,
        }
    }

    /// Every fungible token the treasury holds an entry for, each
    /// listed once with the treasury's balance of it.
    pub fn get_all_fungible_balances(&self) -> (r: Vec<(Vec<u8>, u128)>)
        ensures
            forall|k: int|
                0 <= k < r@.len() ==> (#[trigger] r@[k]).1 == spec_balance_of(
                    self@.balances,
                    r@[k].0@,
                    self@.treasury_account,
                ),
            forall|k1: int, k2: int| 0 <= k1 < k2 < r@.len() ==> r@[k1].0@ != r@[k2].0@,
            forall|j: int|
                0 <= j < self@.balances.len() && (#[trigger] self@.balances[j]).holder
                    == self@.treasury_account ==> exists|k: int|
                    0 <= k < r@.len() && (#[trigger] r@[k]).0@ == self@.balances[j].token,
    {
        let ghost s = self@.balances;
        let mut out: Vec<(Vec<u8>, u128)> = Vec::new();
        let n = self.balances.len();
        let mut i: usize = 0;
        while i < n
            invariant
                n == self.balances@.len(),
                s == self@.balances,
                i <= n,
                forall|k: int|
                    0 <= k < out@.len() ==> (#[trigger] out@[k]).1 == spec_balance_of(
                        s,
                        out@[k].0@,
                        self@.treasury_account,
                    ),
                forall|k1: int, k2: int| 0 <= k1 < k2 < out@.len() ==> out@[k1].0@ != out@[k2].0@,
                forall|j: int|
                    0 <= j < i && (#[trigger] s[j]).holder == self@.treasury_account ==> exists|
                        k: int,
                    |
                        0 <= k < out@.len() && (#[trigger] out@[k]).0@ == s[j].token,
            decreases n - i,
        {
            let held = bytes_eq(&self.balances[i].holder, &self.treasury_account);
            if held {
                let listed = contains_token(&out, &self.balances[i].token);
                if !listed {
                    let bal = balance_lookup(&self.balances, &self.balances[i].token,
                        &self.treasury_account);
                    let ghost prev = out@;
                    out.push((clone_bytes(&self.balances[i].token), bal));
                    proof {
                        assert forall|j: int|
                            0 <= j <= i && (#[trigger] s[j]).holder == self@.treasury_account
                                implies exists|k: int|
                                0 <= k < out@.len() && (#[trigger] out@[k]).0@ == s[j].token by {
                            if s[j].token == s[i as int].token {
                                assert(out@[prev.len() as int].0@ == s[j].token);
                            } else {
                                let k0 = choose|k: int|
                                    0 <= k < prev.len() && (#[trigger] prev[k]).0@ == s[j].token;
                                assert(out@[k0].0@ == s[j].token);
                            }
                        }
                    }
                }
            }
            i += 1;
        }
        out
    }

    /// Every recorded asset the treasury owns, each listed once as its
    /// collection and token index.
    pub fn get_all_non_fungible_balances(&self) -> (r: Vec<(Vec<u8>, Vec<u8>)>)
        ensures
            forall|k: int|
                0 <= k < r@.len() ==> spec_nft_owner(self@.nfts, (#[trigger] r@[k]).0@, r@[k].1@)
                    == Some(self@.treasury_account),
            forall|k1: int, k2: int|
                0 <= k1 < k2 < r@.len() ==> !(r@[k1].0@ == r@[k2].0@ && r@[k1].1@ == r@[k2].1@),
            forall|j: int|
                0 <= j < self@.nfts.len() && spec_nft_owner(
                    self@.nfts,
                    (#[trigger] self@.nfts[j]).collection,
                    self@.nfts[j].token_index,
                ) == Some(self@.treasury_account) ==> exists|k: int|
                    0 <= k < r@.len() && (#[trigger] r@[k]).0@ == self@.nfts[j].collection
                        && r@[k].1@ == self@.nfts[j].token_index,
    {
        let ghost s = self@.nfts;
        let mut out: Vec<(Vec<u8>, Vec<u8>)> = Vec::new();
        let n = self.nfts.len();
        let mut i: usize = 0;
        while i < n
            invariant
                n == self.nfts@.len(),
                s == self@.nfts,
                i <= n,
                forall|k: int|
                    0 <= k < out@.len() ==> spec_nft_owner(s, (#[trigger] out@[k]).0@, out@[k].1@)
                        == Some(self@.treasury_account),
                forall|k1: int, k2: int|
                    0 <= k1 < k2 < out@.len() ==> !(out@[k1].0@ == out@[k2].0@ && out@[k1].1@
                        == out@[k2].1@),
                forall|j: int|
                    0 <= j < i && spec_nft_owner(s, (#[trigger] s[j]).collection,
                        s[j].token_index) == Some(self@.treasury_account) ==> exists|k: int|
                        0 <= k < out@.len() && (#[trigger] out@[k]).0@ == s[j].collection
                            && out@[k].1@ == s[j].token_index,
            decreases n - i,
        {
            let listed = contains_pair(&out, &self.nfts[i].collection, &self.nfts[i].token_index);
            if !listed {
                let owned = match nft_find(&self.nfts, &self.nfts[i].collection,
                    &self.nfts[i].token_index) {
                    Some(k) => bytes_eq(&self.nfts[k].owner, &self.treasury_account),
                    None => false,
                };
                if owned {
                    let ghost prev = out@;
                    out.push((clone_bytes(&self.nfts[i].collection),
                        clone_bytes(&self.nfts[i].token_index)));
                    proof {
                        assert forall|j: int|
                            0 <= j <= i && spec_nft_owner(s, (#[trigger] s[j]).collection,
                                s[j].token_index) == Some(self@.treasury_account) implies exists|
                            k: int,
                        |
                            0 <= k < out@.len() && (#[trigger] out@[k]).0@ == s[j].collection
                                && out@[k].1@ == s[j].token_index by {
                            if s[j].collection == s[i as int].collection && s[j].token_index == s[
                                i as int].token_index {
                                assert(out@[prev.len() as int].0@ == s[j].collection);
                                assert(out@[prev.len() as int].1@ == s[j].token_index);
                            } else {
                                let k0 = choose|k: int|
                                    0 <= k < prev.len() && (#[trigger] prev[k]).0@
                                        == s[j].collection && prev[k].1@ == s[j].token_index;
                                assert(out@[k0].0@ == s[j].collection);
                                assert(out@[k0].1@ == s[j].token_index);
                            }
                        }
                    }
                }
            }
            i += 1;
        }
        out
    }

    /// Applies a header submission to the light client, `proof_ok` being
    /// the delegated verifier's verdict on the finalization proof.
    pub fn update_light_client(&mut self, header: &Vec<u8>, proof_ok: bool) -> (r: Result<
        (),
        Error,
    >)
        ensures
            final(self)@ == spec_update_light_client(old(self)@, header@, proof_ok).0,
            r == spec_update_light_client(old(self)@, header@, proof_ok).1,
    {
        if bytes_eq(header, &self.last_header) {
            return Ok(());
        }
        if !proof_ok {
            return Err(Error::InvalidProof);
        }
        if self.last_height == u64::MAX {
            return Err(Error::InternalContractError);
        }
        self.last_header = clone_bytes(header);
        self.last_height = self.last_height + 1;
        proof {
            assert(self@ =~= spec_update_light_client(old(self)@, header@, proof_ok).0);
        }
        Ok(())
    }

    /// Applies an `execute` submission, `proof_ok` being the delegated
    /// verifier's verdict on the Merkle inclusion proof against the
    /// commit root recorded for `block_height`.
    pub fn execute(&mut self, transaction: &Vec<u8>, block_height: u64, proof_ok: bool) -> (r:
        Result<(), Error>)
        ensures
            final(self)@ == spec_execute(old(self)@, transaction@, block_height, proof_ok).0,
            r == spec_execute(old(self)@, transaction@, block_height, proof_ok).1,
    {
        if !(self.height_offset <= block_height && block_height <= self.last_height) {
            return Err(Error::InvalidProof);
        }
        if !proof_ok {
            return Err(Error::InvalidProof);
        }
        let msg = match decode_message(transaction) {
            Ok(d) => d,
            Err(e) => {
                return Err(e);
            },
        };
        self.apply_message(msg)
    }

    /// Applies a decoded transfer message.
    fn apply_message(&mut self, msg: DecodedMessage) -> (r: Result<(), Error>)
        ensures
            final(self)@ == spec_apply_message(old(self)@, msg@).0,
            r == spec_apply_message(old(self)@, msg@).1,
    {
        let got = msg.contract_sequence();
        if got != self.sequence {
            let expected = self.sequence;
            return Err(Error::InvalidContractSequence { expected, got });
        }
        if self.sequence == u64::MAX {
            return Err(Error::InternalContractError);
        }
        match msg {
            DecodedMessage::Fungible { token_id, amount, receiver_address, contract_sequence } => {
                if amount == 0 {
                    return Err(Error::InvalidMessageArgument);
                }
                let treasury_balance = balance_lookup(&self.balances, &token_id,
                    &self.treasury_account);
                if treasury_balance < amount {
                    return Err(Error::NotEnoughBalance);
                }
                proof {
                    lemma_debit_effect(self@.balances, token_id@, self@.treasury_account, amount);
                }
                let receiver_is_treasury = bytes_eq(&receiver_address, &self.treasury_account);
                let debited_receiver_balance = if receiver_is_treasury {
                    treasury_balance - amount
                } else {
                    balance_lookup(&self.balances, &token_id, &receiver_address)
                };
                if debited_receiver_balance > u128::MAX - amount {
                    return Err(Error::InternalContractError);
                }
                debit_entries(&mut self.balances, &token_id, &self.treasury_account, amount);
                credit_entries(&mut self.balances, &token_id, &receiver_address, amount);
                self.sequence = self.sequence + 1;
                proof {
                    assert(self@ =~= spec_apply_message(old(self)@, msg@).0);
                }
                Ok(())
            },
            DecodedMessage::NonFungible {
                collection_address,
                token_index,
                receiver_address,
                contract_sequence,
            } => {
                let owner_is_treasury = match nft_find(&self.nfts, &collection_address,
                    &token_index) {
                    Some(k) => bytes_eq(&self.nfts[k].owner, &self.treasury_account),
                    None => false,
                };
                if !owner_is_treasury {
                    return Err(Error::NotEnoughBalance);
                }
                set_nft_owner_entries(&mut self.nfts, &collection_address, &token_index,
                    &receiver_address);
                self.sequence = self.sequence + 1;
                proof {
                    assert(self@ =~= spec_apply_message(old(self)@, msg@).0);
                }
                Ok(())
            },
        }
    }
}


/// Whether `out` already lists `token`.
fn contains_token(out: &Vec<(Vec<u8>, u128)>, token: &Vec<u8>) -> (r: bool)
    ensures
        r == exists|k: int| 0 <= k < out@.len() && (#[trigger] out@[k]).0@ == token@,
{
    let n = out.len();
    let mut i: usize = 0;
    while i < n
        invariant
            n == out@.len(),
            i <= n,
            forall|k: int| 0 <= k < i ==> (#[trigger] out@[k]).0@ != token@,
        decreases n - i,
    {
        if bytes_eq(&out[i].0, token) {
            return true;
        }
        i += 1;
    }
    false
}

/// Whether `out` already lists the asset `(collection, token_index)`.
fn contains_pair(out: &Vec<(Vec<u8>, Vec<u8>)>, collection: &Vec<u8>, token_index: &Vec<u8>) -> (r:
    bool)
    ensures
        r == exists|k: int|
            0 <= k < out@.len() && (#[trigger] out@[k]).0@ == collection@ && out@[k].1@
                == token_index@,
{
    let n = out.len();
    let mut i: usize = 0;
    while i < n
        invariant
            n == out@.len(),
            i <= n,
            forall|k: int|
                0 <= k < i ==> !((#[trigger] out@[k]).0@ == collection@ && out@[k].1@
                    == token_index@),
        decreases n - i,
    {
        let ce = bytes_eq(&out[i].0, collection);
        let ie = bytes_eq(&out[i].1, token_index);
        if ce && ie {
            return true;
        }
        i += 1;
    }
    false
}

/// One `execute` submission: the payload, the block it claims inclusion
/// in, and the delegated verifier's verdict on its Merkle proof.
pub struct ExecuteRequest {
    pub transaction: Seq<u8>,
    pub block_height: u64,
    pub proof_ok: bool,
}

/// The treasury after a series of `execute` submissions, together with
/// how many of them were accepted.
pub open spec fn spec_run_executes(m: TreasuryModel, requests: Seq<ExecuteRequest>) -> (
    TreasuryModel,
    nat,
)
    decreases requests.len(),
{
    if requests.len() == 0 {
        (m, 0)
    } else {
        let step = spec_execute(m, requests[0].transaction, requests[0].block_height,
            requests[0].proof_ok);
        let rest = spec_run_executes(step.0, requests.subrange(1, requests.len() as int));
        (rest.0, rest.1 + if step.1 is Ok { 1nat } else { 0nat })
    }
}

/// One `execute` submission advances the sequence by exactly one when it
/// is accepted, and leaves the whole state untouched when it fails.
pub proof fn lemma_execute_step(m: TreasuryModel, tx: Seq<u8>, block_height: u64, proof_ok: bool)
    ensures
        spec_execute(m, tx, block_height, proof_ok).1 is Ok ==> spec_execute(m, tx, block_height,
            proof_ok).0.sequence == m.sequence + 1,
        spec_execute(m, tx, block_height, proof_ok).1 is Err ==> spec_execute(m, tx, block_height,
            proof_ok).0 == m,
{
}

/// Sequence monotonicity: across any series of `execute` submissions,
/// the read-back sequence grows by exactly one per accepted message —
/// rejected submissions change nothing.
pub proof fn lemma_sequence_monotonicity(m: TreasuryModel, requests: Seq<ExecuteRequest>)
    ensures
        spec_run_executes(m, requests).0.sequence == m.sequence + spec_run_executes(m, requests).1,
    decreases requests.len(),
{
    if requests.len() > 0 {
        let step = spec_execute(m, requests[0].transaction, requests[0].block_height,
            requests[0].proof_ok);
        lemma_execute_step(m, requests[0].transaction, requests[0].block_height,
            requests[0].proof_ok);
        lemma_sequence_monotonicity(step.0, requests.subrange(1, requests.len() as int));
    }
}

/// Header advance idempotence: once a `(header, proof)` pair has been
/// accepted, submitting the same header again no-ops, whatever the
/// verifier says the second time — the first call's effect is preserved.
pub proof fn lemma_header_advance_idempotent(
    m: TreasuryModel,
    header: Seq<u8>,
    first_verdict: bool,
    second_verdict: bool,
)
    ensures
        spec_update_light_client(m, header, first_verdict).1 is Ok ==> spec_update_light_client(
            spec_update_light_client(m, header, first_verdict).0,
            header,
            second_verdict,
        ) == (spec_update_light_client(m, header, first_verdict).0, Ok::<(), Error>(())),
{
}

/// Proof rejection: an `execute` whose Merkle proof did not verify
/// against the commit root of the currently synced header always fails
/// with `InvalidProof` and changes nothing, whether or not the message
/// itself is well formed.
pub proof fn lemma_proof_rejection(m: TreasuryModel, tx: Seq<u8>, block_height: u64)
    ensures
        spec_execute(m, tx, block_height, false) == (m, Err::<(), Error>(Error::InvalidProof)),
{
}

/// Stale-sequence rejection at the contract: a message whose sequence
/// differs from the treasury's counter is rejected with the expected
/// and the supplied value, and changes nothing.
pub proof fn lemma_stale_sequence_rejection(
    m: TreasuryModel,
    tx: Seq<u8>,
    block_height: u64,
    msg: MessageModel,
)
    requires
        m.height_offset <= block_height <= m.last_height,
        spec_decode_message(tx) == Some(msg),
        spec_message_sequence(msg) != m.sequence,
    ensures
        spec_execute(m, tx, block_height, true) == (
            m,
            Err::<(), Error>(Error::InvalidContractSequence {
                expected: m.sequence,
                got: spec_message_sequence(msg),
            }),
        ),
{
}

/// The effect of an accepted fungible transfer: the treasury's balance
/// of the token falls by the amount, the receiver's rises by it, every
/// other balance stays, and the sequence advances by one.
pub proof fn lemma_execute_fungible_effect(
    m: TreasuryModel,
    tx: Seq<u8>,
    block_height: u64,
    token: Seq<u8>,
    amount: u128,
    receiver: Seq<u8>,
)
    requires
        m.height_offset <= block_height <= m.last_height,
        spec_decode_message(tx) == Some(MessageModel::Fungible {
            token_id: token,
            amount: amount,
            receiver_address: receiver,
            contract_sequence: m.sequence,
        }),
        m.sequence < u64::MAX,
        amount > 0,
        spec_balance_of(m.balances, token, m.treasury_account) >= amount,
        receiver != m.treasury_account,
        spec_balance_of(m.balances, token, receiver) + amount <= u128::MAX,
    ensures
        spec_execute(m, tx, block_height, true).1 == Ok::<(), Error>(()),
        spec_execute(m, tx, block_height, true).0.sequence == m.sequence + 1,
        spec_balance_of(spec_execute(m, tx, block_height, true).0.balances, token,
            m.treasury_account) == spec_balance_of(m.balances, token, m.treasury_account) - amount,
        spec_balance_of(spec_execute(m, tx, block_height, true).0.balances, token, receiver)
            == spec_balance_of(m.balances, token, receiver) + amount,
        forall|t2: Seq<u8>, h2: Seq<u8>|
            !(t2 == token && (h2 == m.treasury_account || h2 == receiver))
                ==> #[trigger] spec_balance_of(spec_execute(m, tx, block_height, true).0.balances,
                t2, h2) == spec_balance_of(m.balances, t2, h2),
        spec_execute(m, tx, block_height, true).0.nfts == m.nfts,
        spec_execute(m, tx, block_height, true).0.last_header == m.last_header,
{
    let debited = spec_debit(m.balances, token, m.treasury_account, amount);
    lemma_debit_effect(m.balances, token, m.treasury_account, amount);
    lemma_credit_effect(debited, token, receiver, amount);
}

/// The effect of an accepted non-fungible transfer: the asset's owner
/// becomes the receiver, every other record stays, and the sequence
/// advances by one.
pub proof fn lemma_execute_non_fungible_effect(
    m: TreasuryModel,
    tx: Seq<u8>,
    block_height: u64,
    collection: Seq<u8>,
    token_index: Seq<u8>,
    receiver: Seq<u8>,
)
    requires
        m.height_offset <= block_height <= m.last_height,
        spec_decode_message(tx) == Some(MessageModel::NonFungible {
            collection_address: collection,
            token_index: token_index,
            receiver_address: receiver,
            contract_sequence: m.sequence,
        }),
        m.sequence < u64::MAX,
        spec_nft_owner(m.nfts, collection, token_index) == Some(m.treasury_account),
    ensures
        spec_execute(m, tx, block_height, true).1 == Ok::<(), Error>(()),
        spec_execute(m, tx, block_height, true).0.sequence == m.sequence + 1,
        spec_nft_owner(spec_execute(m, tx, block_height, true).0.nfts, collection, token_index)
            == Some(receiver),
        forall|c2: Seq<u8>, i2: Seq<u8>|
            !(c2 == collection && i2 == token_index) ==> #[trigger] spec_nft_owner(
                spec_execute(m, tx, block_height, true).0.nfts, c2, i2) == spec_nft_owner(m.nfts,
                c2, i2),
        spec_execute(m, tx, block_height, true).0.balances == m.balances,
        spec_execute(m, tx, block_height, true).0.last_header == m.last_header,
{
    lemma_set_nft_owner_effect(m.nfts, collection, token_index, receiver);
}

/// End to end: executing the wire form of a fungible transfer whose
/// sequence matches the treasury's counter, against a trusted height
/// and a verified proof, is accepted and moves exactly the transferred
/// amount from the treasury to the receiver, advancing the sequence by
/// one.  The ledger keys are the wire forms of the message's string
/// fields.
pub proof fn lemma_transfer_end_to_end(
    m: TreasuryModel,
    message: FungibleTokenTransfer,
    block_height: u64,
)
    requires
        m.height_offset <= block_height <= m.last_height,
        message.contract_sequence == m.sequence,
        m.sequence < u64::MAX,
        message.amount > 0,
        message.token_id@.len() < 0x1_0000_0000_0000_0000,
        message.receiver_address@.len() < 0x1_0000_0000_0000_0000,
        spec_balance_of(m.balances, spec_str_bytes(message.token_id@), m.treasury_account)
            >= message.amount,
        spec_str_bytes(message.receiver_address@) != m.treasury_account,
        spec_balance_of(
            m.balances,
            spec_str_bytes(message.token_id@),
            spec_str_bytes(message.receiver_address@),
        ) + message.amount <= u128::MAX,
    ensures
        spec_execute(m, spec_encode_fungible(message), block_height, true).1 == Ok::<(), Error>(()),
        spec_execute(m, spec_encode_fungible(message), block_height, true).0.sequence
            == m.sequence + 1,
        spec_balance_of(
            spec_execute(m, spec_encode_fungible(message), block_height, true).0.balances,
            spec_str_bytes(message.token_id@),
            m.treasury_account,
        ) == spec_balance_of(m.balances, spec_str_bytes(message.token_id@), m.treasury_account)
            - message.amount,
        spec_balance_of(
            spec_execute(m, spec_encode_fungible(message), block_height, true).0.balances,
            spec_str_bytes(message.token_id@),
            spec_str_bytes(message.receiver_address@),
        ) == spec_balance_of(
            m.balances,
            spec_str_bytes(message.token_id@),
            spec_str_bytes(message.receiver_address@),
        ) + message.amount,
{
    lemma_decode_encode_fungible(message);
    lemma_execute_fungible_effect(
        m,
        spec_encode_fungible(message),
        block_height,
        spec_str_bytes(message.token_id@),
        message.amount,
        spec_str_bytes(message.receiver_address@),
    );
}

} // verus!
