use settlement_client::errors::Error;
use settlement_client::treasury::BalanceEntry;
use settlement_client::treasury::NftEntry;
use settlement_client::treasury::TreasuryContract;
use settlement_client::types::FungibleTokenTransfer;
use settlement_client::types::MerkleProof;
use settlement_client::types::NonFungibleTokenTransfer;
use settlement_client::wire::encode_fungible_transfer;
use settlement_client::wire::encode_non_fungible_transfer;
use settlement_client::wire::encode_str_bytes;
use settlement_client::executor::prepare_execute_fungible;

fn treasury_key() -> Vec<u8> {
    b"treasury-account".to_vec()
}

/// A treasury holding 100 units of token T at sequence 0, trusting
/// heights 1 through 10.
fn treasury_with_100_t() -> TreasuryContract {
    TreasuryContract {
        treasury_account: treasury_key(),
        height_offset: 1,
        last_height: 10,
        last_header: vec![0xAA, 0xBB],
        sequence: 0,
        balances: vec![BalanceEntry {
            token: encode_str_bytes("tokenT"),
            holder: treasury_key(),
            amount: 100,
        }],
        nfts: Vec::new(),
    }
}

fn transfer_100_t_to_r(contract_sequence: u64) -> FungibleTokenTransfer {
    FungibleTokenTransfer {
        token_id: "tokenT".to_string(),
        amount: 100,
        receiver_address: "receiverR".to_string(),
        contract_sequence,
    }
}

#[test]
fn token_transfer_end_to_end() {
    let mut contract = treasury_with_100_t();
    let message = transfer_100_t_to_r(0);
    let proof = MerkleProof { data: vec![1, 2, 3, 4] };

    let current = contract.get_contract_sequence();
    let payload = prepare_execute_fungible(&message, current, 10, &proof).unwrap();
    // the consensus side's Merkle verification accepts the proof
    let result = contract.execute(&payload.transaction, payload.block_height, true);

    assert_eq!(result, Ok(()));
    assert_eq!(contract.get_contract_sequence(), 1);
    assert_eq!(
        contract.get_treasury_fungible_balance(&encode_str_bytes("tokenT")),
        0
    );
    assert_eq!(
        contract.get_fungible_balance(&encode_str_bytes("tokenT"), &encode_str_bytes("receiverR")),
        100
    );
}

#[test]
fn wrong_sequence_fails_locally_without_submission() {
    let contract = treasury_with_100_t();
    let message = transfer_100_t_to_r(1); // off by one
    let proof = MerkleProof { data: vec![1, 2, 3, 4] };

    let current = contract.get_contract_sequence();
    let r = prepare_execute_fungible(&message, current, 10, &proof);
    assert_eq!(r.err(), Some(Error::InvalidContractSequence { expected: 0, got: 1 }));
    // nothing was built, so nothing could have been submitted: the
    // contract state is untouched
    assert_eq!(contract.get_contract_sequence(), 0);
    assert_eq!(
        contract.get_treasury_fungible_balance(&encode_str_bytes("tokenT")),
        100
    );
}

#[test]
fn stale_sequence_rejected_by_contract_too() {
    let mut contract = treasury_with_100_t();
    let message = transfer_100_t_to_r(1);
    let bytes = encode_fungible_transfer(&message);
    let result = contract.execute(&bytes, 10, true);
    assert_eq!(
        result,
        Err(Error::InvalidContractSequence { expected: 0, got: 1 })
    );
    assert_eq!(contract.get_contract_sequence(), 0);
    assert_eq!(
        contract.get_treasury_fungible_balance(&encode_str_bytes("tokenT")),
        100
    );
}

#[test]
fn tampered_proof_rejected_with_balances_unchanged() {
    let mut contract = treasury_with_100_t();
    let message = transfer_100_t_to_r(0);
    let bytes = encode_fungible_transfer(&message);
    // the proof was made for a different transaction: the delegated
    // Merkle verification rejects it
    let result = contract.execute(&bytes, 10, false);
    assert_eq!(result, Err(Error::InvalidProof));
    assert_eq!(contract.get_contract_sequence(), 0);
    assert_eq!(
        contract.get_treasury_fungible_balance(&encode_str_bytes("tokenT")),
        100
    );
    assert_eq!(
        contract.get_fungible_balance(&encode_str_bytes("tokenT"), &encode_str_bytes("receiverR")),
        0
    );
}

#[test]
fn untrusted_height_rejected() {
    let mut contract = treasury_with_100_t();
    let message = transfer_100_t_to_r(0);
    let bytes = encode_fungible_transfer(&message);
    assert_eq!(contract.execute(&bytes, 11, true), Err(Error::InvalidProof));
    assert_eq!(contract.execute(&bytes, 0, true), Err(Error::InvalidProof));
    assert_eq!(contract.get_contract_sequence(), 0);
}

#[test]
fn malformed_payload_rejected() {
    let mut contract = treasury_with_100_t();
    let result = contract.execute(&vec![7, 7, 7], 10, true);
    assert_eq!(result, Err(Error::FailedToParseTransactionPayload));
    assert_eq!(contract.get_contract_sequence(), 0);
}

#[test]
fn zero_amount_rejected() {
    let mut contract = treasury_with_100_t();
    let message = FungibleTokenTransfer { amount: 0, ..transfer_100_t_to_r(0) };
    let bytes = encode_fungible_transfer(&message);
    assert_eq!(
        contract.execute(&bytes, 10, true),
        Err(Error::InvalidMessageArgument)
    );
    assert_eq!(contract.get_contract_sequence(), 0);
}

#[test]
fn insufficient_treasury_balance_rejected() {
    let mut contract = treasury_with_100_t();
    let message = FungibleTokenTransfer { amount: 101, ..transfer_100_t_to_r(0) };
    let bytes = encode_fungible_transfer(&message);
    assert_eq!(contract.execute(&bytes, 10, true), Err(Error::NotEnoughBalance));
    assert_eq!(
        contract.get_treasury_fungible_balance(&encode_str_bytes("tokenT")),
        100
    );
}

#[test]
fn receiver_balance_overflow_fails_closed() {
    let mut contract = treasury_with_100_t();
    contract.balances.push(BalanceEntry {
        token: encode_str_bytes("tokenT"),
        holder: encode_str_bytes("receiverR"),
        amount: u128::MAX - 10,
    });
    let message = transfer_100_t_to_r(0);
    let bytes = encode_fungible_transfer(&message);
    assert_eq!(
        contract.execute(&bytes, 10, true),
        Err(Error::InternalContractError)
    );
    // nothing moved
    assert_eq!(contract.get_contract_sequence(), 0);
    assert_eq!(
        contract.get_treasury_fungible_balance(&encode_str_bytes("tokenT")),
        100
    );
    assert_eq!(
        contract.get_fungible_balance(&encode_str_bytes("tokenT"), &encode_str_bytes("receiverR")),
        u128::MAX - 10
    );
}

#[test]
fn sequence_advances_by_one_per_accepted_message() {
    let mut contract = treasury_with_100_t();
    let first = FungibleTokenTransfer { amount: 30, ..transfer_100_t_to_r(0) };
    let second = FungibleTokenTransfer { amount: 70, ..transfer_100_t_to_r(1) };

    let b1 = encode_fungible_transfer(&first);
    assert_eq!(contract.execute(&b1, 10, true), Ok(()));
    assert_eq!(contract.get_contract_sequence(), 1);

    // replaying the first message is rejected: its sequence is stale now
    assert_eq!(
        contract.execute(&b1, 10, true),
        Err(Error::InvalidContractSequence { expected: 1, got: 0 })
    );
    assert_eq!(contract.get_contract_sequence(), 1);

    let b2 = encode_fungible_transfer(&second);
    assert_eq!(contract.execute(&b2, 10, true), Ok(()));
    assert_eq!(contract.get_contract_sequence(), 2);
    assert_eq!(
        contract.get_fungible_balance(&encode_str_bytes("tokenT"), &encode_str_bytes("receiverR")),
        100
    );
}

#[test]
fn non_fungible_transfer_reassigns_owner() {
    let mut contract = treasury_with_100_t();
    contract.nfts.push(NftEntry {
        collection: encode_str_bytes("gallery"),
        token_index: encode_str_bytes("7"),
        owner: treasury_key(),
    });
    let message = NonFungibleTokenTransfer {
        collection_address: "gallery".to_string(),
        token_index: "7".to_string(),
        receiver_address: "receiverR".to_string(),
        contract_sequence: 0,
    };
    let bytes = encode_non_fungible_transfer(&message);
    assert_eq!(contract.execute(&bytes, 10, true), Ok(()));
    assert_eq!(contract.get_contract_sequence(), 1);
    assert_eq!(
        contract.get_non_fungible_owner(&encode_str_bytes("gallery"), &encode_str_bytes("7")),
        Some(encode_str_bytes("receiverR"))
    );
}

#[test]
fn non_fungible_transfer_of_foreign_asset_rejected() {
    let mut contract = treasury_with_100_t();
    contract.nfts.push(NftEntry {
        collection: encode_str_bytes("gallery"),
        token_index: encode_str_bytes("7"),
        owner: b"someone-else".to_vec(),
    });
    let message = NonFungibleTokenTransfer {
        collection_address: "gallery".to_string(),
        token_index: "7".to_string(),
        receiver_address: "receiverR".to_string(),
        contract_sequence: 0,
    };
    let bytes = encode_non_fungible_transfer(&message);
    assert_eq!(contract.execute(&bytes, 10, true), Err(Error::NotEnoughBalance));
    assert_eq!(
        contract.get_non_fungible_owner(&encode_str_bytes("gallery"), &encode_str_bytes("7")),
        Some(b"someone-else".to_vec())
    );
    // an asset that was never recorded has no owner at all
    assert_eq!(
        contract.get_non_fungible_owner(&encode_str_bytes("gallery"), &encode_str_bytes("8")),
        None
    );
}

#[test]
fn sequence_at_limit_fails_closed() {
    let mut contract = treasury_with_100_t();
    contract.sequence = u64::MAX;
    let message = transfer_100_t_to_r(u64::MAX);
    let bytes = encode_fungible_transfer(&message);
    assert_eq!(
        contract.execute(&bytes, 10, true),
        Err(Error::InternalContractError)
    );
    assert_eq!(contract.get_contract_sequence(), u64::MAX);
}

#[test]
fn header_advance_and_idempotent_resubmission() {
    let mut contract = treasury_with_100_t();
    let new_header = vec![0xCC, 0xDD, 0xEE];

    assert_eq!(contract.update_light_client(&new_header, true), Ok(()));
    let (offset, stored) = contract.get_light_client();
    assert_eq!(offset, 1);
    assert_eq!(stored, new_header);
    assert_eq!(contract.last_height, 11);

    // the same pair again: a no-op, whatever the verifier would say
    assert_eq!(contract.update_light_client(&new_header, true), Ok(()));
    assert_eq!(contract.last_height, 11);
    assert_eq!(contract.update_light_client(&new_header, false), Ok(()));
    assert_eq!(contract.last_height, 11);
    let (_, stored_again) = contract.get_light_client();
    assert_eq!(stored_again, new_header);
    assert_eq!(contract.get_contract_sequence(), 0);
}

#[test]
fn header_with_failing_proof_rejected() {
    let mut contract = treasury_with_100_t();
    let new_header = vec![0xCC, 0xDD, 0xEE];
    assert_eq!(
        contract.update_light_client(&new_header, false),
        Err(Error::InvalidProof)
    );
    let (_, stored) = contract.get_light_client();
    assert_eq!(stored, vec![0xAA, 0xBB]);
    assert_eq!(contract.last_height, 10);
}

#[test]
fn transfer_to_treasury_itself_keeps_total() {
    // a treasury whose ledger key is the wire form of a name a message
    // can address, so that the treasury itself can be the receiver
    let mut contract = TreasuryContract {
        treasury_account: encode_str_bytes("self"),
        height_offset: 1,
        last_height: 10,
        last_header: vec![0xAA, 0xBB],
        sequence: 0,
        balances: vec![BalanceEntry {
            token: encode_str_bytes("tokenT"),
            holder: encode_str_bytes("self"),
            amount: 100,
        }],
        nfts: Vec::new(),
    };
    let message = FungibleTokenTransfer {
        token_id: "tokenT".to_string(),
        amount: 40,
        receiver_address: "self".to_string(),
        contract_sequence: 0,
    };
    let bytes = encode_fungible_transfer(&message);
    assert_eq!(contract.execute(&bytes, 10, true), Ok(()));
    assert_eq!(
        contract.get_treasury_fungible_balance(&encode_str_bytes("tokenT")),
        100
    );
    assert_eq!(contract.get_contract_sequence(), 1);
}

#[test]
fn all_fungible_balances_lists_each_token_once() {
    let mut contract = treasury_with_100_t();
    contract.balances.push(BalanceEntry {
        token: encode_str_bytes("tokenU"),
        holder: treasury_key(),
        amount: 7,
    });
    contract.balances.push(BalanceEntry {
        token: encode_str_bytes("tokenT"),
        holder: encode_str_bytes("someone-else"),
        amount: 5,
    });
    let all = contract.get_all_fungible_balances();
    assert_eq!(all.len(), 2);
    assert!(all.contains(&(encode_str_bytes("tokenT"), 100)));
    assert!(all.contains(&(encode_str_bytes("tokenU"), 7)));
}

#[test]
fn all_non_fungible_balances_lists_owned_assets() {
    let mut contract = treasury_with_100_t();
    contract.nfts.push(NftEntry {
        collection: encode_str_bytes("gallery"),
        token_index: encode_str_bytes("1"),
        owner: treasury_key(),
    });
    contract.nfts.push(NftEntry {
        collection: encode_str_bytes("gallery"),
        token_index: encode_str_bytes("2"),
        owner: b"someone-else".to_vec(),
    });
    contract.nfts.push(NftEntry {
        collection: encode_str_bytes("museum"),
        token_index: encode_str_bytes("1"),
        owner: treasury_key(),
    });
    let all = contract.get_all_non_fungible_balances();
    assert_eq!(all.len(), 2);
    assert!(all.contains(&(encode_str_bytes("gallery"), encode_str_bytes("1"))));
    assert!(all.contains(&(encode_str_bytes("museum"), encode_str_bytes("1"))));
}
