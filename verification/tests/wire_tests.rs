use settlement_client::types::FungibleTokenTransfer;
use settlement_client::types::NonFungibleTokenTransfer;
use settlement_client::wire::DecodedMessage;
use settlement_client::wire::be_bytes_u128;
use settlement_client::wire::be_bytes_u64;
use settlement_client::wire::decode_message;
use settlement_client::wire::derive_descriptor_fungible;
use settlement_client::wire::encode_fungible_transfer;
use settlement_client::wire::encode_non_fungible_transfer;
use settlement_client::wire::encode_str_bytes;
use settlement_client::errors::Error;

#[test]
fn be_bytes_u64_known_values() {
    assert_eq!(be_bytes_u64(0), vec![0, 0, 0, 0, 0, 0, 0, 0]);
    assert_eq!(be_bytes_u64(1), vec![0, 0, 0, 0, 0, 0, 0, 1]);
    assert_eq!(be_bytes_u64(0x0102030405060708), vec![1, 2, 3, 4, 5, 6, 7, 8]);
    assert_eq!(
        be_bytes_u64(u64::MAX),
        vec![255, 255, 255, 255, 255, 255, 255, 255]
    );
}

#[test]
fn be_bytes_u128_known_values() {
    let mut expected = vec![0u8; 15];
    expected.push(100);
    assert_eq!(be_bytes_u128(100), expected);
    assert_eq!(be_bytes_u128(u128::MAX), vec![255u8; 16]);
}

#[test]
fn str_bytes_known_value() {
    // each character takes four big-endian bytes of its scalar value
    assert_eq!(encode_str_bytes("A"), vec![0, 0, 0, 0x41]);
    assert_eq!(
        encode_str_bytes("ab"),
        vec![0, 0, 0, 0x61, 0, 0, 0, 0x62]
    );
    assert_eq!(encode_str_bytes(""), Vec::<u8>::new());
}

#[test]
fn encode_fungible_known_bytes() {
    let m = FungibleTokenTransfer {
        token_id: "T".to_string(),
        amount: 5,
        receiver_address: "R".to_string(),
        contract_sequence: 7,
    };
    let mut expected: Vec<u8> = Vec::new();
    expected.push(1); // fungible tag
    expected.extend_from_slice(&[0, 0, 0, 0, 0, 0, 0, 1]); // token_id length
    expected.extend_from_slice(&[0, 0, 0, 0x54]); // 'T'
    expected.extend_from_slice(&[0u8; 15]);
    expected.push(5); // amount
    expected.extend_from_slice(&[0, 0, 0, 0, 0, 0, 0, 1]); // receiver length
    expected.extend_from_slice(&[0, 0, 0, 0x52]); // 'R'
    expected.extend_from_slice(&[0, 0, 0, 0, 0, 0, 0, 7]); // sequence
    assert_eq!(encode_fungible_transfer(&m), expected);
}

#[test]
fn decode_encode_fungible_round_trip() {
    let m = FungibleTokenTransfer {
        token_id: "token-ábc".to_string(),
        amount: 340_282_366_920_938_463_463,
        receiver_address: "0xdeadbeef".to_string(),
        contract_sequence: 42,
    };
    let bytes = encode_fungible_transfer(&m);
    let decoded = decode_message(&bytes).unwrap();
    match decoded {
        DecodedMessage::Fungible { token_id, amount, receiver_address, contract_sequence } => {
            assert_eq!(token_id, encode_str_bytes("token-ábc"));
            assert_eq!(amount, 340_282_366_920_938_463_463);
            assert_eq!(receiver_address, encode_str_bytes("0xdeadbeef"));
            assert_eq!(contract_sequence, 42);
        },
        DecodedMessage::NonFungible { .. } => panic!("decoded the wrong message kind"),
    }
}

#[test]
fn decode_encode_non_fungible_round_trip() {
    let m = NonFungibleTokenTransfer {
        collection_address: "gallery".to_string(),
        token_index: "1337".to_string(),
        receiver_address: "R".to_string(),
        contract_sequence: 3,
    };
    let bytes = encode_non_fungible_transfer(&m);
    let decoded = decode_message(&bytes).unwrap();
    match decoded {
        DecodedMessage::NonFungible {
            collection_address,
            token_index,
            receiver_address,
            contract_sequence,
        } => {
            assert_eq!(collection_address, encode_str_bytes("gallery"));
            assert_eq!(token_index, encode_str_bytes("1337"));
            assert_eq!(receiver_address, encode_str_bytes("R"));
            assert_eq!(contract_sequence, 3);
        },
        DecodedMessage::Fungible { .. } => panic!("decoded the wrong message kind"),
    }
}

#[test]
fn decode_rejects_empty_and_bad_tag() {
    assert_eq!(
        decode_message(&Vec::new()),
        Err(Error::FailedToParseTransactionPayload)
    );
    assert_eq!(
        decode_message(&vec![9, 0, 0, 0]),
        Err(Error::FailedToParseTransactionPayload)
    );
}

#[test]
fn decode_rejects_truncated_payload() {
    let m = FungibleTokenTransfer {
        token_id: "T".to_string(),
        amount: 5,
        receiver_address: "R".to_string(),
        contract_sequence: 7,
    };
    let bytes = encode_fungible_transfer(&m);
    let mut truncated = bytes.clone();
    truncated.pop();
    assert_eq!(
        decode_message(&truncated),
        Err(Error::FailedToParseTransactionPayload)
    );
}

#[test]
fn decode_rejects_trailing_bytes() {
    let m = FungibleTokenTransfer {
        token_id: "T".to_string(),
        amount: 5,
        receiver_address: "R".to_string(),
        contract_sequence: 7,
    };
    let mut bytes = encode_fungible_transfer(&m);
    bytes.push(0);
    assert_eq!(
        decode_message(&bytes),
        Err(Error::FailedToParseTransactionPayload)
    );
}

#[test]
fn descriptor_differs_from_transaction() {
    let m = FungibleTokenTransfer {
        token_id: "T".to_string(),
        amount: 5,
        receiver_address: "R".to_string(),
        contract_sequence: 7,
    };
    // the descriptor omits the sequence: two messages that differ only
    // in sequence share a descriptor but not a transaction payload
    let m2 = FungibleTokenTransfer { contract_sequence: 8, ..m.clone() };
    assert_eq!(derive_descriptor_fungible(&m), derive_descriptor_fungible(&m2));
    assert_ne!(encode_fungible_transfer(&m), encode_fungible_transfer(&m2));
}
