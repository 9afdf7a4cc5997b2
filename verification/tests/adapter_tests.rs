use settlement_client::adapter::EvmCompatibleChain;
use settlement_client::adapter::contract_sequence_to_u64;
use settlement_client::adapter::decode_light_client_header;
use settlement_client::adapter::interpret_connection_check;
use settlement_client::adapter::interpret_last_block;
use settlement_client::adapter::make_relayer_account_info;
use settlement_client::adapter::u256_to_u128;
use settlement_client::adapter::validate_transfer_addresses;
use settlement_client::chain::ChainConfigs;
use settlement_client::chain::ChainType;
use settlement_client::codec::EvmCompatibleAddress;
use settlement_client::errors::Error;
use settlement_client::lightclient::SyncStatus;
use settlement_client::lightclient::check_sync;
use settlement_client::types::BlockFinalizationProof;
use settlement_client::types::FungibleTokenTransfer;
use settlement_client::types::Header;
use settlement_client::types::HexSerializedVec;
use settlement_client::types::MerkleProof;
use settlement_client::types::SettlementChainBlock;

fn configs(name: Option<&str>) -> ChainConfigs {
    ChainConfigs {
        rpc_url: "http://localhost:8545".to_string(),
        chain_name: name.map(|s| s.to_string()),
    }
}

fn chain_with_treasury() -> EvmCompatibleChain {
    EvmCompatibleChain {
        chain: ChainType::Ethereum(configs(None)),
        treasury_address: Some(EvmCompatibleAddress { address: vec![7; 20] }),
    }
}

#[test]
fn chain_names_resolve_per_family() {
    let ethereum = ChainType::Ethereum(configs(None));
    let goerli = ChainType::Goerli(configs(None));
    let named = ChainType::Other(configs(Some("Holesky")));
    let anonymous = ChainType::Other(configs(None));
    assert_eq!(ethereum.get_chain_name(), "Ethereum");
    assert_eq!(goerli.get_chain_name(), "Goerli");
    assert_eq!(named.get_chain_name(), "Holesky");
    assert_eq!(anonymous.get_chain_name(), "Unknown");
    assert_eq!(ethereum.get_rpc_url(), "http://localhost:8545");
    assert_eq!(chain_with_treasury().get_chain_name(), "Ethereum");
}

#[test]
fn connection_check_interpretation() {
    assert_eq!(interpret_connection_check(Some(123)), Ok(()));
    assert_eq!(interpret_connection_check(None), Err(Error::ConnectionError));
}

#[test]
fn last_block_interpretation() {
    assert_eq!(
        interpret_last_block(Some((Some(42), 1_700_000_000))),
        Ok(SettlementChainBlock { height: 42, timestamp: 1_700_000_000 })
    );
    assert_eq!(
        interpret_last_block(Some((None, 1_700_000_000))),
        Err(Error::ConnectionError)
    );
    assert_eq!(interpret_last_block(None), Err(Error::ConnectionError));
}

#[test]
fn balance_word_narrowing() {
    assert_eq!(u256_to_u128(0, 500), Ok(500));
    assert_eq!(u256_to_u128(0, u128::MAX), Ok(u128::MAX));
    assert_eq!(u256_to_u128(1, 0), Err(Error::InternalContractError));
}

#[test]
fn sequence_narrowing() {
    assert_eq!(contract_sequence_to_u64(7), Ok(7));
    assert_eq!(contract_sequence_to_u64(u64::MAX as u128), Ok(u64::MAX));
    assert_eq!(
        contract_sequence_to_u64(u64::MAX as u128 + 1),
        Err(Error::InternalContractError)
    );
}

#[test]
fn light_client_header_decoding() {
    let h = decode_light_client_header(&vec![1, 2, 3]).unwrap();
    assert_eq!(h.data, vec![1, 2, 3]);
    assert_eq!(
        decode_light_client_header(&Vec::new()),
        Err(Error::InternalContractError)
    );
}

#[test]
fn relayer_account_info() {
    let (address, balance) = make_relayer_account_info(&vec![9; 20], 12345);
    assert_eq!(address.data, vec![9; 20]);
    assert_eq!(balance, 12345);
}

#[test]
fn transfer_address_validation() {
    let good = HexSerializedVec { data: vec![1; 20] };
    let bad = HexSerializedVec { data: vec![1; 19] };
    let (s, t, r) = validate_transfer_addresses(&good, &good, &good).unwrap();
    assert_eq!(s.address, vec![1; 20]);
    assert_eq!(t.address, vec![1; 20]);
    assert_eq!(r.address, vec![1; 20]);
    assert_eq!(
        validate_transfer_addresses(&good, &bad, &good),
        Err(Error::InvalidAddressFormat)
    );
}

#[test]
fn treasury_must_be_configured() {
    let unconfigured = EvmCompatibleChain {
        chain: ChainType::Goerli(configs(None)),
        treasury_address: None,
    };
    assert!(matches!(
        unconfigured.treasury_or_error(),
        Err(Error::NoSuchContract)
    ));
    let header = Header { data: vec![1] };
    let proof = BlockFinalizationProof { data: vec![2] };
    assert!(matches!(
        unconfigured.prepare_update_treasury_light_client(&header, &proof),
        Err(Error::NoSuchContract)
    ));
    let message = FungibleTokenTransfer {
        token_id: "T".to_string(),
        amount: 1,
        receiver_address: "R".to_string(),
        contract_sequence: 0,
    };
    let merkle = MerkleProof { data: vec![3] };
    assert!(matches!(
        unconfigured.prepare_execute_fungible_token(&message, 0, 1, &merkle),
        Err(Error::NoSuchContract)
    ));
    assert!(chain_with_treasury().treasury_or_error().is_ok());
}

#[test]
fn update_payload_passes_bytes_through_unchanged() {
    let chain = chain_with_treasury();
    let header = Header { data: vec![1, 2, 3] };
    let proof = BlockFinalizationProof { data: vec![4, 5] };
    let payload = chain
        .prepare_update_treasury_light_client(&header, &proof)
        .unwrap();
    assert_eq!(payload.header, vec![1, 2, 3]);
    assert_eq!(payload.proof, vec![4, 5]);
}

#[test]
fn execute_payload_carries_proof_and_height() {
    let chain = chain_with_treasury();
    let message = FungibleTokenTransfer {
        token_id: "T".to_string(),
        amount: 10,
        receiver_address: "R".to_string(),
        contract_sequence: 5,
    };
    let merkle = MerkleProof { data: vec![8, 8, 8] };
    let payload = chain
        .prepare_execute_fungible_token(&message, 5, 77, &merkle)
        .unwrap();
    assert_eq!(payload.block_height, 77);
    assert_eq!(payload.merkle_proof, vec![8, 8, 8]);
    assert!(!payload.transaction.is_empty());
    assert!(!payload.execution_descriptor.is_empty());
    // a stale sequence fails locally, through the adapter too
    assert_eq!(
        chain
            .prepare_execute_fungible_token(&message, 6, 77, &merkle)
            .err(),
        Some(Error::InvalidContractSequence { expected: 6, got: 5 })
    );
}

#[test]
fn sync_status_classification() {
    let submitted = Header { data: vec![1, 2] };
    let confirmed = Header { data: vec![1, 2] };
    let stale = Header { data: vec![1, 3] };
    assert_eq!(check_sync(&confirmed, &submitted), SyncStatus::Confirmed);
    assert_eq!(check_sync(&stale, &submitted), SyncStatus::Stale);
}

#[test]
fn error_retryability_and_names() {
    assert!(Error::ConnectionError.is_retryable());
    assert!(Error::NotEnoughBalance.is_retryable());
    assert!(Error::InvalidAccountSequence.is_retryable());
    assert!(Error::InvalidContractSequence { expected: 0, got: 1 }.is_retryable());
    assert!(!Error::InvalidProof.is_retryable());
    assert!(!Error::TransactionRejected.is_retryable());
    assert!(!Error::FailedToParseTransactionPayload.is_retryable());
    assert!(!Error::InvalidMessageArgument.is_retryable());
    assert!(!Error::InternalContractError.is_retryable());
    assert!(!Error::NoSuchContract.is_retryable());
    assert!(!Error::InvalidAddressFormat.is_retryable());
    assert!(!Error::Unknown.is_retryable());
    assert_eq!(Error::ConnectionError.kind_name(), "ConnectionError");
    assert_eq!(Error::InvalidProof.kind_name(), "InvalidProof");
    assert_eq!(
        Error::InvalidContractSequence { expected: 0, got: 1 }.kind_name(),
        "InvalidContractSequence"
    );
}
