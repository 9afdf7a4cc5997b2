use settlement_client::codec::EvmCompatibleAddress;
use settlement_client::errors::Error;
use settlement_client::types::HexSerializedVec;

fn sample_address() -> EvmCompatibleAddress {
    let mut bytes: Vec<u8> = Vec::new();
    for i in 0..20u8 {
        bytes.push(i * 11);
    }
    EvmCompatibleAddress { address: bytes }
}

#[test]
fn format_prefixed_has_prefix_and_length() {
    let a = sample_address();
    let s = a.to_hex_str();
    assert_eq!(s.len(), 42);
    assert!(s.starts_with("0x"));
    assert_eq!(s, format!("0x{}", a.to_hex_str_without_prefix()));
}

#[test]
fn format_known_value() {
    let a = EvmCompatibleAddress {
        address: vec![
            0x00, 0x01, 0x0a, 0x0f, 0x10, 0x7f, 0x80, 0xab, 0xcd, 0xef, 0xff, 0x00, 0x12, 0x34,
            0x56, 0x78, 0x9a, 0xbc, 0xde, 0xf0,
        ],
    };
    assert_eq!(
        a.to_hex_str(),
        "0x00010a0f107f80abcdefff00123456789abcdef0"
    );
    assert_eq!(
        a.to_hex_str_without_prefix(),
        "00010a0f107f80abcdefff00123456789abcdef0"
    );
}

#[test]
fn parse_format_round_trip_prefixed() {
    let a = sample_address();
    let parsed = EvmCompatibleAddress::from_hex_str(&a.to_hex_str()).unwrap();
    assert_eq!(parsed.address, a.address);
    assert_eq!(parsed.to_hex_str(), a.to_hex_str());
}

#[test]
fn parse_format_round_trip_unprefixed() {
    let a = sample_address();
    let parsed = EvmCompatibleAddress::from_hex_str(&a.to_hex_str_without_prefix()).unwrap();
    assert_eq!(parsed.address, a.address);
}

#[test]
fn parse_accepts_uppercase_hex() {
    let parsed =
        EvmCompatibleAddress::from_hex_str("0x00010A0F107F80ABCDEFFF00123456789ABCDEF0").unwrap();
    assert_eq!(
        parsed.to_hex_str(),
        "0x00010a0f107f80abcdefff00123456789abcdef0"
    );
}

#[test]
fn parse_rejects_wrong_length() {
    assert_eq!(
        EvmCompatibleAddress::from_hex_str("0x1234"),
        Err(Error::InvalidAddressFormat)
    );
    assert_eq!(
        EvmCompatibleAddress::from_hex_str(""),
        Err(Error::InvalidAddressFormat)
    );
    // 41 characters: neither the prefixed nor the bare width
    assert_eq!(
        EvmCompatibleAddress::from_hex_str("0x0010a0f107f80abcdefff00123456789abcdef0"),
        Err(Error::InvalidAddressFormat)
    );
}

#[test]
fn parse_rejects_missing_prefix_at_prefixed_length() {
    // 42 characters but no 0x prefix
    assert_eq!(
        EvmCompatibleAddress::from_hex_str("zz00010a0f107f80abcdefff00123456789abcdef0"),
        Err(Error::InvalidAddressFormat)
    );
}

#[test]
fn parse_rejects_non_hex_digits() {
    assert_eq!(
        EvmCompatibleAddress::from_hex_str("0x00010a0f107f80abcdefff0012345678_abcdef0"),
        Err(Error::InvalidAddressFormat)
    );
    // a non-ASCII character is never a hex digit
    assert_eq!(
        EvmCompatibleAddress::from_hex_str("0x00010a0f107f80abcdefff00123456789abcdeé"),
        Err(Error::InvalidAddressFormat)
    );
}

#[test]
fn serialized_vec_round_trip() {
    let a = sample_address();
    let wrapped = a.to_hex_serialized_vec();
    assert_eq!(wrapped.data, a.address);
    let back = EvmCompatibleAddress::from_hex_serialized_vec(&wrapped).unwrap();
    assert_eq!(back.address, a.address);
}

#[test]
fn serialized_vec_rejects_wrong_width() {
    let short = HexSerializedVec { data: vec![1, 2, 3] };
    assert_eq!(
        EvmCompatibleAddress::from_hex_serialized_vec(&short),
        Err(Error::InvalidAddressFormat)
    );
    let long = HexSerializedVec { data: vec![0; 21] };
    assert_eq!(
        EvmCompatibleAddress::from_hex_serialized_vec(&long),
        Err(Error::InvalidAddressFormat)
    );
}
