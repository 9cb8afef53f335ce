use strata_poc::stored_ids::{deserialize_optional_u128, serialize_optional_u128, StoredU128};

#[test]
fn full_width_region_ids_use_backward_compatible_hex() {
    let encoded = serialize_optional_u128(&Some(u128::MAX)).expect("encoded");
    assert_eq!(encoded, "0xffffffffffffffffffffffffffffffff");
    assert_eq!(
        deserialize_optional_u128(Some(StoredU128::Hex(encoded))),
        Ok(Some(u128::MAX))
    );
    let below = serialize_optional_u128(&Some(u128::MAX - 1)).expect("encoded");
    assert_eq!(deserialize_optional_u128(Some(StoredU128::Hex(below))), Ok(Some(u128::MAX - 1)));
    assert_eq!(deserialize_optional_u128(Some(StoredU128::Legacy(42))), Ok(Some(42)));
}

#[test]
fn stored_ids_are_zero_padded_and_optional() {
    assert_eq!(
        serialize_optional_u128(&Some(0xa7)),
        Some("0x000000000000000000000000000000a7".to_owned())
    );
    assert_eq!(serialize_optional_u128(&None), None);
    assert_eq!(deserialize_optional_u128(None), Ok(None));
}

#[test]
fn stored_ids_refuse_missing_prefix_and_bad_digits() {
    assert_eq!(
        deserialize_optional_u128(Some(StoredU128::Hex("ff".to_owned()))),
        Err("stored 128-bit ID is missing its 0x prefix".to_owned())
    );
    let bad = deserialize_optional_u128(Some(StoredU128::Hex("0xfg".to_owned())));
    assert!(matches!(bad, Err(message) if message.starts_with("invalid stored 128-bit ID: ")));
    let too_wide = deserialize_optional_u128(Some(StoredU128::Hex(format!("0x1{}", "0".repeat(32)))));
    assert!(too_wide.is_err());
    assert_eq!(
        deserialize_optional_u128(Some(StoredU128::Hex("0xFF".to_owned()))),
        Ok(Some(255))
    );
}
