use nexus_move::types::{AccountAddress, AddressParseError};

#[test]
fn parses_short_hex_literal() {
    let address = AccountAddress::from_hex_literal("0xCAFE").unwrap();
    assert_eq!(address.0[30], 0xCA);
    assert_eq!(address.0[31], 0xFE);
}

#[test]
fn rejects_too_long_address() {
    let input = format!("0x{}", "11".repeat(33));
    let error = AccountAddress::from_hex_literal(&input).unwrap_err();
    assert_eq!(error, AddressParseError::TooLong { bytes: 33 });
}

#[test]
fn display_is_full_width_hex() {
    let address = AccountAddress::from_hex_literal("0x1").unwrap();
    assert!(address.to_string().starts_with("0x00000000"));
    assert!(address.to_string().ends_with('1'));
}
