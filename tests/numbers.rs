use vsl_cli::error::CliError;
use vsl_cli::numbers::{decimal, to_hex};

#[test]
fn test_to_hex() {
    assert!(to_hex("0x100").expect("must be correct input to 'to_hex'") == "0x100");
    assert!(to_hex("100").expect("must be correct input to 'to_hex'") == "0x64");
    assert!(
        to_hex("1234567890123456").expect("must be correct input to 'to_hex'")
            == "0x462d53c8abac0"
    );
    assert!(
        to_hex("12345678901234567").expect("must be correct input to 'to_hex'")
            == "0x2bdc545d6b4b87"
    );
    assert!(
        to_hex("0x462d53c8abac0").expect("must be correct input to 'to_hex'")
            == "0x462d53c8abac0"
    );
    assert!(
        to_hex("0x2bdc545d6b4b87").expect("must be correct input to 'to_hex'")
            == "0x2bdc545d6b4b87"
    );
}

#[test]
fn to_hex_rejects_non_numbers() {
    assert_eq!(to_hex("not-a-number"), Err(CliError::InvalidNumber));
    assert_eq!(to_hex(""), Err(CliError::InvalidNumber));
    assert_eq!(to_hex("0x"), Err(CliError::InvalidNumber));
    assert_eq!(to_hex("0xg1"), Err(CliError::InvalidNumber));
    assert_eq!(to_hex("-5"), Err(CliError::InvalidNumber));
    assert_eq!(to_hex("0x+5"), Err(CliError::InvalidNumber));
    assert_eq!(to_hex("12a"), Err(CliError::InvalidNumber));
}

#[test]
fn to_hex_normalises_hex_input() {
    assert_eq!(to_hex("0x0100"), Ok("0x100".to_string()));
    assert_eq!(to_hex("0xABC"), Ok("0xabc".to_string()));
    assert_eq!(to_hex("0"), Ok("0x0".to_string()));
    assert_eq!(to_hex("0x0"), Ok("0x0".to_string()));
    assert_eq!(to_hex("+16"), Ok("0x10".to_string()));
}

#[test]
fn to_hex_largest_and_overflow() {
    assert_eq!(to_hex("18446744073709551615"), Ok("0xffffffffffffffff".to_string()));
    assert_eq!(to_hex("18446744073709551616"), Err(CliError::InvalidNumber));
    assert_eq!(to_hex("0xffffffffffffffff"), Ok("0xffffffffffffffff".to_string()));
    assert_eq!(to_hex("0x10000000000000000"), Err(CliError::InvalidNumber));
}

#[test]
fn decimal_renders_digits() {
    assert_eq!(decimal(0), "0");
    assert_eq!(decimal(1234), "1234");
    assert_eq!(decimal(u64::MAX), "18446744073709551615");
}
