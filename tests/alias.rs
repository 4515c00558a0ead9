use vsl_cli::alias::HexMap;
use vsl_cli::error::CliError;

const ID1: &str = "0x00000000000000000000000000000000000000aa";
const ID2: &str = "0x00000000000000000000000000000000000000bb";

#[test]
fn add_then_lookup_round_trip() {
    let mut map = HexMap::new("0x", 40);
    map.add_id("alice", ID1.to_string()).unwrap();
    assert_eq!(map.lookup_id("alice"), Ok(ID1.to_string()));
}

#[test]
fn add_normalises_case() {
    let mut map = HexMap::new("0x", 40);
    map.add_id("bob", "0x00000000000000000000000000000000000000AB".to_string()).unwrap();
    assert_eq!(map.lookup_id("bob"), Ok("0x00000000000000000000000000000000000000ab".to_string()));
}

#[test]
fn adding_same_id_twice_is_idempotent() {
    let mut map = HexMap::new("0x", 40);
    map.add_id("x", ID1.to_string()).unwrap();
    map.add_id("x", ID1.to_string()).unwrap();
    assert_eq!(map.lookup_id("x"), Ok(ID1.to_string()));
}

#[test]
fn two_ids_make_a_name_ambiguous() {
    let mut map = HexMap::new("0x", 40);
    map.add_id("x", ID1.to_string()).unwrap();
    map.add_id("x", ID2.to_string()).unwrap();
    assert_eq!(
        map.lookup_id("x"),
        Err(CliError::Ambiguous(vec![ID1.to_string(), ID2.to_string()]))
    );
}

#[test]
fn unknown_canonical_id_resolves_to_itself() {
    let map = HexMap::new("0x", 40);
    assert_eq!(map.lookup_id(ID2), Ok(ID2.to_string()));
}

#[test]
fn unknown_name_is_invalid_format() {
    let map = HexMap::new("0x", 40);
    assert_eq!(map.lookup_id("nobody"), Err(CliError::InvalidFormat));
}

#[test]
fn bad_ids_are_refused() {
    let mut map = HexMap::new("0x", 40);
    assert_eq!(map.add_id("x", "0x1234".to_string()), Err(CliError::InvalidFormat));
    assert_eq!(
        map.add_id("x", "00000000000000000000000000000000000000aa".to_string()),
        Err(CliError::InvalidFormat)
    );
    assert_eq!(
        map.add_id("x", "0x00000000000000000000000000000000000000ag".to_string()),
        Err(CliError::InvalidFormat)
    );
    assert_eq!(map.lookup_id("x"), Err(CliError::InvalidFormat));
}

#[test]
fn optional_prefix_accepts_both_forms() {
    let map = HexMap::with_optional_prefix("0x", 64);
    let bare = "AB".repeat(32);
    let prefixed = format!("0x{}", "cd".repeat(32));
    assert_eq!(map.check_hex_format(&bare), Ok("ab".repeat(32)));
    assert_eq!(map.check_hex_format(&prefixed), Ok(prefixed.clone()));
    assert_eq!(map.check_hex_format("0x12"), Err(CliError::InvalidFormat));
}

#[test]
fn remove_forgets_a_name() {
    let mut map = HexMap::new("0x", 40);
    map.add_id("alice", ID1.to_string()).unwrap();
    assert_eq!(map.remove_id("alice"), Ok(()));
    assert_eq!(map.lookup_id("alice"), Err(CliError::InvalidFormat));
    assert_eq!(map.remove_id("alice"), Err(CliError::NotFound));
}
