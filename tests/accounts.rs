use vsl_cli::accounts::{derive_address, generate_private_key, raw_private_key, Accounts, Credentials};
use vsl_cli::error::CliError;

const KEY: &str = "0xac0974bec39a17e36ba4a6b4d238ff944bacb478cbed5efcae784d7bf4f2ff80";
const ADDRESS: &str = "0xf39fd6e51aad88f6f4ce6ab8827279cfffb92266";

#[test]
fn derives_known_address() {
    assert_eq!(derive_address(KEY), Ok(ADDRESS.to_string()));
}

#[test]
fn derivation_is_deterministic() {
    let first = derive_address(KEY).unwrap();
    let second = derive_address(&KEY[2..]).unwrap();
    assert_eq!(first, second);
    let upper = KEY[2..].to_ascii_uppercase();
    assert_eq!(derive_address(&upper), Ok(first));
}

#[test]
fn raw_key_rules() {
    assert_eq!(raw_private_key(KEY), Some(KEY[2..].to_string()));
    assert_eq!(raw_private_key("0x1234"), None);
    assert_eq!(raw_private_key(&"g".repeat(64)), None);
    assert_eq!(derive_address("0x1234"), Err(CliError::InvalidKey));
    assert_eq!(derive_address(&"0".repeat(64)), Err(CliError::InvalidKey));
    assert_eq!(derive_address(&"f".repeat(64)), Err(CliError::InvalidKey));
    assert_eq!(derive_address(&format!("{}00", &KEY[2..])), Err(CliError::InvalidKey));
}

#[test]
fn generated_key_is_lower_hex() {
    let key = generate_private_key();
    assert_eq!(key.len(), 64);
    assert!(key.chars().all(|c| c.is_ascii_digit() || ('a'..='f').contains(&c)));
    let other = generate_private_key();
    assert_ne!(key, other);
}

#[test]
fn fresh_credentials_derive_their_address() {
    let accounts = Accounts::new();
    let c = accounts.generate_credentials(None).unwrap();
    assert_eq!(derive_address(&c.private_key), Ok(c.address.clone()));
    assert_eq!(c.address.len(), 42);
}

#[test]
fn same_key_twice_is_duplicate() {
    let mut accounts = Accounts::new();
    let c = accounts.generate_credentials(Some(KEY.to_string())).unwrap();
    assert_eq!(c.address, ADDRESS);
    assert_eq!(c.private_key, &KEY[2..]);
    accounts.create("acc1".to_string(), c.clone(), false).unwrap();
    assert_eq!(
        accounts.generate_credentials(Some(KEY.to_string())).err(),
        Some(CliError::DuplicateKey)
    );
    assert_eq!(
        accounts.create("acc2".to_string(), c, false).err(),
        Some(CliError::DuplicateKey)
    );
}

#[test]
fn create_get_use_remove() {
    let mut accounts = Accounts::new();
    assert_eq!(accounts.get(None).err(), Some(CliError::NoDefaultAccount));
    let c1 = Credentials { address: "0x01".to_string(), private_key: "11".to_string() };
    let c2 = Credentials { address: "0x02".to_string(), private_key: "22".to_string() };
    let a = accounts.create("a".to_string(), c1.clone(), false).unwrap();
    assert_eq!(a.signatures, vec!["0x01".to_string()]);
    assert_eq!(a.quorum, 1);
    assert_eq!(
        accounts.create("a".to_string(), c2.clone(), false).err(),
        Some(CliError::AlreadyExists)
    );
    accounts.create("b".to_string(), c2, false).unwrap();
    assert_eq!(accounts.get(None).unwrap().name, "b");
    assert_eq!(accounts.set_using("a"), Ok(()));
    assert_eq!(accounts.get(None).unwrap().credentials.address, "0x01");
    assert_eq!(accounts.set_using("zz"), Err(CliError::NotFound));
    assert_eq!(accounts.get(Some("zz")).err(), Some(CliError::NotFound));
    assert_eq!(accounts.list().len(), 2);
    assert_eq!(accounts.remove("a"), Ok(()));
    assert_eq!(accounts.get(None).err(), Some(CliError::NoDefaultAccount));
    assert_eq!(accounts.remove("a"), Err(CliError::NotFound));
    let replaced = accounts
        .create("b".to_string(), Credentials { address: "0x03".to_string(), private_key: "33".to_string() }, true)
        .unwrap();
    assert_eq!(replaced.credentials.address, "0x03");
}

#[test]
fn loading_a_key_twice_gives_same_credentials() {
    let accounts = Accounts::new();
    let first = accounts.generate_credentials(Some(KEY.to_string())).unwrap();
    let second = accounts.generate_credentials(Some(KEY[2..].to_ascii_uppercase())).unwrap();
    assert_eq!((first.address.clone(), first.private_key.clone()), (second.address, second.private_key));
    assert_eq!(first.private_key, &KEY[2..]);
    assert_eq!(accounts.generate_credentials(Some("f".repeat(64))).err(), Some(CliError::InvalidKey));
}
