use vsl_cli::config::{default_mode, genesis_source, CliMode, Config, RpcServerInit};
use vsl_cli::error::CliError;
use vsl_cli::registry::Configs;

const KEY: &str = "0xac0974bec39a17e36ba4a6b4d238ff944bacb478cbed5efcae784d7bf4f2ff80";
const ADDRESS: &str = "0xf39fd6e51aad88f6f4ce6ab8827279cfffb92266";

#[test]
fn temporary_single_command_cannot_keep_changes() {
    assert_eq!(default_mode(), CliMode::SingleCommand);
    let mut config = Config::new("tmp".to_string(), None, CliMode::SingleCommand);
    assert_eq!(config.save(), Err(CliError::NoBackingStore));
    assert_eq!(config.add_network(&"n".to_string(), &None, &None).err(), Some(CliError::NoBackingStore));
    config.set_mode(CliMode::MultiCommand);
    assert_eq!(config.save(), Ok(()));
    let kept = Config::new("c".to_string(), Some("/x/c.json".to_string()), CliMode::SingleCommand);
    assert_eq!(kept.save(), Ok(()));
    assert_eq!(kept.file().map(|f| f.as_str()), Some("/x/c.json"));
}

#[test]
fn account_creation_records_address_alias() {
    let mut config = Config::new("tmp".to_string(), None, CliMode::MultiCommand);
    let c = config.generate_credentials(Some(KEY.to_string())).unwrap();
    let a = config.create_account("acc1".to_string(), c.clone(), false).unwrap();
    assert_eq!(a.credentials.address, ADDRESS);
    assert_eq!(config.lookup_address("acc1"), Ok(ADDRESS.to_string()));
    assert_eq!(config.get_account(None).unwrap().name, "acc1");
    assert_eq!(
        config.create_account("acc2".to_string(), c, false).err(),
        Some(CliError::DuplicateKey)
    );
    assert_eq!(config.generate_credentials(Some(KEY.to_string())).err(), Some(CliError::DuplicateKey));
    assert_eq!(config.use_account("nobody"), Err(CliError::NotFound));
    assert_eq!(config.remove_account("acc1"), Ok(()));
    assert_eq!(config.lookup_address("acc1"), Err(CliError::InvalidFormat));
    assert_eq!(config.get_account(None).err(), Some(CliError::NoDefaultAccount));
}

#[test]
fn identifiers_take_optional_prefix() {
    let mut config = Config::new("tmp".to_string(), None, CliMode::MultiCommand);
    let id = "ab".repeat(32);
    assert_eq!(config.add_identifier("asset", id.clone()), Ok(()));
    assert_eq!(config.lookup_identifier("asset"), Ok(id.clone()));
    assert_eq!(config.make_valid_identifier(&format!("0x{}", id)), Ok(format!("0x{}", id)));
    assert_eq!(config.add_address("who", id), Err(CliError::InvalidFormat));
    assert_eq!(config.make_valid_address("0x12"), Err(CliError::InvalidFormat));
}

#[test]
fn registry_create_load_remove() {
    let mut configs = Configs::empty();
    let tmp = configs
        .new("tmp".to_string(), String::new(), "/d/tmp.json".to_string(), false, false, CliMode::SingleCommand)
        .unwrap();
    assert!(tmp.file().is_none());
    assert_eq!(
        configs
            .new("tmp".to_string(), "/f".to_string(), "/d/tmp.json".to_string(), false, false, CliMode::SingleCommand)
            .err()
            .is_some(),
        true
    );
    let c = configs
        .new("local".to_string(), String::new(), "/d/local.json".to_string(), false, false, CliMode::SingleCommand)
        .unwrap();
    assert_eq!(c.file().map(|f| f.as_str()), Some("/d/local.json"));
    assert_eq!(configs.current(), Some("local".to_string()));
    assert!(configs
        .new("local".to_string(), String::new(), "/d/local.json".to_string(), false, false, CliMode::SingleCommand)
        .is_err());
    assert_eq!(configs.load(None), Ok(Some("/d/local.json".to_string())));
    assert_eq!(configs.load(Some("tmp".to_string())), Ok(None));
    assert_eq!(configs.load(Some("other".to_string())), Err(CliError::NotFound));
    assert_eq!(configs.remove("tmp".to_string()), Err(CliError::InvalidConfig));
    assert_eq!(configs.remove("local".to_string()), Ok("/d/local.json".to_string()));
    assert_eq!(configs.current(), None);
    assert_eq!(configs.load(None), Ok(None));
    configs.use_("x".to_string());
    assert_eq!(configs.current(), Some("x".to_string()));
}

#[test]
fn genesis_argument_kinds() {
    match genesis_source("g.json", true) {
        Ok(RpcServerInit::GenesisFile(f)) => assert_eq!(f, "g.json"),
        _ => panic!("a file is taken as a file"),
    }
    match genesis_source("'\" { \"a\": 1 } \"'", false) {
        Ok(RpcServerInit::GenesisJson(j)) => assert_eq!(j, "{ \"a\": 1 }"),
        _ => panic!("quoted json is taken as json"),
    }
    assert!(matches!(genesis_source("not json", false), Err(CliError::InvalidConfig)));
}

#[test]
fn listings_cover_the_aggregate() {
    let mut config = Config::new("tmp".to_string(), None, CliMode::MultiCommand);
    let c = config.generate_credentials(Some(KEY.to_string())).unwrap();
    config.create_account("acc1".to_string(), c, false).unwrap();
    config.add_identifier("tok", "ab".repeat(32)).unwrap();
    assert_eq!(config.list_addresses(), vec![(&"acc1".to_string(), &vec![ADDRESS.to_string()])]);
    assert_eq!(config.list_identifiers().len(), 1);
    assert!(config.list_claims().is_empty());
    let network = config.get_network(None).unwrap();
    assert_eq!(network.endpoint(), "http://localhost:44444");
}
