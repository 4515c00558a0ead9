use vsl_cli::config::{CliMode, Config};
use vsl_cli::error::CliError;
use vsl_cli::requests::{
    account_id, claim_expiry, finish_asset_create, finish_claim_settle, finish_claim_submit,
    is_healthy, nonce_from_reply, prepare_asset_create, prepare_claim_settle, prepare_claim_submit,
    prepare_payment, query_since, reply_id, Reply,
};

const KEY: &str = "0xac0974bec39a17e36ba4a6b4d238ff944bacb478cbed5efcae784d7bf4f2ff80";
const ADDRESS: &str = "0xf39fd6e51aad88f6f4ce6ab8827279cfffb92266";

fn claim_id() -> String {
    "0x".to_string() + &"1f".repeat(32)
}

fn config_with_account() -> Config {
    let mut config = Config::new("tmp".to_string(), None, CliMode::MultiCommand);
    let c = config.generate_credentials(Some(KEY.to_string())).unwrap();
    config.create_account("acc1".to_string(), c, false).unwrap();
    config
}

#[test]
fn expiry_rules() {
    assert_eq!(claim_expiry(Some(10), Some(5), 1), Err(CliError::AmbiguousExpiry));
    assert_eq!(claim_expiry(None, None, 1), Err(CliError::MissingExpiry));
    assert_eq!(claim_expiry(Some(1), None, 1), Err(CliError::ExpiredAtSubmission));
    assert_eq!(claim_expiry(Some(2), None, 1), Ok(2));
    assert_eq!(claim_expiry(None, Some(3600), 100), Ok(3700));
    assert_eq!(claim_expiry(None, Some(u64::MAX), 100), Ok(u64::MAX));
}

#[test]
fn since_rules() {
    assert_eq!(query_since(Some(1), Some(1), 5), Err(CliError::AmbiguousSince));
    assert_eq!(query_since(None, None, 5), Err(CliError::MissingSince));
    assert_eq!(query_since(Some(6), None, 5), Err(CliError::SinceInFuture));
    assert_eq!(query_since(Some(5), None, 5), Ok(5));
    assert_eq!(query_since(None, Some(3), 5), Ok(2));
    assert_eq!(query_since(None, Some(30), 5), Ok(0));
}

#[test]
fn reply_shapes() {
    assert_eq!(nonce_from_reply(&Reply::Number(7)), Ok(7));
    assert_eq!(nonce_from_reply(&Reply::Text("7".to_string())), Err(CliError::UnexpectedResponseShape));
    assert!(is_healthy(&Ok(Reply::Text("ok".to_string()))));
    assert!(!is_healthy(&Ok(Reply::Text("down".to_string()))));
    assert!(!is_healthy(&Err(CliError::Transport("refused".to_string()))));
    assert_eq!(reply_id(Reply::Text("x".to_string())), Ok("x".to_string()));
    assert_eq!(reply_id(Reply::Other), Err(CliError::UnexpectedResponseShape));
}

#[test]
fn claim_submission_checks() {
    let mut config = Config::new("tmp".to_string(), None, CliMode::MultiCommand);
    assert_eq!(
        prepare_claim_submit(&mut config, None, "c1", None, Some(3600), "0x1", 100).err(),
        Some(CliError::NoDefaultAccount)
    );
    let mut config = config_with_account();
    assert_eq!(
        prepare_claim_submit(&mut config, None, "c1", Some(200), Some(3600), "0x1", 100).err(),
        Some(CliError::AmbiguousExpiry)
    );
    assert_eq!(
        prepare_claim_submit(&mut config, None, "c1", None, None, "0x1", 100).err(),
        Some(CliError::MissingExpiry)
    );
    assert_eq!(
        prepare_claim_submit(&mut config, None, "c1", None, Some(3600), "fee", 100).err(),
        Some(CliError::InvalidNumber)
    );
    assert_eq!(
        prepare_claim_submit(&mut config, Some("nowhere".to_string()), "c1", None, Some(3600), "1", 100).err(),
        Some(CliError::NotFound)
    );
}

#[test]
fn claim_lifecycle_scenario() {
    let mut config = config_with_account();
    assert_eq!(account_id(&config, None), Ok(ADDRESS.to_string()));
    let submission = prepare_claim_submit(&mut config, None, "c1", None, Some(3600), "1", 1000).unwrap();
    assert_eq!(submission.expires, 4600);
    assert_eq!(submission.fee, "0x1");
    assert_eq!(submission.sender.network.name, "default");
    let record = submission.record("c1", "logical", "Obvious", 12);
    assert_eq!(record.nonce, "12");
    assert_eq!(record.from, ADDRESS);
    assert_eq!(record.to, vec![ADDRESS.to_string()]);
    let id = claim_id();
    assert_eq!(finish_claim_submit(&mut config, record, Reply::Text(id.clone())), Ok(id.clone()));
    assert!(config.has_claim("c1"));
    assert!(config.has_claim(&id));
    assert_eq!(config.lookup_identifier("c1"), Ok(id.clone()));
    assert_eq!(
        prepare_claim_submit(&mut config, None, "c1", None, Some(3600), "1", 1000).err(),
        Some(CliError::AlreadySubmitted)
    );
    let settlement = prepare_claim_settle(&mut config, None, "c1", None).unwrap();
    assert_eq!(settlement.address, ADDRESS);
    assert_eq!(settlement.submitted.nonce, "12");
    let message = settlement.message(13, "target".to_string());
    assert_eq!((message.from.as_str(), message.nonce.as_str()), (ADDRESS, "13"));
    let settled = "2e".repeat(32);
    assert_eq!(finish_claim_settle(&mut config, "c1", Reply::Text(settled.clone())), Ok(settled));
    assert!(!config.has_claim("c1"));
    assert!(!config.has_claim(&id));
    assert_eq!(config.get_claim("c1").err(), Some(CliError::NotSubmitted));
    assert_eq!(
        prepare_claim_settle(&mut config, None, "c1", None).err(),
        Some(CliError::NotSubmitted)
    );
}

#[test]
fn wrong_reply_shape_records_nothing() {
    let mut config = config_with_account();
    let submission = prepare_claim_submit(&mut config, None, "c2", None, Some(10), "0x10", 1).unwrap();
    let record = submission.record("c2", "", "", 0);
    assert_eq!(
        finish_claim_submit(&mut config, record, Reply::Number(5)),
        Err(CliError::UnexpectedResponseShape)
    );
    assert!(!config.has_claim("c2"));
}

#[test]
fn payment_and_assets() {
    let mut config = config_with_account();
    let payment = prepare_payment(&mut config, None, "acc1", "100").unwrap();
    assert_eq!((payment.to.as_str(), payment.amount.as_str()), (ADDRESS, "0x64"));
    assert_eq!(payment.message(3).nonce, "3");
    assert!(prepare_payment(&mut config, None, "stranger", "100").is_err());
    assert_eq!(
        prepare_payment(&mut config, None, "acc1", "lots").err(),
        Some(CliError::InvalidNumber)
    );
    assert_eq!(
        prepare_asset_create(&mut config, None, "256", "1").err(),
        Some(CliError::InvalidNumber)
    );
    let creation = prepare_asset_create(&mut config, None, "18", "1000").unwrap();
    assert_eq!((creation.decimals, creation.supply.as_str()), (18, "0x3e8"));
    let asset = "3c".repeat(32);
    assert_eq!(
        finish_asset_create(&mut config, "TOK", Reply::Record { asset_id: Some(asset.clone()) }),
        Ok(asset.clone())
    );
    assert_eq!(config.lookup_identifier("TOK"), Ok(asset));
    assert_eq!(
        finish_asset_create(&mut config, "TOK", Reply::Record { asset_id: None }),
        Err(CliError::UnexpectedResponseShape)
    );
}
