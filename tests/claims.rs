use vsl_cli::claims::{ClaimLedger, PendingClaim};
use vsl_cli::error::CliError;

fn claim(label: &str) -> PendingClaim {
    PendingClaim {
        claim: label.to_string(),
        claim_type: "logical".to_string(),
        proof: "Obvious".to_string(),
        nonce: "0".to_string(),
        to: vec!["0x01".to_string()],
        quorum: 1,
        from: "0x01".to_string(),
        expires: 100,
        fee: "0x1".to_string(),
    }
}

#[test]
fn stored_under_both_keys() {
    let mut ledger = ClaimLedger::new();
    assert_eq!(ledger.add(claim("c1"), "id1".to_string()), Ok(()));
    assert!(ledger.has("c1"));
    assert!(ledger.has("id1"));
    assert_eq!(ledger.get("id1").unwrap().claim, "c1");
    assert_eq!(ledger.get("c1").unwrap().proof, "Obvious");
}

#[test]
fn same_label_twice_is_already_submitted() {
    let mut ledger = ClaimLedger::new();
    ledger.add(claim("c1"), "id1".to_string()).unwrap();
    assert_eq!(ledger.add(claim("c1"), "id2".to_string()), Err(CliError::AlreadySubmitted));
    assert_eq!(ledger.add(claim("c2"), "id1".to_string()), Err(CliError::AlreadySubmitted));
    assert!(!ledger.has("id2"));
    assert!(!ledger.has("c2"));
}

#[test]
fn removing_drops_both_keys() {
    let mut ledger = ClaimLedger::new();
    ledger.add(claim("c1"), "id1".to_string()).unwrap();
    ledger.add(claim("c2"), "id2".to_string()).unwrap();
    assert_eq!(ledger.remove("c1"), Ok(()));
    assert!(!ledger.has("c1"));
    assert!(!ledger.has("id1"));
    assert_eq!(ledger.get("c1").err(), Some(CliError::NotSubmitted));
    assert!(ledger.has("c2"));
    assert_eq!(ledger.remove("c1"), Err(CliError::NotPresent));
    assert_eq!(ledger.remove("id2"), Ok(()));
    assert!(!ledger.has("c2"));
}
