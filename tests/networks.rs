use vsl_cli::error::CliError;
use vsl_cli::networks::{Network, Networks, DEFAULT_NETWORK_PORT, DEFAULT_NETWORK_URL};

#[test]
fn default_registry_has_local_network() {
    let mut networks = Networks::default();
    let n = networks.get(None).unwrap();
    assert_eq!(n.name, "default");
    assert_eq!(n.url, "http://localhost");
    assert_eq!(n.port, 44444);
    assert_eq!(networks.get_using(), "default");
    let d = Network::default();
    assert_eq!((d.url.as_str(), d.port), (DEFAULT_NETWORK_URL, DEFAULT_NETWORK_PORT));
}

#[test]
fn add_update_use_remove() {
    let mut networks = Networks::default();
    let n = networks.add("default_network".to_string(), None, None).unwrap();
    assert_eq!(n.url, DEFAULT_NETWORK_URL);
    assert_eq!(
        networks.add("default_network".to_string(), None, None).err(),
        Some(CliError::AlreadyExists)
    );
    assert_eq!(networks.update("default_network".to_string(), Some("http://remote".to_string()), None), Ok(()));
    let u = networks.get(Some("default_network".to_string())).unwrap();
    assert_eq!((u.url.as_str(), u.port), ("http://remote", 44444));
    assert_eq!(networks.update("missing".to_string(), None, Some(1)), Err(CliError::NotFound));
    assert_eq!(networks.set_using("default_network".to_string()), Ok(()));
    assert_eq!(networks.get(None).unwrap().name, "default_network");
    assert_eq!(networks.set_using("missing".to_string()), Err(CliError::NotFound));
    assert_eq!(networks.list().len(), 2);
    assert_eq!(networks.remove(&"default_network".to_string()), Ok(()));
    assert_eq!(networks.remove(&"default_network".to_string()), Err(CliError::NotFound));
}

#[test]
fn missing_current_network_is_recreated() {
    let mut networks = Networks::default();
    networks.remove(&"default".to_string()).unwrap();
    assert!(networks.get(Some("default".to_string())).is_none());
    let n = networks.get(None).unwrap();
    assert_eq!((n.name.as_str(), n.port), ("default", 44444));
    assert!(networks.get(Some("default".to_string())).is_some());
}
