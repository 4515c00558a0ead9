use serde_json::Value;
use vsl_cli::networks::{Network, Networks};

// A stand-in for the transport that answers without a network.
#[derive(Debug, Default)]
pub struct MockRpcClient {
    pub connections: std::collections::HashMap<String, String>,
    pub should_fail_connection: bool,
    pub should_fail_network: bool,
}

impl MockRpcClient {
    pub fn new(should_fail_connection: bool, should_fail_network: bool) -> Self {
        MockRpcClient { connections: std::collections::HashMap::new(), should_fail_connection, should_fail_network }
    }

    fn make_request(&mut self, network: Network, _meth: &str, _params: serde_json::Map<String, Value>) -> Result<Value, String> {
        let connection_name = network.name.clone();
        if self.should_fail_network {
            return Err("network is absent".to_string());
        }
        if let Some(existing) = self.connections.get(&connection_name) {
            return Ok(Value::from(existing.clone()));
        }
        if self.should_fail_connection {
            return Err("connection error".to_string());
        }
        let _url = network.endpoint();
        self.connections.insert(connection_name.clone(), String::from("???"));
        Ok(Value::from(self.connections.get(&connection_name).unwrap().clone()))
    }
}

#[test]
fn test_rpc_client_with_mock() {
    let mut networks = Networks::default();
    let _ = networks.add("default_network".to_string(), None, None);

    let mut mock_client = MockRpcClient::new(false, false);
    let mut params = serde_json::Map::new();
    params.insert("address".to_string(), Value::from("vsl0x00"));
    let result = mock_client.make_request(
        networks.get(None).expect("default network is not present"),
        "vsl_getBalance",
        params,
    );
    assert!(result.is_ok());
}

#[test]
fn endpoint_without_port_is_the_url() {
    let network = Network { name: "n".to_string(), url: "http://host".to_string(), port: 0 };
    assert_eq!(network.endpoint(), "http://host");
    let network = Network { name: "n".to_string(), url: "http://host".to_string(), port: 8080 };
    assert_eq!(network.endpoint(), "http://host:8080");
}
