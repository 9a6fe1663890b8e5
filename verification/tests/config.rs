use at_gateway::config::{
    AtConfig, Connection, HttpConfig, NetworkConfig, SerialConfig, WsEndpoint, DEFAULT_CONFIG_JSON,
};

fn at_config(conn_type: &str) -> AtConfig {
    AtConfig {
        conn_type: conn_type.to_string(),
        network: NetworkConfig { host: "192.168.8.1".to_string(), port: 20249, timeout: 10 },
        serial: SerialConfig { port: "COM6".to_string(), baudrate: 115200, timeout: 10 },
    }
}

#[test]
fn addresses_join_host_and_port() {
    assert_eq!(at_config("NETWORK").network.address(), "192.168.8.1:20249");
    assert_eq!(WsEndpoint { host: "0.0.0.0".to_string(), port: 8765 }.address(), "0.0.0.0:8765");
    assert_eq!(HttpConfig { host: "".to_string(), port: 0 }.address(), ":0");
}

#[test]
fn the_type_decides_on_the_connection() {
    let cfg = at_config("NETWORK");
    assert_eq!(cfg.create_connection(), Connection::Network(cfg.network.clone()));
    for other in ["SERIAL", "network", "", "NETWORK "] {
        let cfg = at_config(other);
        assert_eq!(cfg.create_connection(), Connection::Serial(cfg.serial.clone()));
    }
}

#[test]
fn a_replacement_is_like_the_first_connection() {
    let cfg = at_config("NETWORK");
    assert_eq!(cfg.clone().create_connection(), cfg.create_connection());
}

#[test]
fn the_default_configuration_is_complete() {
    let v: serde_json::Value = serde_json::from_str(DEFAULT_CONFIG_JSON).unwrap();
    let at = &v["AT_CONFIG"];
    assert_eq!(at["TYPE"], serde_json::Value::from("NETWORK"));
    assert_eq!(at["NETWORK"]["HOST"], serde_json::Value::from("192.168.8.1"));
    assert_eq!(at["NETWORK"]["PORT"], serde_json::Value::from(20249));
    assert_eq!(at["NETWORK"]["TIMEOUT"], serde_json::Value::from(10));
    assert_eq!(at["SERIAL"]["PORT"], serde_json::Value::from("COM6"));
    assert_eq!(at["SERIAL"]["BAUDRATE"], serde_json::Value::from(115200));
    assert_eq!(at["SERIAL"]["TIMEOUT"], serde_json::Value::from(10));
    let ws = &v["WEBSOCKET_CONFIG"]["IPV4"];
    assert_eq!(ws["HOST"], serde_json::Value::from("0.0.0.0"));
    assert_eq!(ws["PORT"], serde_json::Value::from(8765));
    assert_eq!(v["HTTP_CONFIG"]["HOST"], serde_json::Value::from("0.0.0.0"));
    assert_eq!(v["HTTP_CONFIG"]["PORT"], serde_json::Value::from(8008));
}
