use at_gateway::message::{notification_message, reply_message};

#[test]
fn a_notification_is_raw_data() {
    assert_eq!(
        notification_message("+CMTI: \"ME\",1"),
        "{\"data\":\"+CMTI: \\\"ME\\\",1\",\"type\":\"raw_data\"}"
    );
}

#[test]
fn a_success_holds_data() {
    assert_eq!(reply_message(Ok("OK")), "{\"data\":\"OK\",\"error\":null,\"success\":true}");
}

#[test]
fn a_failure_holds_an_error() {
    assert_eq!(
        reply_message(Err("TIMEOUT")),
        "{\"data\":null,\"error\":\"TIMEOUT\",\"success\":false}"
    );
}

#[test]
fn a_client_reads_back_what_was_sent() {
    let said = "a\r\n\"b\"\\\u{1}\u{4f60}";
    let value: serde_json::Value = serde_json::from_str(&reply_message(Ok(said))).unwrap();
    assert_eq!(value["data"], serde_json::Value::from(said));
    assert_eq!(value["success"], serde_json::Value::from(true));
    assert!(value["error"].is_null());
    let value: serde_json::Value = serde_json::from_str(&notification_message(said)).unwrap();
    assert_eq!(value["data"], serde_json::Value::from(said));
    assert_eq!(value["type"], serde_json::Value::from("raw_data"));
}
