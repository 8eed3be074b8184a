use queuewatch::rpc::ApiConfig;
use queuewatch::rpc::RpcParam;
use queuewatch::rpc::RpcRequest;
use queuewatch::rpc::build_login_request;
use queuewatch::rpc::build_update_request;
use queuewatch::rpc::encode_request;

fn config() -> ApiConfig {
    ApiConfig {
        url: "http://example.invalid/api".to_string(),
        password: "secret".to_string(),
        update_key: "queue".to_string(),
        login_method: "login".to_string(),
        update_method: "update".to_string(),
    }
}

#[test]
fn login_request_encodes_exactly() {
    let body = encode_request(&build_login_request(&config()));
    assert_eq!(body, "{\"method\":\"login\",\"params\":[\"secret\"],\"id\":1}".to_string());
}

#[test]
fn update_request_encodes_exactly() {
    let body = encode_request(&build_update_request(&config()));
    assert_eq!(
        body,
        "{\"method\":\"update\",\"params\":[[\"name\",\"progress\"],{}],\"id\":1}".to_string()
    );
}

#[test]
fn quotes_backslashes_and_controls_are_escaped() {
    let request = RpcRequest {
        method: "do\"it\\now".to_string(),
        params: vec![RpcParam::Str("a\nb".to_string())],
        id: 7,
    };
    let body = encode_request(&request);
    assert_eq!(
        body,
        "{\"method\":\"do\\\"it\\\\now\",\"params\":[\"a\\u000ab\"],\"id\":7}".to_string()
    );
}

#[test]
fn negative_and_large_ids_encode_in_decimal() {
    let request = RpcRequest { method: "m".to_string(), params: vec![], id: -2147483648 };
    assert_eq!(encode_request(&request), "{\"method\":\"m\",\"params\":[],\"id\":-2147483648}");
    let request = RpcRequest { method: "m".to_string(), params: vec![], id: 2047483647 };
    assert_eq!(encode_request(&request), "{\"method\":\"m\",\"params\":[],\"id\":2047483647}");
}

#[test]
fn encoded_request_is_valid_json() {
    let cfg = config();
    let body = encode_request(&build_login_request(&cfg));
    let doc: serde_json::Value = serde_json::from_str(&body).expect("the body parses");
    assert_eq!(doc["method"], serde_json::Value::String("login".to_string()));
    assert_eq!(doc["params"][0], serde_json::Value::String("secret".to_string()));
    assert_eq!(doc["id"], serde_json::Value::from(1));
}

#[test]
fn encoded_escapes_round_trip_through_a_parser() {
    let request = RpcRequest {
        method: "m".to_string(),
        params: vec![RpcParam::Str("a\"b\\c\nd\u{1f}e".to_string())],
        id: 1,
    };
    let body = encode_request(&request);
    let doc: serde_json::Value = serde_json::from_str(&body).expect("the body parses");
    assert_eq!(
        doc["params"][0],
        serde_json::Value::String("a\"b\\c\nd\u{1f}e".to_string())
    );
}
