use queuewatch::fetch::AuthError;
use queuewatch::fetch::FetchError;
use queuewatch::fetch::login_outcome;
use queuewatch::fetch::parse_state_body;

#[test]
fn login_success_with_cookie_yields_the_token() {
    let body = "{\"error\":null,\"id\":1,\"result\":true}";
    let r = login_outcome(body, Some("session=abc".to_string()));
    assert_eq!(r, Ok("session=abc".to_string()));
}

#[test]
fn login_success_without_error_member_yields_the_token() {
    let body = "{\"id\":1,\"result\":true}";
    let r = login_outcome(body, Some("session=abc".to_string()));
    assert_eq!(r, Ok("session=abc".to_string()));
}

#[test]
fn login_success_without_cookie_is_a_hard_failure() {
    let body = "{\"error\":null,\"id\":1,\"result\":true}";
    let r = login_outcome(body, None);
    assert_eq!(r, Err(AuthError::MissingSessionToken));
}

#[test]
fn login_false_result_fails() {
    let body = "{\"error\":null,\"id\":1,\"result\":false}";
    assert_eq!(login_outcome(body, Some("c".to_string())), Err(AuthError::LoginFailed));
}

#[test]
fn login_with_present_error_fails() {
    let body = "{\"error\":\"bad password\",\"id\":1,\"result\":true}";
    assert_eq!(login_outcome(body, Some("c".to_string())), Err(AuthError::LoginFailed));
}

#[test]
fn login_with_non_boolean_result_fails() {
    let body = "{\"error\":null,\"id\":1,\"result\":\"yes\"}";
    assert_eq!(login_outcome(body, Some("c".to_string())), Err(AuthError::LoginFailed));
}

#[test]
fn login_on_a_non_object_fails() {
    assert_eq!(login_outcome("[true]", Some("c".to_string())), Err(AuthError::LoginFailed));
    assert_eq!(login_outcome("not json", Some("c".to_string())), Err(AuthError::LoginFailed));
}

#[test]
fn a_good_response_parses_to_the_snapshot() {
    let body = "{\"error\":null,\"id\":1,\"result\":{\"stats\":{\"external_ip\":\"1.2.3.4\"},\
                 \"queue\":{\"t9\":{\"name\":\"A\",\"progress\":50.0},\
                 \"t3\":{\"name\":\"B\",\"progress\":100}}}}";
    let s = parse_state_body(body, "queue").expect("the response is well formed");
    assert_eq!(s.ip, "1.2.3.4".to_string());
    let mut queue = s.queue.clone();
    queue.sort();
    assert_eq!(
        queue,
        vec![
            ("A".to_string(), (50.0f64).to_bits()),
            ("B".to_string(), (100.0f64).to_bits()),
        ]
    );
}

#[test]
fn an_array_result_is_malformed() {
    let body = "{\"error\":null,\"id\":1,\"result\":[]}";
    let r = parse_state_body(body, "queue");
    assert_eq!(r, Err(FetchError::Malformed(body.to_string())));
}

#[test]
fn a_missing_stats_object_is_malformed() {
    let body = "{\"error\":null,\"id\":1,\"result\":{\"queue\":{}}}";
    assert_eq!(parse_state_body(body, "queue"), Err(FetchError::Malformed(body.to_string())));
}

#[test]
fn a_non_string_ip_is_malformed() {
    let body = "{\"result\":{\"stats\":{\"external_ip\":4},\"queue\":{}}}";
    assert_eq!(parse_state_body(body, "queue"), Err(FetchError::Malformed(body.to_string())));
}

#[test]
fn a_missing_update_key_is_malformed() {
    let body = "{\"result\":{\"stats\":{\"external_ip\":\"1.2.3.4\"},\"queue\":{}}}";
    assert_eq!(parse_state_body(body, "tasks"), Err(FetchError::Malformed(body.to_string())));
}

#[test]
fn an_item_without_progress_is_malformed() {
    let body = "{\"result\":{\"stats\":{\"external_ip\":\"1.2.3.4\"},\
                 \"queue\":{\"t1\":{\"name\":\"A\"}}}}";
    assert_eq!(parse_state_body(body, "queue"), Err(FetchError::Malformed(body.to_string())));
}

#[test]
fn an_item_with_a_non_numeric_progress_is_malformed() {
    let body = "{\"result\":{\"stats\":{\"external_ip\":\"1.2.3.4\"},\
                 \"queue\":{\"t1\":{\"name\":\"A\",\"progress\":\"half\"}}}}";
    assert_eq!(parse_state_body(body, "queue"), Err(FetchError::Malformed(body.to_string())));
}

#[test]
fn two_items_sharing_a_name_are_malformed() {
    let body = "{\"result\":{\"stats\":{\"external_ip\":\"1.2.3.4\"},\
                 \"queue\":{\"t1\":{\"name\":\"A\",\"progress\":1.0},\
                 \"t2\":{\"name\":\"A\",\"progress\":2.0}}}}";
    assert_eq!(parse_state_body(body, "queue"), Err(FetchError::Malformed(body.to_string())));
}

#[test]
fn unparseable_text_is_malformed() {
    let body = "not json at all";
    assert_eq!(parse_state_body(body, "queue"), Err(FetchError::Malformed(body.to_string())));
}

#[test]
fn an_empty_queue_parses_to_an_empty_snapshot() {
    let body = "{\"result\":{\"stats\":{\"external_ip\":\"1.2.3.4\"},\"queue\":{}}}";
    let s = parse_state_body(body, "queue").expect("the response is well formed");
    assert_eq!(s.ip, "1.2.3.4".to_string());
    assert!(s.queue.is_empty());
}

#[test]
fn integer_progress_reads_as_its_double() {
    let body = "{\"result\":{\"stats\":{\"external_ip\":\"1.2.3.4\"},\
                 \"queue\":{\"t1\":{\"name\":\"A\",\"progress\":100}}}}";
    let s = parse_state_body(body, "queue").expect("the response is well formed");
    assert_eq!(s.queue, vec![("A".to_string(), (100.0f64).to_bits())]);
}

#[test]
fn fetch_error_texts() {
    assert_eq!(
        FetchError::Auth(AuthError::LoginFailed).describe(),
        "Login failed!".to_string()
    );
    assert_eq!(
        FetchError::Auth(AuthError::MissingSessionToken).describe(),
        "set-cookie header not set!".to_string()
    );
    assert_eq!(
        FetchError::Transport("timed out".to_string()).describe(),
        "transport failure: timed out".to_string()
    );
    assert_eq!(
        FetchError::Malformed("[]".to_string()).describe(),
        "malformed response, received: []".to_string()
    );
}
