use rorserver::master_server::{
    build_registration_body, interpret_registration_response, Client,
};
use rorserver::Config;

#[test]
fn new_client_starts_unregistered() {
    let c = Client::new();
    assert!(!c.is_registered());
    assert_eq!(c.get_trust_level(), -1);
    assert!(c.m_token.is_none());
    assert!(c.m_server_path.is_none());
    assert!(c.m_last_message.is_none());
}

#[test]
fn apply_response_200_with_both_fields_registers() {
    let mut c = Client::new();
    let ok = c.apply_response(200, "{\"verified-level\":3,\"challenge\":\"abc\"}");
    assert!(ok);
    assert!(c.is_registered());
    assert_eq!(c.get_trust_level(), 3);
    assert_eq!(c.m_token.as_deref(), Some("abc"));
}

#[test]
fn apply_response_500_leaves_client_unregistered() {
    let mut c = Client::new();
    let ok = c.apply_response(500, "{\"message\":\"down for maintenance\"}");
    assert!(!ok);
    assert!(!c.is_registered());
    assert_eq!(c.get_trust_level(), -1);
    assert!(c.m_token.is_none());
    // the server-provided diagnostic is kept for the log
    assert_eq!(c.m_last_message.as_deref(), Some("down for maintenance"));
}

#[test]
fn error_message_is_kept_only_when_present() {
    let mut c = Client::new();
    assert!(!c.apply_response(500, "not json"));
    assert!(c.m_last_message.is_none());
    assert!(!c.apply_response(503, "{\"message\":\"busy\"}"));
    assert_eq!(c.m_last_message.as_deref(), Some("busy"));
    // a later successful registration clears the remembered message
    assert!(c.apply_response(200, "{\"verified-level\":2,\"challenge\":\"t\"}"));
    assert!(c.m_last_message.is_none());
}

#[test]
fn apply_response_missing_fields_is_a_failure() {
    let mut c = Client::new();
    assert!(!c.apply_response(200, "{\"challenge\":\"abc\"}"));
    assert!(!c.apply_response(200, "{\"verified-level\":3}"));
    assert!(!c.apply_response(200, "{\"verified-level\":\"three\",\"challenge\":\"abc\"}"));
    assert!(!c.apply_response(200, "{\"verified-level\":3,\"challenge\":17}"));
    assert!(!c.apply_response(200, "not json at all"));
    assert!(!c.is_registered());
}

#[test]
fn interpret_response_is_exact() {
    let r = interpret_registration_response(200, Some(3), Some("abc".to_string()));
    assert_eq!(r, Some((3, "abc".to_string())));
    assert_eq!(interpret_registration_response(500, Some(3), Some("abc".to_string())), None);
    assert_eq!(interpret_registration_response(200, None, Some("abc".to_string())), None);
    assert_eq!(interpret_registration_response(200, Some(3), None), None);
    // a verified-level that cannot fit a signed 32-bit value is refused
    assert_eq!(interpret_registration_response(200, Some(i64::MAX), Some("x".to_string())), None);
    assert_eq!(
        interpret_registration_response(200, Some(-5), Some("x".to_string())),
        Some((-5, "x".to_string()))
    );
}

#[test]
fn registration_body_for_default_config() {
    let conf = Config::default();
    let body = build_registration_body(&conf);
    let text = std::str::from_utf8(&body).unwrap();
    assert_eq!(
        text,
        "{\"ip\":\"0.0.0.0\",\"port\":\"0\",\"name\":\"rust server test\",\
         \"terrain-name\":\"any\",\"max-clients\":\"16\",\"version\":\"RoRnet_2.44\",\
         \"use-password\":\"1\"}"
    );
}

#[test]
fn registration_body_escapes_json_metacharacters() {
    let mut conf = Config::default();
    conf.s_server_name = "a\"b\\c\nd".to_string();
    conf.s_public_password = String::new();
    conf.s_listen_port = 12345;
    conf.s_max_clients = 64;
    let body = build_registration_body(&conf);
    let text = std::str::from_utf8(&body).unwrap();
    assert!(text.contains("\"name\":\"a\\\"b\\\\c\\u000ad\""));
    assert!(text.contains("\"port\":\"12345\""));
    assert!(text.contains("\"max-clients\":\"64\""));
    assert!(text.contains("\"use-password\":\"0\""));
    // the body must itself be valid JSON
    let v: serde_json::Value = serde_json::from_str(text).unwrap();
    assert_eq!(v["name"], "a\"b\\c\nd");
    assert_eq!(v["port"], "12345");
}

#[test]
fn heartbeat_body_requires_registration() {
    let c = Client::new();
    assert!(c.heartbeat_body("[]").is_none());
    assert!(!c.send_heartbeat("[]"));

    let mut c = Client::new();
    c.apply_response(200, "{\"verified-level\":1,\"challenge\":\"tok\"}");
    let body = c.heartbeat_body("alice,bob").expect("registered clients can heartbeat");
    let text = std::str::from_utf8(&body).unwrap();
    assert_eq!(text, "{\"challenge\":\"tok\",\"users\":\"alice,bob\"}");
}

#[test]
fn unregister_without_registration_fails_and_changes_nothing() {
    let mut c = Client::new();
    assert!(!c.unregister());
    assert!(!c.is_registered());
    assert_eq!(c.get_trust_level(), -1);
}

#[test]
fn heartbeat_retry_budget_follows_config() {
    let conf = Config::default();
    assert!(Client::heartbeat_should_retry(0, &conf));
    assert!(Client::heartbeat_should_retry(4, &conf));
    assert!(!Client::heartbeat_should_retry(5, &conf));
    assert!(!Client::heartbeat_should_retry(6, &conf));
}
