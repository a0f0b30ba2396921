use matrix_bridge::config::AppserviceConfig;
use matrix_bridge::registration::{build_registration, decimal, regex_escape};

fn config() -> AppserviceConfig {
    AppserviceConfig {
        id: "test-bridge".to_string(),
        address: "0.0.0.0".to_string(),
        port: 29320,
        sender_localpart: "bridge_bot".to_string(),
        as_token: "as_token_123".to_string(),
        hs_token: "hs_token_456".to_string(),
        puppet_prefix: "bot".to_string(),
        api_key: None,
        webhook_ssrf_protection: false,
        auto_invite: vec![],
        allow_api_invite: false,
        allow_relay: false,
    }
}

#[test]
fn test_build_registration() {
    let reg = build_registration(
        &config(),
        vec!["@telegram_.*:example\\.com".to_string()],
        vec!["#telegram_.*:example\\.com".to_string()],
        false,
    );
    assert_eq!(reg.id, "test-bridge");
    assert_eq!(reg.namespaces.users.len(), 2);
    assert_eq!(reg.namespaces.aliases.len(), 1);
    assert!(reg.as_token.contains("as_token_123"));
    assert!(reg.sender_localpart.contains("bridge_bot"));
}

#[test]
fn registration_fields() {
    let reg = build_registration(&config(), vec![], vec![], true);
    assert_eq!(reg.url, "http://bridge:29320");
    assert_eq!(reg.hs_token, "hs_token_456");
    assert_eq!(reg.namespaces.users.len(), 1);
    assert_eq!(reg.namespaces.users[0].regex, "@bridge_bot:.*");
    assert!(reg.namespaces.users[0].exclusive);
    assert!(reg.namespaces.rooms.is_empty());
}

#[test]
fn escaping_and_numbers() {
    assert_eq!(regex_escape("a.b*c"), "a\\.b\\*c");
    assert_eq!(regex_escape("plain"), "plain");
    assert_eq!(decimal(0), "0");
    assert_eq!(decimal(29320), "29320");
}
