use matrix_bridge::platform::{
    alias_namespace_regex, is_valid_localpart, is_valid_matrix_user_id, puppet_localpart,
    puppet_source_platform, user_namespace_regex, webhook_message_id,
};

#[test]
fn test_puppet_localpart() {
    assert_eq!(puppet_localpart("bot", "telegram", "12345"), "bot_telegram_12345");
    assert_eq!(puppet_localpart("bot", "slack", "U001"), "bot_slack_U001");
}

#[test]
fn test_puppet_source_platform() {
    assert_eq!(
        puppet_source_platform("@bot_telegram_12345:example.com", "bot"),
        Some("telegram".to_string())
    );
    assert_eq!(
        puppet_source_platform("@bot_slack_U001:example.com", "bot"),
        Some("slack".to_string())
    );
    assert_eq!(puppet_source_platform("@alice:example.com", "bot"), None);
    assert_eq!(puppet_source_platform("@other_telegram_12345:example.com", "bot"), None);
    assert_eq!(puppet_source_platform("@bot:example.com", "bot"), None);
}

#[test]
fn puppet_id_round_trip() {
    let lp = puppet_localpart("bot", "discord", "user_with_underscores");
    let user_id = format!("@{lp}:example.org");
    assert_eq!(puppet_source_platform(&user_id, "bot"), Some("discord".to_string()));
}

#[test]
fn localpart_and_user_id_shapes() {
    assert!(is_valid_localpart("bot_telegram_123"));
    assert!(!is_valid_localpart("Bot"));
    assert!(!is_valid_localpart(""));
    assert!(is_valid_matrix_user_id("@alice:example.com"));
    assert!(!is_valid_matrix_user_id("alice:example.com"));
    assert!(!is_valid_matrix_user_id("@alice"));
    assert!(!is_valid_matrix_user_id("@:example.com"));
}

#[test]
fn namespace_regexes() {
    assert_eq!(user_namespace_regex("telegram"), "@telegram_.*");
    assert_eq!(alias_namespace_regex("telegram"), "#telegram_.*");
    assert_eq!(webhook_message_id("slack", "42"), "wh_slack_42");
}
