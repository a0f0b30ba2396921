use matrix_bridge::bridge::{
    bot_user_id, command_sent_reply, crypto_sync_targets, e2ee_query_params,
    event_id_from_response, is_per_user_key_counts, is_spaces_unsupported_error, next_cursor,
    no_integrations_reply, no_rooms_reply, platform_space_name, platform_space_topic,
    portal_room_name, power_level_of, puppet_cache_key, puppet_profile_plan, puppet_user_prefix,
    rooms_reply, unknown_platform_reply, BridgeInfo, HELP_TEXT,
};
use matrix_bridge::dispatch::RoomMappingRecord;
use matrix_bridge::error::retry_delay;

fn strings(list: &[&str]) -> Vec<String> {
    list.iter().map(|s| s.to_string()).collect()
}

#[test]
fn identities_and_names() {
    assert_eq!(bot_user_id("bridge_bot", "example.com"), "@bridge_bot:example.com");
    assert_eq!(puppet_user_prefix("bot"), "@bot_");
    assert_eq!(portal_room_name(Some("General"), "chat_1"), "General");
    assert_eq!(portal_room_name(None, "chat_1"), "chat_1");
    assert_eq!(platform_space_name("telegram"), "telegram (bridge)");
    assert_eq!(platform_space_topic("telegram"), "Bridged rooms from telegram");
    assert_eq!(puppet_cache_key("slack", "U1"), "slack:U1");
}

#[test]
fn unsupported_spaces_are_detected() {
    assert!(is_spaces_unsupported_error("create room failed (400): {\"errcode\":\"M_UNKNOWN\"}"));
    assert!(is_spaces_unsupported_error("M_UNRECOGNIZED"));
    assert!(is_spaces_unsupported_error("unknown room type m.space"));
    assert!(!is_spaces_unsupported_error("M_FORBIDDEN"));
}

#[test]
fn puppet_profiles_are_updated_when_changed() {
    let new = puppet_profile_plan(None, Some("Alice"), None);
    assert_eq!(new.set_display_name.as_deref(), Some("Alice"));
    assert_eq!(new.set_avatar, None);
    assert!(new.store);
    let same = puppet_profile_plan(Some((Some("Alice"), None)), Some("Alice"), None);
    assert!(same.set_display_name.is_none() && same.set_avatar.is_none() && !same.store);
    let renamed = puppet_profile_plan(Some((Some("Alice"), Some("mxc://a"))), Some("Alicia"), Some("mxc://a"));
    assert_eq!(renamed.set_display_name.as_deref(), Some("Alicia"));
    assert!(renamed.set_avatar.is_none() && renamed.store);
    let cleared = puppet_profile_plan(Some((Some("Alice"), None)), None, None);
    assert!(cleared.set_display_name.is_none() && cleared.store);
}

#[test]
fn small_protocol_rules() {
    assert_eq!(power_level_of(Some(100), Some(0)), 100);
    assert_eq!(power_level_of(None, Some(10)), 10);
    assert_eq!(power_level_of(None, None), 0);
    assert_eq!(event_id_from_response(Some("$e")), Some("$e".to_string()));
    assert_eq!(event_id_from_response(Some("")), None);
    assert_eq!(event_id_from_response(None), None);
    let p = e2ee_query_params(Some("@bot:x"), Some("DEV"));
    assert_eq!(p, vec![
        ("user_id".to_string(), "@bot:x".to_string()),
        ("device_id".to_string(), "DEV".to_string()),
    ]);
    assert_eq!(e2ee_query_params(None, Some("DEV")).len(), 1);
    assert!(e2ee_query_params(None, None).is_empty());
    assert_eq!(next_cursor(&vec![3, 9, 12]), Some(12));
    assert_eq!(next_cursor(&vec![]), None);
}

#[test]
fn crypto_sync_targets_are_distinct() {
    let t = crypto_sync_targets(
        &strings(&["@p1:x", "@bot:x"]),
        &strings(&["@p2:x", "@p1:x"]),
        &strings(&["@p3:x", "@p2:x", "@bot:x"]),
        "@bot:x",
    );
    assert_eq!(t, vec!["@p1:x", "@p2:x", "@p3:x"]);
    assert!(crypto_sync_targets(&vec![], &vec![], &vec![], "@bot:x").is_empty());
    assert!(is_per_user_key_counts(&strings(&["signed_curve25519", "@u:x"])));
    assert!(!is_per_user_key_counts(&strings(&["signed_curve25519"])));
}

#[test]
fn bot_replies() {
    assert!(HELP_TEXT.starts_with("Commands (DM):"));
    assert!(HELP_TEXT.contains("!bridge status"));
    assert_eq!(no_rooms_reply(None), "No bridged rooms.");
    assert_eq!(no_rooms_reply(Some("tg")), "No bridged rooms for platform 'tg'.");
    let rooms = vec![RoomMappingRecord {
        id: 1,
        matrix_room_id: "!r:x".to_string(),
        platform_id: "tg".to_string(),
        external_room_id: "c1".to_string(),
    }];
    assert_eq!(rooms_reply(&rooms), "Bridged rooms (1):\n  [tg] c1 ↔ !r:x");
    assert_eq!(command_sent_reply("tg"), "Command sent to tg.");
    assert_eq!(
        no_integrations_reply("tg"),
        "No integrations for platform 'tg'. Type !platforms to see available."
    );
    assert_eq!(
        unknown_platform_reply("tg"),
        "Unknown platform 'tg'. Type !platforms to see available platforms."
    );
}

#[test]
fn retries_back_off() {
    assert_eq!(retry_delay(0, "request timed out"), Some(1));
    assert_eq!(retry_delay(1, "connection reset"), Some(2));
    assert_eq!(retry_delay(2, "connection reset"), None);
    assert_eq!(retry_delay(0, "M_FORBIDDEN"), None);
}

#[test]
fn bridge_info_counts() {
    let info = BridgeInfo {
        homeserver_url: "http://localhost:8008".to_string(),
        homeserver_domain: "example.com".to_string(),
        bot_user_id: "@bridge:example.com".to_string(),
        puppet_prefix: "bot".to_string(),
        encryption_enabled: false,
        encryption_default: false,
        webhook_ssrf_protection: true,
        api_key_required: false,
        configured_platforms: strings(&["telegram"]),
        admin_users: strings(&["@a:x", "@b:x"]),
        relay_users: vec![],
    };
    assert_eq!(info.permission_counts(), (2, 0));
}
