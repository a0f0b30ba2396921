use matrix_bridge::config::PermissionsConfig;
use matrix_bridge::dispatch::{
    classify_event, membership_plan, needs_power_check, parse_bot_command, parse_bridge_command,
    plan_relation_fanout, plan_room_message, power_level_reaches, is_replacement, relay_permits,
    route_room_message, source_platform, webhook_targets, BotCommand, BridgeCommand, EventAction,
    PuppetRecord, Relation, RelationTarget, RoomMappingRecord, RoomMessageRoute, WebhookRecord,
    BRIDGE_COMMAND_MIN_POWER_LEVEL,
};
use matrix_bridge::message::MessageContent;

const BOT: &str = "@bridge_bot:example.com";

#[test]
fn events_are_classified() {
    assert_eq!(classify_event("m.room.member", BOT, BOT), EventAction::Membership);
    assert_eq!(classify_event("m.room.message", BOT, BOT), EventAction::Ignore);
    assert_eq!(classify_event("m.room.message", "@a:x", BOT), EventAction::RoomMessage);
    assert_eq!(classify_event("m.room.encrypted", "@a:x", BOT), EventAction::Encrypted);
    assert_eq!(classify_event("m.room.encryption", "@a:x", BOT), EventAction::TrackEncryption);
    assert_eq!(classify_event("m.room.redaction", "@a:x", BOT), EventAction::Redaction);
    assert_eq!(classify_event("m.typing", "@a:x", BOT), EventAction::Ignore);
}

#[test]
fn invites_are_accepted_for_admins_only() {
    let open = PermissionsConfig::default();
    let p = membership_plan("invite", BOT, "@alice:x", BOT, "@bot_", &open);
    assert!(p.track_device && p.accept_invite && p.track_members_after_join);

    let strict = PermissionsConfig {
        admin: vec!["@admin:x".to_string()],
        relay: vec!["@alice:x".to_string()],
        relay_min_power_level: 0,
    };
    let denied = membership_plan("invite", "@bot_tg_1:x", "@alice:x", BOT, "@bot_", &strict);
    assert!(denied.track_device && !denied.accept_invite);
    let by_bot = membership_plan("invite", "@bot_tg_1:x", BOT, BOT, "@bot_", &strict);
    assert!(by_bot.accept_invite && !by_bot.track_members_after_join);
    let other = membership_plan("invite", "@carol:x", "@admin:x", BOT, "@bot_", &strict);
    assert!(!other.accept_invite);
    let join = membership_plan("join", "@carol:x", "@carol:x", BOT, "@bot_", &strict);
    assert!(join.track_device && !join.accept_invite);
    let none = membership_plan("invite", "", "@admin:x", BOT, "@bot_", &strict);
    assert!(!none.track_device && !none.accept_invite);
}

#[test]
fn room_messages_are_routed() {
    assert_eq!(route_room_message("!bridge status", false), RoomMessageRoute::BridgeCommand);
    assert_eq!(route_room_message("!bridge status", true), RoomMessageRoute::BridgeCommand);
    assert_eq!(route_room_message("!help", false), RoomMessageRoute::BotCommand);
    assert_eq!(route_room_message("hello", false), RoomMessageRoute::Ignore);
    assert_eq!(route_room_message("!help", true), RoomMessageRoute::Forward);
    assert_eq!(route_room_message("hello", true), RoomMessageRoute::Forward);
}

#[test]
fn power_gate_and_relations() {
    assert!(needs_power_check(50, "@alice:x", "@bot_"));
    assert!(!needs_power_check(50, "@bot_tg_1:x", "@bot_"));
    assert!(!needs_power_check(0, "@alice:x", "@bot_"));
    assert!(power_level_reaches(Some(50), BRIDGE_COMMAND_MIN_POWER_LEVEL));
    assert!(!power_level_reaches(Some(49), BRIDGE_COMMAND_MIN_POWER_LEVEL));
    assert!(!power_level_reaches(None, 10));
    assert!(power_level_reaches(None, 0));
    assert!(is_replacement(Some("m.replace")));
    assert!(!is_replacement(Some("m.annotation")));
    assert!(!is_replacement(None));
}

#[test]
fn source_platform_prefers_puppet_record() {
    assert_eq!(source_platform(Some("discord"), "@bot_telegram_1:x", "bot"), Some("discord".to_string()));
    assert_eq!(source_platform(None, "@bot_telegram_1:x", "bot"), Some("telegram".to_string()));
    assert_eq!(source_platform(None, "@alice:x", "bot"), None);
}

fn mapping(id: i64, platform: &str, ext: &str) -> RoomMappingRecord {
    RoomMappingRecord {
        id,
        matrix_room_id: "!room:x".to_string(),
        platform_id: platform.to_string(),
        external_room_id: ext.to_string(),
    }
}

#[test]
fn outbound_plan_skips_source_platform() {
    let mappings = vec![mapping(1, "telegram", "t1"), mapping(2, "discord", "d1"), mapping(3, "slack", "s1")];
    let content = MessageContent::Notice { body: "hi".to_string() };
    let plan = plan_room_message(&mappings, None, "@bot_telegram_9:x", Some("telegram"), "$ev", &content, 7);
    let idx: Vec<usize> = plan.iter().map(|d| d.mapping_index).collect();
    assert_eq!(idx, vec![1, 2]);
    assert_eq!(plan[0].message.room.platform, "discord");
    assert_eq!(plan[0].message.room.external_id, "d1");
    assert_eq!(plan[0].message.id, "$ev");
    assert_eq!(plan[0].message.timestamp, 7);
    assert_eq!(plan[0].message.sender.platform, "matrix");

    let puppet = PuppetRecord {
        platform_id: "telegram".to_string(),
        external_user_id: "9".to_string(),
        display_name: Some("Nine".to_string()),
        avatar_mxc: None,
    };
    let plan2 = plan_room_message(&mappings, Some(&puppet), "@bot_telegram_9:x", Some("telegram"), "$ev", &content, 7);
    assert_eq!(plan2[0].message.sender.platform, "telegram");
    assert_eq!(plan2[0].message.sender.display_name.as_deref(), Some("Nine"));

    let all = plan_room_message(&mappings, None, "@alice:x", None, "$ev", &content, 7);
    assert_eq!(all.len(), 3);
}

#[test]
fn relations_fan_out_to_mapped_rooms() {
    let targets = vec![
        RelationTarget {
            platform_id: "discord".to_string(),
            external_message_id: "dm1".to_string(),
            external_room_id: Some("d1".to_string()),
        },
        RelationTarget {
            platform_id: "slack".to_string(),
            external_message_id: "sm1".to_string(),
            external_room_id: None,
        },
    ];
    let out = plan_relation_fanout(&targets, &Relation::Reaction { emoji: "👍".to_string() }, "@a:x", "$r", 3);
    assert_eq!(out.len(), 1);
    assert!(matches!(out[0].content, MessageContent::Reaction { ref target_id, ref emoji }
        if target_id == "dm1" && emoji == "👍"));
    let red = plan_relation_fanout(&targets, &Relation::Redaction, "@a:x", "$target", 3);
    assert_eq!(red[0].id, "$target");
    assert!(matches!(red[0].content, MessageContent::Redaction { ref target_id } if target_id == "dm1"));
    let edit = plan_relation_fanout(
        &targets,
        &Relation::Edit { new_content: MessageContent::Notice { body: "new".to_string() } },
        "@a:x",
        "$e",
        3,
    );
    assert!(matches!(edit[0].content, MessageContent::Edit { ref target_id, .. } if target_id == "dm1"));
}

#[test]
fn webhook_delivery_rules() {
    assert!(relay_permits(false, None));
    assert!(!relay_permits(false, Some("telegram")));
    assert!(relay_permits(true, Some("telegram")));
    let hooks = vec![
        WebhookRecord { webhook_url: "https://a".to_string(), forward_sources: vec![] },
        WebhookRecord { webhook_url: "https://b".to_string(), forward_sources: vec!["*".to_string()] },
        WebhookRecord { webhook_url: "https://c".to_string(), forward_sources: vec!["slack".to_string()] },
    ];
    assert_eq!(webhook_targets(&hooks, None), vec!["https://a", "https://b", "https://c"]);
    assert_eq!(webhook_targets(&hooks, Some("slack")), vec!["https://b", "https://c"]);
    assert_eq!(webhook_targets(&hooks, Some("discord")), vec!["https://b"]);
}

#[test]
fn bridge_commands_are_parsed() {
    assert!(matches!(parse_bridge_command("!bridge link telegram chat_1"),
        BridgeCommand::Link { ref platform_id, ref external_id } if platform_id == "telegram" && external_id == "chat_1"));
    assert!(matches!(parse_bridge_command("!bridge link telegram"), BridgeCommand::LinkUsage));
    assert!(matches!(parse_bridge_command("!bridge link bad/id x"), BridgeCommand::InvalidPlatformId));
    let long = "x".repeat(256);
    assert!(matches!(parse_bridge_command(&format!("!bridge link tg {long}")), BridgeCommand::ExternalIdTooLong));
    assert!(matches!(parse_bridge_command("!bridge   unlink   slack"),
        BridgeCommand::Unlink { ref platform_id } if platform_id == "slack"));
    assert!(matches!(parse_bridge_command("!bridge unlink"), BridgeCommand::UnlinkUsage));
    assert!(matches!(parse_bridge_command("!bridge status"), BridgeCommand::Status));
    assert!(matches!(parse_bridge_command("!bridge"), BridgeCommand::Help));
    assert!(parse_bridge_command("!bridge unlink").needs_power_level());
    assert!(!parse_bridge_command("!bridge status").needs_power_level());
}

#[test]
fn bot_commands_are_parsed() {
    let open = PermissionsConfig::default();
    assert!(matches!(parse_bot_command("!help", "@a:x", &open), BotCommand::Help));
    assert!(matches!(parse_bot_command("!rooms telegram", "@a:x", &open),
        BotCommand::Rooms { platform: Some(ref p) } if p == "telegram"));
    assert!(matches!(parse_bot_command("!rooms", "@a:x", &open), BotCommand::Rooms { platform: None }));
    assert!(matches!(parse_bot_command("!platforms", "@a:x", &open), BotCommand::Platforms));
    assert!(matches!(parse_bot_command("!spaces", "@a:x", &open), BotCommand::Spaces));
    assert!(matches!(parse_bot_command("!telegram", "@a:x", &open),
        BotCommand::PlatformInfo { ref platform } if platform == "telegram"));
    assert!(matches!(parse_bot_command("!telegram  kick   bob", "@a:x", &open),
        BotCommand::Passthrough { ref platform, ref command } if platform == "telegram" && command == "kick bob"));
    assert!(matches!(parse_bot_command("!", "@a:x", &open), BotCommand::Ignore));
    let strict = PermissionsConfig {
        admin: vec!["@admin:x".to_string()],
        relay: vec!["@a:x".to_string()],
        relay_min_power_level: 0,
    };
    assert!(matches!(parse_bot_command("!help", "@a:x", &strict), BotCommand::Denied));
}
