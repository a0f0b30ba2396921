use sha2::Digest;

use matrix_bridge::bridge::{
    join_strings, known_platforms, platform_capabilities, platform_info_reply, platforms_reply,
    PlatformSummary,
};
use matrix_bridge::crypto_ids::{machine_for, puppet_device_id, CryptoMachine};
use matrix_bridge::sorted::{insert_sorted, str_less};

fn strings(list: &[&str]) -> Vec<String> {
    list.iter().map(|s| s.to_string()).collect()
}

#[test]
fn platform_lists_are_sorted_and_distinct() {
    let p = known_platforms(&strings(&["telegram", "discord"]), &strings(&["slack", "discord"]));
    assert_eq!(p, vec!["discord", "slack", "telegram"]);
    assert!(known_platforms(&vec![], &vec![]).is_empty());
}

#[test]
fn capabilities_are_aggregated() {
    let caps = platform_capabilities(
        &strings(&["edit, reaction", " ,media", ""]),
        &strings(&["typing", "edit"]),
    );
    assert_eq!(caps, vec!["edit", "media", "reaction", "typing"]);
}

#[test]
fn platform_replies() {
    let summaries = vec![
        PlatformSummary { platform: "discord".to_string(), rooms: 2, webhooks: 1, has_ws: true },
        PlatformSummary { platform: "slack".to_string(), rooms: 0, webhooks: 0, has_ws: false },
    ];
    assert_eq!(
        platforms_reply(&summaries),
        "Platforms (2):\n  discord — 2 room(s), 1 webhook(s), ws\n  slack — no integrations"
    );
    assert_eq!(platforms_reply(&vec![]), "No platforms registered.");
    assert_eq!(
        platform_info_reply("tg", 1, true, 3, Some("!space:x"), &strings(&["edit", "media"])),
        "Platform: tg\n  Integrations: 1 webhook(s), ws connected\n  Rooms: 3\n  Space: !space:x\n  Capabilities: edit, media"
    );
    assert_eq!(
        platform_info_reply("tg", 0, false, 0, None, &vec![]),
        "Platform: tg\n  Integrations: 0 webhook(s)\n  Rooms: 0\n  Capabilities: (none declared)"
    );
    assert_eq!(join_strings(&strings(&["a", "b", "c"]), ", "), "a, b, c");
    assert_eq!(join_strings(&vec![], ", "), "");
}

#[test]
fn string_order_matches_std() {
    for (a, b) in [("a", "b"), ("ab", "a"), ("", "a"), ("é", "z"), ("Z", "a"), ("same", "same")] {
        assert_eq!(str_less(a, b), a < b, "{a} < {b}");
    }
    let mut v = strings(&["b", "d"]);
    insert_sorted(&mut v, "c".to_string());
    insert_sorted(&mut v, "a".to_string());
    insert_sorted(&mut v, "d".to_string());
    assert_eq!(v, vec!["a", "b", "c", "d"]);
}

#[test]
fn puppet_devices_are_derived_from_the_localpart() {
    let hash = sha2::Sha256::digest("bot_telegram_42".as_bytes());
    let hex: String = hash[..8].iter().map(|b| format!("{b:02x}")).collect();
    assert_eq!(
        puppet_device_id("@bot_telegram_42:example.com", "BRIDGE"),
        format!("BRIDGE_{hex}")
    );
    assert_eq!(
        puppet_device_id("@bot_telegram_42:example.com", "X"),
        puppet_device_id("@bot_telegram_42:other.org", "X")
    );
    assert_eq!(machine_for("@bot:x", "@bot:x", true), CryptoMachine::Bot);
    assert_eq!(machine_for("@p:x", "@bot:x", false), CryptoMachine::Bot);
    assert_eq!(machine_for("@p:x", "@bot:x", true), CryptoMachine::Puppet);
}
