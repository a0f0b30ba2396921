use matrix_bridge::config::{PermissionLevel, PermissionsConfig};

fn perms(admin: &[&str], relay: &[&str]) -> PermissionsConfig {
    PermissionsConfig {
        admin: admin.iter().map(|s| s.to_string()).collect(),
        relay: relay.iter().map(|s| s.to_string()).collect(),
        ..Default::default()
    }
}

#[test]
fn test_open_mode_everyone_is_admin() {
    let p = PermissionsConfig::default();
    assert_eq!(p.permission_level("@anyone:example.com"), PermissionLevel::Admin);
    assert!(p.is_invite_allowed("@anyone:example.com"));
}

#[test]
fn test_admin_exact() {
    let p = perms(&["@admin:example.com"], &[]);
    assert_eq!(p.permission_level("@admin:example.com"), PermissionLevel::Admin);
    assert_eq!(p.permission_level("@other:example.com"), PermissionLevel::NoAccess);
}

#[test]
fn test_admin_domain_wildcard() {
    let p = perms(&["@*:trusted.org"], &[]);
    assert_eq!(p.permission_level("@alice:trusted.org"), PermissionLevel::Admin);
    assert_eq!(p.permission_level("@alice:untrusted.org"), PermissionLevel::NoAccess);
}

#[test]
fn test_relay_exact() {
    let p = perms(&[], &["@user:example.com"]);
    assert_eq!(p.permission_level("@user:example.com"), PermissionLevel::Relay);
    assert_eq!(p.permission_level("@other:example.com"), PermissionLevel::NoAccess);
}

#[test]
fn test_relay_domain_wildcard() {
    let p = perms(&[], &["@*:trusted.org"]);
    assert_eq!(p.permission_level("@bob:trusted.org"), PermissionLevel::Relay);
    assert_eq!(p.permission_level("@bob:untrusted.org"), PermissionLevel::NoAccess);
}

#[test]
fn test_admin_over_relay() {
    let p = perms(&["@admin:example.com"], &["@admin:example.com", "@user:example.com"]);
    assert_eq!(p.permission_level("@admin:example.com"), PermissionLevel::Admin);
    assert_eq!(p.permission_level("@user:example.com"), PermissionLevel::Relay);
    assert_eq!(p.permission_level("@nobody:example.com"), PermissionLevel::NoAccess);
}

#[test]
fn test_relay_wildcard_admin_specific() {
    let p = perms(&["@admin:example.com"], &["*"]);
    assert_eq!(p.permission_level("@admin:example.com"), PermissionLevel::Admin);
    assert_eq!(p.permission_level("@anyone:example.com"), PermissionLevel::Relay);
}

#[test]
fn test_invite_admin_only() {
    let p = perms(&["@admin:example.com"], &["@user:example.com"]);
    assert!(p.is_invite_allowed("@admin:example.com"));
    assert!(!p.is_invite_allowed("@user:example.com"), "relay cannot invite");
    assert!(!p.is_invite_allowed("@nobody:example.com"));
}

#[test]
fn test_invite_denied_when_no_role() {
    let p = perms(&["@admin:a.com"], &[]);
    assert!(p.is_invite_allowed("@admin:a.com"));
    assert!(!p.is_invite_allowed("@other:a.com"));
}

#[test]
fn test_admin_only_no_relay() {
    let p = perms(&["@admin:example.com"], &[]);
    assert_eq!(p.permission_level("@admin:example.com"), PermissionLevel::Admin);
    assert_eq!(p.permission_level("@other:example.com"), PermissionLevel::NoAccess);
    assert!(!p.is_invite_allowed("@other:example.com"));
}

#[test]
fn test_mixed_admin_relay_domains() {
    let p = perms(&["@admin:trusted.org"], &["@*:trusted.org"]);
    assert_eq!(p.permission_level("@admin:trusted.org"), PermissionLevel::Admin);
    assert_eq!(p.permission_level("@user:trusted.org"), PermissionLevel::Relay);
    assert_eq!(p.permission_level("@user:untrusted.org"), PermissionLevel::NoAccess);
}

#[test]
fn permission_levels_are_ordered() {
    assert!(PermissionLevel::Admin.at_least(&PermissionLevel::Relay));
    assert!(PermissionLevel::Relay.at_least(&PermissionLevel::NoAccess));
    assert!(!PermissionLevel::Relay.at_least(&PermissionLevel::Admin));
    assert_eq!(PermissionLevel::Admin.rank(), 2);
}

#[test]
fn matches_checks_every_pattern() {
    let pats = vec!["@a:x.org".to_string(), "@*:y.org".to_string()];
    assert!(PermissionsConfig::matches("@a:x.org", &pats));
    assert!(PermissionsConfig::matches("@zz:y.org", &pats));
    assert!(!PermissionsConfig::matches("@zz:x.org", &pats));
    assert!(!PermissionsConfig::matches("@a:x.org", &Vec::new()));
}
