use matrix_bridge::ws::{
    is_valid_platform_id,
    parse_forward_sources, should_forward_source, validate_ws_params, ws_auth_failure_reason,
    ws_auth_step, WsAuthFrame, WsAuthStep, WsClientTable, WsConnectParams, WsParamError,
    MAX_FORWARD_SOURCE_LEN, MAX_WS_CLIENTS,
};

fn params(platform: &str, forward: Option<&str>) -> WsConnectParams {
    WsConnectParams {
        platform: platform.to_string(),
        forward_sources: forward.map(|s| s.to_string()),
        capabilities: None,
    }
}

fn sources(list: &[&str]) -> Vec<String> {
    list.iter().map(|s| s.to_string()).collect()
}

#[test]
fn test_valid_platform_id() {
    assert!(is_valid_platform_id("telegram"));
    assert!(is_valid_platform_id("my-app_v2"));
    assert!(is_valid_platform_id("a.b.c"));
    assert!(!is_valid_platform_id(""));
    assert!(!is_valid_platform_id("has space"));
    assert!(!is_valid_platform_id("has/slash"));
    assert!(!is_valid_platform_id(&"x".repeat(65)));
}

#[test]
fn test_parse_forward_sources() {
    assert_eq!(parse_forward_sources(None), Vec::<String>::new());
    assert_eq!(parse_forward_sources(Some("")), Vec::<String>::new());
    assert_eq!(parse_forward_sources(Some("matrix, slack")), vec!["matrix", "slack"]);
    assert_eq!(parse_forward_sources(Some("*")), vec!["*"]);
    let long = "x".repeat(MAX_FORWARD_SOURCE_LEN + 1);
    let input = format!("ok,,{long},valid");
    assert_eq!(parse_forward_sources(Some(&input)), vec!["ok", "valid"]);
}

#[test]
fn rejects_invalid_platform() {
    let result = validate_ws_params(&params("has space", None));
    assert!(matches!(result, Err(WsParamError::InvalidPlatform)));
}

#[test]
fn rejects_empty_platform() {
    let result = validate_ws_params(&params("", None));
    assert!(matches!(result, Err(WsParamError::InvalidPlatform)));
}

#[test]
fn accepts_valid_params() {
    let sub = validate_ws_params(&params("telegram", Some("*"))).ok().unwrap();
    assert_eq!(sub.platform, "telegram");
    assert_eq!(sub.forward_sources, vec!["*"]);
}

#[test]
fn empty_forward_sources_by_default() {
    let sub = validate_ws_params(&params("telegram", None)).ok().unwrap();
    assert!(sub.forward_sources.is_empty());
}

#[test]
fn rejects_when_connection_limit_reached() {
    let mut table = WsClientTable::new();
    for i in 0..MAX_WS_CLIENTS {
        assert!(table.try_register(&format!("p{i}"), format!("c{i}"), vec![], vec![], MAX_WS_CLIENTS));
    }
    assert!(!table.try_register("telegram", "extra".to_string(), vec![], vec![], MAX_WS_CLIENTS));
    assert_eq!(table.total_clients(), MAX_WS_CLIENTS);
}

#[test]
fn ws_test_register_and_unregister() {
    let mut table = WsClientTable::new();
    assert!(table.try_register("telegram", "c1".to_string(), vec![], vec![], usize::MAX));
    assert_eq!(table.total_clients(), 1);
    table.unregister("telegram", "c1");
    assert_eq!(table.total_clients(), 0);
}

#[test]
fn tests_test_register_and_unregister() {
    let mut table = WsClientTable::new();
    assert!(table.try_register("telegram", "id".to_string(), vec![], vec![], usize::MAX));
    assert_eq!(table.total_clients(), 1);
    table.unregister("telegram", "id");
    assert_eq!(table.total_clients(), 0);
}

#[test]
fn ws_test_broadcast_delivers_to_matching_platform() {
    let mut table = WsClientTable::new();
    table.try_register("telegram", "1".to_string(), vec![], vec![], usize::MAX);
    table.try_register("telegram", "2".to_string(), vec![], vec![], usize::MAX);
    table.try_register("slack", "3".to_string(), vec![], vec![], usize::MAX);
    assert_eq!(table.broadcast_targets("telegram", None), vec!["1", "2"]);
}

#[test]
fn tests_test_broadcast_delivers_to_matching_platform() {
    let mut table = WsClientTable::new();
    table.try_register("telegram", "1".to_string(), sources(&["*"]), vec![], usize::MAX);
    table.try_register("telegram", "2".to_string(), sources(&["*"]), vec![], usize::MAX);
    table.try_register("slack", "3".to_string(), sources(&["*"]), vec![], usize::MAX);
    let targets = table.broadcast_targets("telegram", None);
    assert!(targets.contains(&"1".to_string()));
    assert!(targets.contains(&"2".to_string()));
    assert!(!targets.contains(&"3".to_string()));
}

#[test]
fn test_broadcast_forward_sources() {
    let mut table = WsClientTable::new();
    table.try_register("telegram", "1".to_string(), sources(&["slack"]), vec![], usize::MAX);
    table.try_register("telegram", "2".to_string(), sources(&["*"]), vec![], usize::MAX);
    table.try_register("telegram", "3".to_string(), vec![], vec![], usize::MAX);
    assert_eq!(table.broadcast_targets("telegram", Some("matrix")), vec!["1", "2", "3"]);
    assert_eq!(table.broadcast_targets("telegram", Some("discord")), vec!["2"]);
}

#[test]
fn test_broadcast_no_source_defaults_to_matrix() {
    let mut table = WsClientTable::new();
    table.try_register("telegram", "1".to_string(), sources(&["matrix"]), vec![], usize::MAX);
    table.try_register("telegram", "2".to_string(), sources(&["slack"]), vec![], usize::MAX);
    assert_eq!(table.broadcast_targets("telegram", None), vec!["1", "2"]);
}

#[test]
fn test_total_clients_atomic_counter() {
    let mut table = WsClientTable::new();
    table.try_register("a", "1".to_string(), vec![], vec![], usize::MAX);
    table.try_register("b", "2".to_string(), vec![], vec![], usize::MAX);
    table.try_register("a", "3".to_string(), vec![], vec![], usize::MAX);
    assert_eq!(table.total_clients(), 3);
    table.unregister("a", "3");
    assert_eq!(table.total_clients(), 2);
}

#[test]
fn test_default_trait() {
    let table = WsClientTable::default();
    assert_eq!(table.total_clients(), 0);
}

#[test]
fn unregister_unknown_client_is_harmless() {
    let mut table = WsClientTable::new();
    table.try_register("a", "1".to_string(), vec![], vec![], usize::MAX);
    table.unregister("a", "2");
    table.unregister("b", "1");
    assert_eq!(table.total_clients(), 1);
}

#[test]
fn forward_source_rules() {
    assert!(should_forward_source(&vec![], "matrix"));
    assert!(!should_forward_source(&vec![], "discord"));
    assert!(should_forward_source(&sources(&["*"]), "discord"));
    assert!(should_forward_source(&sources(&["discord"]), "discord"));
    assert!(!should_forward_source(&sources(&["slack"]), "discord"));
}

#[test]
fn first_message_authentication() {
    assert_eq!(
        ws_auth_step("key", Some(WsAuthFrame::Text { token: Some("key".to_string()) })),
        WsAuthStep::Authenticated
    );
    assert_eq!(ws_auth_step("key", Some(WsAuthFrame::Other)), WsAuthStep::Continue);
    assert_ne!(
        ws_auth_step("key", Some(WsAuthFrame::Text { token: Some("bad".to_string()) })),
        WsAuthStep::Authenticated
    );
    assert_eq!(ws_auth_failure_reason(true), "auth timeout");
}

#[test]
fn table_lists_platforms_and_capabilities() {
    let mut table = WsClientTable::new();
    table.try_register("slack", "1".to_string(), vec![], sources(&["edit", "media"]), usize::MAX);
    table.try_register("discord", "2".to_string(), vec![], sources(&["typing"]), usize::MAX);
    table.try_register("slack", "3".to_string(), vec![], sources(&["edit", "reaction"]), usize::MAX);
    assert!(table.has_clients("slack"));
    assert!(!table.has_clients("telegram"));
    assert_eq!(table.platforms(), vec!["discord", "slack"]);
    assert_eq!(table.capabilities("slack"), vec!["edit", "media", "reaction"]);
    assert!(table.capabilities("telegram").is_empty());
}
