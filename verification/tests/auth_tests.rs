use matrix_bridge::auth::{
    auth_outcome, bearer_from_header, extract_bearer_token, parse_access_token, verify_token,
    AuthOutcome,
};

#[test]
fn test_parse_access_token() {
    assert_eq!(
        parse_access_token("access_token=abc123&foo=bar"),
        Some("abc123".to_string())
    );
    assert_eq!(parse_access_token("foo=bar"), None);
    assert_eq!(parse_access_token(""), None);
    assert_eq!(parse_access_token("x=1&access_token=tok"), Some("tok".to_string()));
}

#[test]
fn test_parse_bearer_token() {
    assert_eq!(
        bearer_from_header("Bearer mytoken123"),
        Some("mytoken123".to_string())
    );
    assert_eq!(
        bearer_from_header("bearer mytoken123"),
        None,
        "Bearer prefix is case-sensitive"
    );
    assert_eq!(bearer_from_header("Basic abc123"), None);
}

#[test]
fn test_verify_token() {
    assert!(verify_token("secret123", "secret123"));
    assert!(!verify_token("secret123", "wrong"));
    assert!(!verify_token("short", "longer_token"));
    assert!(!verify_token("", "notempty"));
    assert!(verify_token("", ""));
}

#[test]
fn bearer_header_wins_over_query() {
    assert_eq!(
        extract_bearer_token(Some("Bearer fromheader"), Some("access_token=fromquery")),
        Some("fromheader".to_string())
    );
    assert_eq!(
        extract_bearer_token(None, Some("access_token=fromquery")),
        Some("fromquery".to_string())
    );
    assert_eq!(extract_bearer_token(None, None), None);
}

#[test]
fn auth_outcomes() {
    assert_eq!(auth_outcome(Some("k"), Some("k")), AuthOutcome::Pass);
    assert_eq!(auth_outcome(Some("k"), Some("x")), AuthOutcome::Forbidden);
    assert_eq!(auth_outcome(Some("k"), None), AuthOutcome::Unauthorized);
}

#[test]
fn verify_token_is_reflexive() {
    for t in ["", "a", "long token with spaces", "ünïcödé"] {
        assert!(verify_token(t, t));
    }
}
