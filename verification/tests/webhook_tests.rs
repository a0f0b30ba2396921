use matrix_bridge::net::IpAddress;
use matrix_bridge::webhook::{
    check_resolved_addresses, validate_webhook_url, WebhookUrlCheck, WebhookUrlError,
};

fn is_blocked(r: &Result<WebhookUrlCheck, WebhookUrlError>) -> bool {
    matches!(
        r,
        Err(WebhookUrlError::BlockedHost(_)) | Err(WebhookUrlError::BlockedIp(_))
    )
}

#[test]
fn validate_webhook_url_accepts_valid_http() {
    assert!(validate_webhook_url("http://example.com/webhook", true).is_ok());
    assert!(validate_webhook_url("https://example.com/webhook", true).is_ok());
    assert!(validate_webhook_url("https://hooks.slack.com/services/abc", false).is_ok());
}

#[test]
fn validate_webhook_url_rejects_non_http_schemes() {
    for (url, ssrf) in [
        ("ftp://example.com/file", true),
        ("file:///etc/passwd", true),
        ("javascript:alert(1)", false),
    ] {
        let r = validate_webhook_url(url, ssrf);
        assert!(matches!(r, Err(WebhookUrlError::UnsupportedScheme(_))), "url: {url}");
    }
}

#[test]
fn validate_webhook_url_rejects_invalid_url() {
    assert!(validate_webhook_url("not a url", true).is_err());
    assert!(validate_webhook_url("", true).is_err());
}

#[test]
fn validate_webhook_url_rejects_private_ips_with_ssrf_on() {
    for url in [
        "http://127.0.0.1/hook",
        "http://10.0.0.1/hook",
        "http://172.16.0.1/hook",
        "http://192.168.1.1/hook",
        "http://169.254.1.1/hook",
        "http://0.0.0.0/hook",
        "http://100.64.0.1/hook",
        "http://localhost/hook",
        "http://metadata.google.internal/v1/metadata",
    ] {
        assert!(is_blocked(&validate_webhook_url(url, true)), "url: {url}");
    }
}

#[test]
fn validate_webhook_url_rejects_ipv6_loopback_with_ssrf_on() {
    assert!(is_blocked(&validate_webhook_url("http://[::1]/hook", true)));
}

#[test]
fn validate_webhook_url_accepts_private_ips_with_ssrf_off() {
    assert!(validate_webhook_url("http://127.0.0.1/hook", false).is_ok());
    assert!(validate_webhook_url("http://10.0.0.1/hook", false).is_ok());
    assert!(validate_webhook_url("http://192.168.1.1/hook", false).is_ok());
    assert!(validate_webhook_url("http://172.16.0.1/hook", false).is_ok());
    assert!(validate_webhook_url("http://localhost/hook", false).is_ok());
    assert!(validate_webhook_url("http://[::1]/hook", false).is_ok());
}

#[test]
fn validate_webhook_url_rejects_url_without_host() {
    let r = validate_webhook_url("http://", true);
    assert!(matches!(
        r,
        Err(WebhookUrlError::InvalidUrl(_)) | Err(WebhookUrlError::MissingHost)
    ));
    assert!(matches!(
        validate_webhook_url("http", true),
        Err(WebhookUrlError::InvalidUrl(_))
    ));
}

#[test]
fn host_names_are_resolved_with_default_ports() {
    match validate_webhook_url("https://example.com/hook", true) {
        Ok(WebhookUrlCheck::Resolve { host, port }) => {
            assert_eq!(host, "example.com");
            assert_eq!(port, 443);
        }
        other => panic!("unexpected {other:?}"),
    }
    match validate_webhook_url("http://example.com:8080/hook", true) {
        Ok(WebhookUrlCheck::Resolve { port, .. }) => assert_eq!(port, 8080),
        other => panic!("unexpected {other:?}"),
    }
    assert!(matches!(
        validate_webhook_url("http://8.8.8.8/hook", true),
        Ok(WebhookUrlCheck::Accept)
    ));
}

#[test]
fn resolved_private_address_is_refused() {
    let addrs = vec![IpAddress::V4([93, 184, 216, 34]), IpAddress::V4([127, 0, 0, 1])];
    assert!(matches!(
        check_resolved_addresses("rebind.example", &addrs),
        Err(WebhookUrlError::ResolvesToBlockedIp(_, IpAddress::V4([127, 0, 0, 1])))
    ));
    assert!(check_resolved_addresses("ok.example", &vec![IpAddress::V4([8, 8, 8, 8])]).is_ok());
}
