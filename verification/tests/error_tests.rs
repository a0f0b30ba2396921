use matrix_bridge::error::{is_retryable, BridgeError};

#[test]
fn error_messages() {
    assert_eq!(BridgeError::Matrix("boom".to_string()).message(), "matrix error: boom");
    assert_eq!(
        BridgeError::Platform { platform: "tg".to_string(), message: "down".to_string() }.message(),
        "platform error: tg: down"
    );
    assert_eq!(BridgeError::Validation("bad".to_string()).public_message(), "bad");
    assert_eq!(BridgeError::NotFound("room".to_string()).public_message(), "room");
    assert_eq!(BridgeError::Store("x".to_string()).public_message(), "internal error");
}

#[test]
fn transient_errors_are_retried() {
    assert!(is_retryable("request timed out"));
    assert!(is_retryable("error sending request: connection refused"));
    assert!(is_retryable("server returned (503) Service Unavailable"));
    assert!(is_retryable("dns error: no record"));
    assert!(!is_retryable("M_FORBIDDEN (403)"));
    assert!(!is_retryable(""));
}
