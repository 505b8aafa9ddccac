use fastlane::errors::classify_lowered_message;
use fastlane::{classify_error, classify_message, is_retryable_error, TpuErrorCode};

#[test]
fn test_error_code_strings() {
    assert_eq!(TpuErrorCode::ConnectionFailed.as_str(), "CONNECTION_FAILED");
    assert_eq!(TpuErrorCode::StreamClosed.as_str(), "STREAM_CLOSED");
    assert_eq!(TpuErrorCode::Timeout.as_str(), "TIMEOUT");
}

#[test]
fn test_retryable_errors() {
    assert!(TpuErrorCode::ConnectionFailed.is_retryable());
    assert!(TpuErrorCode::StreamClosed.is_retryable());
    assert!(TpuErrorCode::RateLimited.is_retryable());
    assert!(TpuErrorCode::Timeout.is_retryable());
    assert!(!TpuErrorCode::NoLeaders.is_retryable());
    assert!(!TpuErrorCode::ValidatorUnreachable.is_retryable());
    assert!(!TpuErrorCode::ZeroRttRejected.is_retryable());
}

#[test]
fn all_error_code_strings() {
    assert_eq!(TpuErrorCode::RateLimited.as_str(), "RATE_LIMITED");
    assert_eq!(TpuErrorCode::NoLeaders.as_str(), "NO_LEADERS");
    assert_eq!(TpuErrorCode::ValidatorUnreachable.as_str(), "VALIDATOR_UNREACHABLE");
    assert_eq!(TpuErrorCode::ZeroRttRejected.as_str(), "ZERO_RTT_REJECTED");
    assert_eq!(TpuErrorCode::Timeout.to_string(), "TIMEOUT");
}

#[test]
fn classify_each_kind() {
    assert_eq!(classify_message("connection refused"), TpuErrorCode::ConnectionFailed);
    assert_eq!(classify_message("connection reset by peer"), TpuErrorCode::ConnectionFailed);
    assert_eq!(classify_message("stream closed"), TpuErrorCode::StreamClosed);
    assert_eq!(classify_message("the stream was reset"), TpuErrorCode::StreamClosed);
    assert_eq!(classify_message("too many requests"), TpuErrorCode::RateLimited);
    assert_eq!(classify_message("queue full"), TpuErrorCode::RateLimited);
    assert_eq!(classify_message("channel full"), TpuErrorCode::RateLimited);
    assert_eq!(classify_message("timeout"), TpuErrorCode::Timeout);
    assert_eq!(classify_message("request timed out"), TpuErrorCode::Timeout);
    assert_eq!(classify_message("0-rtt rejected"), TpuErrorCode::ZeroRttRejected);
    assert_eq!(classify_message("early data refused"), TpuErrorCode::ZeroRttRejected);
    assert_eq!(classify_message("no leader known"), TpuErrorCode::NoLeaders);
    assert_eq!(classify_message("no schedule for slot"), TpuErrorCode::NoLeaders);
    assert_eq!(classify_message("something odd"), TpuErrorCode::ValidatorUnreachable);
    assert_eq!(classify_message(""), TpuErrorCode::ValidatorUnreachable);
}

#[test]
fn classify_ignores_case() {
    assert_eq!(classify_message("Connection REFUSED"), TpuErrorCode::ConnectionFailed);
    assert_eq!(classify_message("Stream Closed"), TpuErrorCode::StreamClosed);
    assert_eq!(classify_message("TIMED OUT"), TpuErrorCode::Timeout);
    assert_eq!(classify_message("0-RTT Rejected"), TpuErrorCode::ZeroRttRejected);
    // Already lower-case text is classified as is.
    assert_eq!(classify_lowered_message("TIMED OUT"), TpuErrorCode::ValidatorUnreachable);
}

#[test]
fn classify_precedence() {
    // Connection markers win over stream markers.
    assert_eq!(classify_message("stream closed: connection refused"), TpuErrorCode::ConnectionFailed);
    // Stream markers win over rate limits and timeouts.
    assert_eq!(classify_message("stream reset after timeout"), TpuErrorCode::StreamClosed);
    // A stream mentioned without closed or reset falls through.
    assert_eq!(classify_message("stream timeout"), TpuErrorCode::Timeout);
}

#[test]
fn classify_is_stable() {
    let first = classify_message("Too Many Requests");
    let second = classify_message("Too Many Requests");
    assert_eq!(first, second);
    assert_eq!(first, TpuErrorCode::RateLimited);
}

#[test]
fn classify_anyhow_errors() {
    let e = anyhow::Error::msg("Connection Reset");
    assert_eq!(classify_error(&e), TpuErrorCode::ConnectionFailed);
    assert!(is_retryable_error(&e));
    let e = anyhow::Error::msg("no leader available");
    assert_eq!(classify_error(&e), TpuErrorCode::NoLeaders);
    assert!(!is_retryable_error(&e));
    let e = anyhow::Error::msg("validator went away");
    assert_eq!(classify_error(&e), TpuErrorCode::ValidatorUnreachable);
}
