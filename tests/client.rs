use fastlane::{
    extract_signature, is_confirmed, signature_failure, ConfirmLoop, ConfirmationStatus, DeliveryResult,
    LeaderDeliveryResult, SendResult, SignatureError, SignatureStatus, TpuClientConfig, TpuClientStats,
    TpuErrorCode,
};

#[test]
fn signature_extraction() {
    let mut tx = vec![0x01u8];
    let sig: Vec<u8> = (0..64u8).collect();
    tx.extend_from_slice(&sig);
    tx.extend_from_slice(&[7, 7, 7]);
    assert_eq!(extract_signature(&tx).unwrap(), sig);
}

#[test]
fn signature_extraction_exact_length() {
    let mut tx = vec![0x02u8];
    tx.extend(std::iter::repeat(9u8).take(64));
    assert_eq!(extract_signature(&tx).unwrap(), vec![9u8; 64]);
}

#[test]
fn signature_extraction_errors() {
    let mut tx = vec![0x00u8];
    tx.extend(std::iter::repeat(1u8).take(80));
    let e = extract_signature(&tx).unwrap_err();
    assert_eq!(e, SignatureError::NoSignatures);
    assert_eq!(e.message(), "Transaction has no signatures");

    let mut tx = vec![0x01u8];
    tx.extend(std::iter::repeat(1u8).take(29));
    assert_eq!(tx.len(), 30);
    let e = extract_signature(&tx).unwrap_err();
    assert_eq!(e, SignatureError::TooShort);
    assert_eq!(e.message(), "Transaction too short to contain signature");

    let e = extract_signature(&[]).unwrap_err();
    assert_eq!(e, SignatureError::Empty);
    assert_eq!(e.message(), "Empty transaction data");
}

#[test]
fn signature_failure_result() {
    let r = signature_failure(SignatureError::TooShort, 3);
    assert!(!r.confirmed);
    assert_eq!(r.rounds, 0);
    assert_eq!(r.signature, "");
    assert_eq!(r.error.as_deref(), Some("Failed to extract signature: Transaction too short to contain signature"));
}

/// Runs the loop against a simulated clock: each send reaches one leader,
/// and the status oracle confirms on poll `confirm_on` (never if zero).
fn run_loop(timeout_ms: u64, confirm_on: u32) -> fastlane::SendUntilConfirmedResult {
    let mut state = ConfirmLoop::new("sig".to_string(), timeout_ms);
    let mut elapsed: u64 = 0;
    let mut polls: u32 = 0;
    while state.should_continue(elapsed) {
        state.begin_round(1000 + elapsed / 400);
        state.record_send(Some(1));
        polls += 1;
        if polls == confirm_on {
            return state.confirmed(elapsed);
        }
        elapsed += state.pause_ms(elapsed);
    }
    polls += 1;
    state.finish(polls == confirm_on, elapsed)
}

#[test]
fn confirm_loop_success_on_third_poll() {
    let r = run_loop(30_000, 3);
    assert!(r.confirmed);
    assert_eq!(r.rounds, 3);
    assert_eq!(r.total_leaders_sent, 3);
    assert_eq!(r.signature, "sig");
    assert_eq!(r.error, None);
}

#[test]
fn confirm_loop_timeout() {
    let r = run_loop(1000, 0);
    assert!(!r.confirmed);
    assert!(r.rounds >= 2 && r.rounds <= 3);
    assert_eq!(r.rounds, 3);
    assert_eq!(r.latency_ms, 1000);
    assert_eq!(r.error.as_deref(), Some("Transaction not confirmed within 1000ms (3 rounds, 3 leaders sent)"));
}

#[test]
fn confirm_loop_confirmed_at_final_check() {
    let r = run_loop(1000, 4);
    assert!(r.confirmed);
    assert_eq!(r.rounds, 3);
    assert_eq!(r.error, None);
}

#[test]
fn pause_never_passes_deadline() {
    let state = ConfirmLoop::new("s".to_string(), 1000);
    assert_eq!(state.pause_ms(0), 400);
    assert_eq!(state.pause_ms(800), 200);
    assert_eq!(state.pause_ms(1000), 0);
    assert_eq!(state.pause_ms(5000), 0);
}

#[test]
fn stale_slot_asks_for_refresh() {
    let mut state = ConfirmLoop::new("s".to_string(), 1000);
    assert!(!state.begin_round(5));
    assert!(!state.begin_round(5));
    assert!(state.begin_round(5));
    assert!(state.begin_round(5));
    assert!(!state.begin_round(6));
    assert!(!state.begin_round(0));
    assert!(!state.begin_round(0));
    assert!(!state.begin_round(0));
}

#[test]
fn failed_sends_count_no_leaders() {
    let mut state = ConfirmLoop::new("s".to_string(), 1000);
    state.begin_round(1);
    state.record_send(None);
    state.record_send(Some(2));
    let r = state.finish(false, 10);
    assert_eq!(r.total_leaders_sent, 2);
    assert_eq!(r.rounds, 1);
}

#[test]
fn confirmation_status_rules() {
    assert!(!is_confirmed(&None));
    let status = |c, n, e| Some(SignatureStatus { confirmation_status: c, confirmations: n, has_error: e });
    assert!(is_confirmed(&status(Some(ConfirmationStatus::Confirmed), None, false)));
    assert!(is_confirmed(&status(Some(ConfirmationStatus::Finalized), None, true)));
    assert!(!is_confirmed(&status(Some(ConfirmationStatus::Processed), Some(1), false)));
    assert!(is_confirmed(&status(None, Some(3), true)));
    assert!(is_confirmed(&status(None, None, false)));
    assert!(!is_confirmed(&status(None, None, true)));
}

#[test]
fn send_result_conversion() {
    let leaders = vec![
        LeaderDeliveryResult {
            identity: "A".to_string(),
            address: "x".to_string(),
            success: false,
            latency_ms: u64::MAX,
            error: Some("Timeout after 1s".to_string()),
            error_code: Some(TpuErrorCode::Timeout),
            attempts: 3,
        },
        LeaderDeliveryResult {
            identity: "B".to_string(),
            address: "y".to_string(),
            success: true,
            latency_ms: 7,
            error: None,
            error_code: None,
            attempts: 1,
        },
    ];
    let d = DeliveryResult { delivered: true, latency_ms: 9, leader_count: 1, leaders, total_retries: 2 };
    let r = SendResult::from_delivery(d);
    assert!(r.delivered);
    assert_eq!(r.latency_ms, 9);
    assert_eq!(r.leader_count, 1);
    assert_eq!(r.retry_count, 2);
    assert_eq!(r.leaders.len(), 2);
    assert_eq!(r.leaders[0].error_code.as_deref(), Some("TIMEOUT"));
    assert_eq!(r.leaders[0].latency_ms, u32::MAX);
    assert_eq!(r.leaders[0].attempts, 3);
    assert_eq!(r.leaders[1].identity, "B");
    assert_eq!(r.leaders[1].error_code, None);
}

#[test]
fn config_defaults() {
    let config = TpuClientConfig {
        rpc_url: "r".to_string(),
        ws_url: "w".to_string(),
        grpc_url: None,
        grpc_x_token: None,
        fanout: None,
        prewarm_connections: None,
    };
    assert_eq!(config.fanout_or_default(), 4);
    assert!(config.prewarm_enabled());
    assert_eq!(config.prewarm_lookahead(), 16);
    let config = TpuClientConfig { fanout: Some(2), prewarm_connections: Some(false), ..config };
    assert_eq!(config.prewarm_lookahead(), 8);
    assert!(!config.prewarm_enabled());
}

#[test]
fn stats_ready_state() {
    let s = TpuClientStats::new(3, 250_000_000, 5, true, 12, 1500);
    assert_eq!(s.ready_state, "ready");
    assert_eq!(s.current_slot, 250_000_000);
    assert_eq!(TpuClientStats::new(0, 0, 5, false, 0, 0).ready_state, "initializing");
}
