use artnet_to_hass::reconnect::{
    call_outcome, contains_str, error_with_message, is_fatal_auth, refused_message, Backoff,
    CallOutcome, ReconnectAction, Reconnector,
};

#[test]
fn backoff_doubles_up_to_thirty_seconds() {
    let mut b = Backoff::new();
    let delays: Vec<u64> = (0..8).map(|_| b.after_failure()).collect();
    assert_eq!(delays, vec![1, 2, 4, 8, 16, 30, 30, 30]);
    b.reset();
    assert_eq!(b.secs(), 1);
    assert_eq!(b.after_failure(), 1);
    assert_eq!(b.secs(), 2);
}

#[test]
fn call_outcomes() {
    assert_eq!(call_outcome(Some(true)), CallOutcome::Accepted);
    assert_eq!(call_outcome(Some(false)), CallOutcome::Refused);
    assert_eq!(call_outcome(None), CallOutcome::ConnectionLost);
}

#[test]
fn fatal_auth_is_recognised_by_message() {
    assert!(is_fatal_auth(&anyhow::Error::msg("auth_invalid: bad token")));
    assert!(!is_fatal_auth(&anyhow::Error::msg("connection refused")));
    assert!(!is_fatal_auth(&anyhow::Error::msg("auth_invali")));
}

#[test]
fn substring_search() {
    assert!(contains_str("abc", ""));
    assert!(contains_str("abc", "bc"));
    assert!(!contains_str("abc", "abcd"));
    assert!(!contains_str("", "a"));
    assert!(contains_str("xxauth_invalidyy", "auth_invalid"));
}

#[test]
fn reconnector_schedule_and_reset() {
    let mut r = Reconnector::new();
    let transient = error_with_message("connecting to ws://ha: connection refused".to_string());
    let delays: Vec<ReconnectAction> = (0..7).map(|_| r.on_connect_error(&transient)).collect();
    let expected: Vec<ReconnectAction> =
        [1, 2, 4, 8, 16, 30, 30].iter().map(|s| ReconnectAction::RetryAfter(*s)).collect();
    assert_eq!(delays, expected);
    assert_eq!(r.on_connected(), ReconnectAction::UseConnection);
    assert_eq!(r.delay_secs(), 1);
    assert_eq!(r.on_connect_error(&transient), ReconnectAction::RetryAfter(1));
}

#[test]
fn reconnector_exits_on_rejected_token() {
    let mut r = Reconnector::new();
    let fatal = error_with_message("auth_invalid: bad token".to_string());
    assert_eq!(r.on_connect_error(&fatal), ReconnectAction::Exit);
    assert_eq!(r.delay_secs(), 1);
}

#[test]
fn error_message_round_trip_and_refusal_text() {
    assert_eq!(error_with_message("x y".to_string()).to_string(), "x y");
    assert_eq!(refused_message("turn_on"), "HA returned success=false for turn_on");
}
