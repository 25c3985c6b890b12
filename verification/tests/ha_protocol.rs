use artnet_to_hass::ha_client::{
    auth_invalid_message, build_turn_off, build_turn_on, message_id, on_result_frame, Frame,
    Handshake, HandshakeError, HandshakePhase, HandshakeStep, IdCounter, WaitError, WaitStep,
};
use artnet_to_hass::json::Json;
use artnet_to_hass::reconnect::{is_fatal_auth, mentions_auth_invalid};

#[test]
fn messages_carry_their_id() {
    let lights = vec!["light.a".to_string()];
    assert_eq!(message_id(&build_turn_on(42, &lights, (1, 2, 3))), Some(42));
    assert_eq!(message_id(&build_turn_off(43, &lights)), Some(43));
    assert_eq!(message_id(&Json::parse("{\"type\":\"x\"}").unwrap()), None);
    assert_eq!(message_id(&Json::parse("{\"id\":-1}").unwrap()), None);
}

#[test]
fn ids_increment_from_one() {
    let mut c = IdCounter::new();
    assert_eq!(c.next_id(), 1);
    assert_eq!(c.next_id(), 2);
    assert_eq!(c.next_id(), 3);
}

#[test]
fn handshake_sends_token_then_authenticates() {
    let mut h = Handshake::new("valid-token");
    assert_eq!(h.phase(), HandshakePhase::AwaitingAuthRequired);
    match h.on_text("{\"type\":\"auth_required\",\"ha_version\":\"test\"}") {
        HandshakeStep::Send(t) => {
            let v: serde_json::Value = serde_json::from_str(&t).unwrap();
            assert_eq!(v["type"], "auth");
            assert_eq!(v["access_token"], "valid-token");
        }
        _ => panic!("expected the auth message"),
    }
    assert_eq!(h.phase(), HandshakePhase::AwaitingAuthResult);
    assert!(matches!(h.on_text("{\"type\":\"auth_ok\",\"ha_version\":\"test\"}"), HandshakeStep::Authenticated));
    assert_eq!(h.phase(), HandshakePhase::Finished);
}

#[test]
fn handshake_reports_invalid_token() {
    let mut h = Handshake::new("bad-token");
    assert!(matches!(h.on_text("{\"type\":\"auth_required\"}"), HandshakeStep::Send(_)));
    match h.on_text("{\"type\":\"auth_invalid\",\"message\":\"bad token\"}") {
        HandshakeStep::Failed(HandshakeError::AuthInvalid(m)) => {
            assert_eq!(m, "bad token");
            let text = auth_invalid_message(&m);
            assert_eq!(text, "auth_invalid: bad token");
            assert!(mentions_auth_invalid(&text));
            let err = HandshakeError::AuthInvalid(m).into_error();
            assert_eq!(err.to_string(), "auth_invalid: bad token");
            assert!(is_fatal_auth(&err));
        }
        _ => panic!("expected auth_invalid"),
    }
}

#[test]
fn handshake_rejects_unexpected_greeting_and_reply() {
    let mut h = Handshake::new("t");
    match h.on_text("{\"type\":\"hello\"}") {
        HandshakeStep::Failed(HandshakeError::ExpectedAuthRequired(t)) => {
            assert_eq!(t, "{\"type\":\"hello\"}")
        }
        _ => panic!("expected failure"),
    }
    assert!(matches!(h.on_text("{}"), HandshakeStep::Failed(HandshakeError::AlreadyFinished)));

    let mut h = Handshake::new("t");
    assert!(matches!(h.on_text("not json"), HandshakeStep::Failed(HandshakeError::RequiredNotJson)));

    let mut h = Handshake::new("t");
    h.on_text("{\"type\":\"auth_required\"}");
    match h.on_text("{\"type\":7}") {
        HandshakeStep::Failed(HandshakeError::UnexpectedAuthResponse(ty, t)) => {
            assert_eq!(ty, None);
            assert_eq!(t, "{\"type\":7}");
        }
        _ => panic!("expected failure"),
    }

    let mut h = Handshake::new("t");
    h.on_text("{\"type\":\"auth_required\"}");
    assert!(matches!(h.on_text("{"), HandshakeStep::Failed(HandshakeError::ResultNotJson)));

    let mut h = Handshake::new("t");
    h.on_text("{\"type\":\"auth_required\"}");
    match h.on_text("{\"type\":\"auth_invalid\"}") {
        HandshakeStep::Failed(HandshakeError::AuthInvalid(m)) => assert_eq!(m, ""),
        _ => panic!("expected auth_invalid"),
    }
}

#[test]
fn result_wait_matches_id_and_type() {
    let id = 5;
    let text = |s: &str| Frame::Text(s.to_string());
    assert_eq!(
        on_result_frame(id, &text("{\"id\":5,\"type\":\"result\",\"success\":true,\"result\":null}")),
        WaitStep::Finished(true)
    );
    assert_eq!(
        on_result_frame(id, &text("{\"id\":5,\"type\":\"result\",\"success\":false,\"error\":{\"code\":\"not_found\",\"message\":\"entity not found\"}}")),
        WaitStep::Finished(false)
    );
    assert_eq!(on_result_frame(id, &text("{\"id\":5,\"type\":\"result\"}")), WaitStep::Finished(false));
    assert_eq!(on_result_frame(id, &text("{\"id\":6,\"type\":\"result\",\"success\":true}")), WaitStep::KeepWaiting);
    assert_eq!(on_result_frame(id, &text("{\"id\":5,\"type\":\"event\"}")), WaitStep::KeepWaiting);
    assert_eq!(on_result_frame(id, &text("[1,2]")), WaitStep::KeepWaiting);
    assert_eq!(on_result_frame(id, &text("nope")), WaitStep::Failed(WaitError::NotJson));
    assert_eq!(on_result_frame(id, &Frame::Close), WaitStep::Failed(WaitError::Closed));
    for f in [Frame::Ping, Frame::Pong, Frame::Binary, Frame::Raw] {
        assert_eq!(on_result_frame(id, &f), WaitStep::KeepWaiting);
    }
}

#[test]
fn json_reads_members() {
    let v = Json::parse("{\"a\":\"x\",\"n\":18446744073709551615,\"b\":true,\"f\":1.5}").unwrap();
    assert_eq!(v.get_str("a"), Some("x".to_string()));
    assert_eq!(v.get_str("n"), None);
    assert_eq!(v.get_u64("n"), Some(u64::MAX));
    assert_eq!(v.get_u64("f"), None);
    assert_eq!(v.get_bool("b"), Some(true));
    assert_eq!(v.get_bool("missing"), None);
    assert!(Json::parse("{").is_err());
}

#[test]
fn handshake_error_messages() {
    assert_eq!(HandshakeError::RequiredNotJson.message(), "auth_required not JSON");
    assert_eq!(
        HandshakeError::ExpectedAuthRequired("{\"type\":\"hello\"}".into()).message(),
        "expected auth_required, got {\"type\":\"hello\"}"
    );
    assert_eq!(HandshakeError::ResultNotJson.message(), "auth result not JSON");
    assert_eq!(
        HandshakeError::UnexpectedAuthResponse(Some("weird\"x".into()), "{}".into()).message(),
        format!("unexpected auth response: {:?} \u{2014} {{}}", Some("weird\"x"))
    );
    assert_eq!(
        HandshakeError::UnexpectedAuthResponse(None, "{\"type\":7}".into()).message(),
        "unexpected auth response: None \u{2014} {\"type\":7}"
    );
    assert_eq!(HandshakeError::AlreadyFinished.message(), "auth handshake already finished");
    let e = HandshakeError::ExpectedAuthRequired("{\"type\":\"auth_invalid\"}".into()).into_error();
    assert!(is_fatal_auth(&e));
    let e = HandshakeError::ResultNotJson.into_error();
    assert!(!is_fatal_auth(&e));
}

#[test]
fn wait_error_messages() {
    assert_eq!(WaitError::Closed.message(), "WS closed (close frame)");
    assert_eq!(WaitError::NotJson.message(), "result not JSON");
}

#[test]
fn skipped_frames_do_not_change_the_outcome() {
    let id = 3;
    let frames = |extra: bool| {
        let mut v = vec![Frame::Ping];
        if extra {
            v.push(Frame::Text("{\"id\":4,\"type\":\"result\",\"success\":false}".into()));
            v.push(Frame::Binary);
        }
        v.push(Frame::Text("{\"id\":3,\"type\":\"result\",\"success\":true}".into()));
        v
    };
    let first = |fs: Vec<Frame>| fs.iter().map(|f| on_result_frame(id, f)).find(|s| *s != WaitStep::KeepWaiting);
    assert_eq!(first(frames(false)), Some(WaitStep::Finished(true)));
    assert_eq!(first(frames(true)), Some(WaitStep::Finished(true)));
}
