use artnet_to_hass::bridge::{Bridge, BridgePhase, Command};

#[test]
fn bridge_sends_turn_on_for_nonzero_rgb() {
    let mut b = Bridge::new(10);
    assert_eq!(b.on_change(Some((1, 2, 3))), Command::TurnOn(1, 2, 3));
    assert_eq!(b.on_send_finished(true), Command::Pause(10));
    assert_eq!(b.last_sent(), Some((1, 2, 3)));
}

#[test]
fn bridge_sends_turn_off_for_zero_rgb() {
    let mut b = Bridge::new(10);
    assert_eq!(b.on_change(Some((0, 0, 0))), Command::TurnOff);
    assert_eq!(b.on_send_finished(true), Command::Pause(10));
    assert_eq!(b.last_sent(), Some((0, 0, 0)));
}

#[test]
fn bridge_change_detect_skips_duplicates() {
    let mut b = Bridge::new(10);
    assert_eq!(b.on_change(Some((5, 5, 5))), Command::TurnOn(5, 5, 5));
    b.on_send_finished(true);
    b.on_pause_over();
    for _ in 0..3 {
        assert_eq!(b.on_change(Some((5, 5, 5))), Command::Wait);
    }
}

#[test]
fn bridge_pauses_min_interval_after_every_call() {
    let mut b = Bridge::new(100);
    assert_eq!(b.min_send_interval_ms(), 100);
    for v in 1..=3u8 {
        assert_eq!(b.on_change(Some((v, 0, 0))), Command::TurnOn(v, 0, 0));
        assert_eq!(b.on_send_finished(v != 2), Command::Pause(100));
        // Nothing is sent until the pause is over.
        assert_eq!(b.on_change(Some((v, 9, 9))), Command::Wait);
        assert_eq!(b.phase(), BridgePhase::Pausing);
        b.on_pause_over();
        assert_eq!(b.phase(), BridgePhase::Idle);
    }
}

#[test]
fn bridge_does_not_update_last_sent_on_failure() {
    let mut b = Bridge::new(10);
    assert_eq!(b.on_change(Some((7, 7, 7))), Command::TurnOn(7, 7, 7));
    b.on_send_finished(false);
    b.on_pause_over();
    assert_eq!(b.last_sent(), None);
    assert_eq!(b.on_change(Some((7, 7, 7))), Command::TurnOn(7, 7, 7));
}

#[test]
fn bridge_waits_while_no_value() {
    let mut b = Bridge::new(10);
    assert_eq!(b.on_change(None), Command::Wait);
    assert_eq!(b.last_sent(), None);
}

#[test]
fn bridge_black_after_colour_turns_off() {
    let mut b = Bridge::new(10);
    b.on_change(Some((9, 9, 9)));
    b.on_send_finished(true);
    b.on_pause_over();
    assert_eq!(b.on_change(Some((0, 0, 0))), Command::TurnOff);
}

#[test]
fn bridge_sends_nothing_while_a_call_is_in_flight() {
    let mut b = Bridge::new(10);
    assert_eq!(b.on_change(Some((1, 1, 1))), Command::TurnOn(1, 1, 1));
    assert_eq!(b.phase(), BridgePhase::Sending(1, 1, 1));
    assert_eq!(b.on_change(Some((2, 2, 2))), Command::Wait);
    assert_eq!(b.phase(), BridgePhase::Sending(1, 1, 1));
    assert_eq!(b.on_send_finished(true), Command::Pause(10));
    assert_eq!(b.last_sent(), Some((1, 1, 1)));
    assert_eq!(b.on_send_finished(true), Command::Wait);
}
