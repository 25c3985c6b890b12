//! The decisions of the bridge loop: change-detect, black handling and rate cap.
//!
//! The loop that drives these decisions waits for the latest RGB value, performs
//! the commanded Home Assistant call, and pauses; those steps are outside work.
//! [`Bridge`] decides, from each event it is handed, what the loop does next.
use vstd::prelude::*;

verus! {

/// What the bridge loop does next.
#[derive(Clone, Copy, Debug, PartialEq, Eq, Structural)]
pub enum Command {
    /// Nothing to send: wait for the next change of the RGB value.
    Wait,
    /// Call `light.turn_on` with this colour.
    TurnOn(u8, u8, u8),
    /// Call `light.turn_off`.
    TurnOff,
    /// Sleep this many milliseconds, then wait for the next change.
    Pause(u64),
}

/// Where the bridge loop stands.
#[derive(Clone, Copy, Debug, PartialEq, Eq, Structural)]
pub enum BridgePhase {
    /// Waiting for the next change of the RGB value.
    Idle,
    /// A call for this colour is in flight.
    Sending(u8, u8, u8),
    /// A call finished; the loop pauses before it sends again.
    Pausing,
}

/// The abstract state of a [`Bridge`].
pub struct BridgeView {
    /// The last colour that Home Assistant accepted.
    pub last_sent: Option<(u8, u8, u8)>,
    /// Where the loop stands.
    pub phase: BridgePhase,
    /// The pause after every call, in milliseconds.
    pub min_send_interval_ms: u64,
}

/// The command for a new latest value: nothing when there is no value yet or it
/// equals the last colour sent; `TurnOff` for black; `TurnOn` otherwise.
pub open spec fn command_for(last_sent: Option<(u8, u8, u8)>, latest: Option<(u8, u8, u8)>) -> Command {
    match latest {
        None => Command::Wait,
        Some(rgb) => if Some(rgb) == last_sent {
            Command::Wait
        } else if rgb == (0u8, 0u8, 0u8) {
            Command::TurnOff
        } else {
            Command::TurnOn(rgb.0, rgb.1, rgb.2)
        },
    }
}

/// The last colour sent after a call for `sent` finished: the colour when the
/// call succeeded, the previous value when it failed.
pub open spec fn last_sent_after(
    last_sent: Option<(u8, u8, u8)>,
    sent: (u8, u8, u8),
    succeeded: bool,
) -> Option<(u8, u8, u8)> {
    if succeeded {
        Some(sent)
    } else {
        last_sent
    }
}

/// Whether a command asks for a Home Assistant call.
pub open spec fn is_send(c: Command) -> bool {
    c is TurnOn || c is TurnOff
}

/// The colour that a send command carries (black for `TurnOff`).
pub open spec fn sent_colour(c: Command) -> (u8, u8, u8) {
    match c {
        Command::TurnOn(r, g, b) => (r, g, b),
        _ => (0u8, 0u8, 0u8),
    }
}

/// The decision state of the bridge loop.
pub struct Bridge {
    last_sent: Option<(u8, u8, u8)>,
    phase: BridgePhase,
    min_send_interval_ms: u64,
}

impl View for Bridge {
    type V = BridgeView;

    closed spec fn view(&self) -> BridgeView {
        BridgeView {
            last_sent: self.last_sent,
            phase: self.phase,
            min_send_interval_ms: self.min_send_interval_ms,
        }
    }
}

fn same_rgb(a: (u8, u8, u8), b: Option<(u8, u8, u8)>) -> (r: bool)
    ensures
        r == (Some(a) == b),
{
    match b {
        Some(b) => a.0 == b.0 && a.1 == b.1 && a.2 == b.2,
        None => false,
    }
}

/// The phase after a command issued while idle: sending its colour for a
/// send command, still idle otherwise.
pub open spec fn phase_after(c: Command) -> BridgePhase {
    if is_send(c) {
        BridgePhase::Sending(sent_colour(c).0, sent_colour(c).1, sent_colour(c).2)
    } else {
        BridgePhase::Idle
    }
}

impl Bridge {
    /// A bridge that has sent nothing yet and pauses `min_send_interval_ms`
    /// after every call.
    pub fn new(min_send_interval_ms: u64) -> (b: Bridge)
        ensures
            b@.last_sent is None,
            b@.phase == BridgePhase::Idle,
            b@.min_send_interval_ms == min_send_interval_ms,
    {
        Bridge { last_sent: None, phase: BridgePhase::Idle, min_send_interval_ms }
    }

    /// The last colour that Home Assistant accepted.
    pub fn last_sent(&self) -> (r: Option<(u8, u8, u8)>)
        ensures
            r == self@.last_sent,
    {
        self.last_sent
    }

    /// Where the loop stands.
    pub fn phase(&self) -> (r: BridgePhase)
        ensures
            r == self@.phase,
    {
        self.phase
    }

    /// The pause after every call, in milliseconds.
    pub fn min_send_interval_ms(&self) -> (r: u64)
        ensures
            r == self@.min_send_interval_ms,
    {
        self.min_send_interval_ms
    }

    /// The watched value changed to `latest`: decide whether to call Home
    /// Assistant. While idle, a value equal to the last colour sent is
    /// skipped, black turns the lights off, and any other colour turns them on
    /// with that colour; a send command puts its colour in flight. While a call
    /// is in flight or the loop pauses, nothing is sent.
    pub fn on_change(&mut self, latest: Option<(u8, u8, u8)>) -> (c: Command)
        ensures
            final(self)@.last_sent == old(self)@.last_sent,
            final(self)@.min_send_interval_ms == old(self)@.min_send_interval_ms,
            old(self)@.phase == BridgePhase::Idle ==> c == command_for(old(self)@.last_sent, latest)
                && final(self)@.phase == phase_after(c),
            old(self)@.phase != BridgePhase::Idle ==> c == Command::Wait && final(self)@.phase == old(
                self,
            )@.phase,
            c matches Command::TurnOn(r, g, b) ==> latest == Some((r, g, b))
                && final(self)@.phase == BridgePhase::Sending(r, g, b),
            c is TurnOff ==> latest == Some((0u8, 0u8, 0u8)) && final(self)@.phase
                == BridgePhase::Sending(0, 0, 0),
            c is Wait ==> final(self)@.phase == old(self)@.phase,
            !(c is Pause),
    {
        if self.phase != BridgePhase::Idle {
            return Command::Wait;
        }
        match latest {
            None => Command::Wait,
            Some(rgb) => {
                if same_rgb(rgb, self.last_sent) {
                    Command::Wait
                } else if rgb.0 == 0 && rgb.1 == 0 && rgb.2 == 0 {
                    self.phase = BridgePhase::Sending(0, 0, 0);
                    Command::TurnOff
                } else {
                    self.phase = BridgePhase::Sending(rgb.0, rgb.1, rgb.2);
                    Command::TurnOn(rgb.0, rgb.1, rgb.2)
                }
            },
        }
    }

    /// The call in flight finished. On success its colour becomes the last
    /// colour sent; on failure the last colour sent stays as it was, so the same
    /// colour is tried again on the next change. Either way the loop pauses for
    /// the minimum send interval (the rate cap) and sends nothing until
    /// [`Bridge::on_pause_over`]. With no call in flight nothing changes.
    pub fn on_send_finished(&mut self, succeeded: bool) -> (c: Command)
        ensures
            final(self)@.min_send_interval_ms == old(self)@.min_send_interval_ms,
            old(self)@.phase matches BridgePhase::Sending(r, g, b) ==> {
                &&& c == Command::Pause(old(self)@.min_send_interval_ms)
                &&& final(self)@.phase == BridgePhase::Pausing
                &&& final(self)@.last_sent == last_sent_after(old(self)@.last_sent, (r, g, b), succeeded)
                &&& succeeded ==> final(self)@.last_sent == Some((r, g, b))
                &&& !succeeded ==> final(self)@.last_sent == old(self)@.last_sent
            },
            !(old(self)@.phase is Sending) ==> c == Command::Wait && final(self)@ == old(self)@,
    {
        match self.phase {
            BridgePhase::Sending(r, g, b) => {
                if succeeded {
                    self.last_sent = Some((r, g, b));
                }
                self.phase = BridgePhase::Pausing;
                Command::Pause(self.min_send_interval_ms)
            },
            _ => Command::Wait,
        }
    }

    /// The pause after a call is over: the loop is idle again. In any other
    /// phase nothing changes.
    pub fn on_pause_over(&mut self)
        ensures
            final(self)@.last_sent == old(self)@.last_sent,
            final(self)@.min_send_interval_ms == old(self)@.min_send_interval_ms,
            old(self)@.phase == BridgePhase::Pausing ==> final(self)@.phase == BridgePhase::Idle,
            old(self)@.phase != BridgePhase::Pausing ==> final(self)@.phase == old(self)@.phase,
    {
        if self.phase == BridgePhase::Pausing {
            self.phase = BridgePhase::Idle;
        }
    }
}

/// Change-detect: a send command only ever carries the latest value, and never a
/// value equal to the last colour that Home Assistant accepted.
pub proof fn lemma_send_carries_new_latest_value(
    last_sent: Option<(u8, u8, u8)>,
    latest: Option<(u8, u8, u8)>,
)
    ensures
        is_send(command_for(last_sent, latest)) ==> {
            &&& latest == Some(sent_colour(command_for(last_sent, latest)))
            &&& last_sent != latest
        },
{
}

/// Black handling: black turns the lights off, any other colour turns them on
/// with that colour, unless the value equals the last colour sent.
pub proof fn lemma_black_turns_off_colour_turns_on(
    last_sent: Option<(u8, u8, u8)>,
    rgb: (u8, u8, u8),
)
    requires
        last_sent != Some(rgb),
    ensures
        rgb == (0u8, 0u8, 0u8) ==> command_for(last_sent, Some(rgb)) == Command::TurnOff,
        rgb != (0u8, 0u8, 0u8) ==> command_for(last_sent, Some(rgb)) == Command::TurnOn(
            rgb.0,
            rgb.1,
            rgb.2,
        ),
{
}

/// Only an accepted call changes the last colour sent: after a successful
/// call it is the colour of that call, after a failed call it is what it was.
pub proof fn lemma_only_accepted_calls_count(last_sent: Option<(u8, u8, u8)>, rgb: (u8, u8, u8))
    ensures
        last_sent_after(last_sent, rgb, true) == Some(rgb),
        last_sent_after(last_sent, rgb, false) == last_sent,
{
}

/// A failed call changes no later decision: whatever value comes next, the
/// bridge decides as if the failed call had not been made. In particular,
/// black after an accepted colour still turns the lights off.
pub proof fn lemma_failed_call_changes_no_decision(
    last_sent: Option<(u8, u8, u8)>,
    rgb: (u8, u8, u8),
    latest: Option<(u8, u8, u8)>,
)
    ensures
        command_for(last_sent_after(last_sent, rgb, false), latest) == command_for(last_sent, latest),
        last_sent is Some && last_sent != Some((0u8, 0u8, 0u8)) ==> command_for(
            last_sent_after(last_sent, rgb, false),
            Some((0u8, 0u8, 0u8)),
        ) == Command::TurnOff,
{
}

/// A failed call does not count as sent: the same value, seen again, is sent again.
pub proof fn lemma_failed_send_is_retried(last_sent: Option<(u8, u8, u8)>, rgb: (u8, u8, u8))
    requires
        is_send(command_for(last_sent, Some(rgb))),
    ensures
        command_for(last_sent_after(last_sent, rgb, false), Some(rgb)) == command_for(
            last_sent,
            Some(rgb),
        ),
{
}

/// Duplicates are skipped: once a colour was sent successfully, the same value
/// seen again sends nothing.
pub proof fn lemma_sent_value_is_not_repeated(last_sent: Option<(u8, u8, u8)>, rgb: (u8, u8, u8))
    ensures
        command_for(last_sent_after(last_sent, rgb, true), Some(rgb)) == Command::Wait,
{
}

/// No value yet: an empty watch never causes a call.
pub proof fn lemma_no_value_no_call(last_sent: Option<(u8, u8, u8)>)
    ensures
        command_for(last_sent, None) == Command::Wait,
{
}

/// One cycle of the loop: after a value `rgb` is seen and the resulting call (if
/// any) finishes, seeing the same value again sends again exactly when the
/// first sight made a call and that call failed.
pub proof fn lemma_bridge_cycle(last_sent: Option<(u8, u8, u8)>, rgb: (u8, u8, u8), succeeded: bool)
    ensures
        ({
            let c1 = command_for(last_sent, Some(rgb));
            let after = if is_send(c1) {
                last_sent_after(last_sent, sent_colour(c1), succeeded)
            } else {
                last_sent
            };
            is_send(command_for(after, Some(rgb))) <==> (is_send(c1) && !succeeded)
        }),
{
}

} // verus!
