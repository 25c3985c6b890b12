//! Decisions of the long-lived Home Assistant client: the reconnect backoff,
//! what a finished service call means for the connection, and which connection
//! failures are fatal.
use vstd::prelude::*;
use vstd::arithmetic::power2::{lemma2_to64, lemma_pow2_strictly_increases, pow2};

verus! {

#[verifier::external_type_specification]
#[verifier::external_body]
pub struct ExAnyhowError(anyhow::Error);

/// First delay before reconnecting, in seconds.
pub const INITIAL_BACKOFF_SECS: u64 = 1;

/// Largest delay before reconnecting, in seconds.
pub const MAX_BACKOFF_SECS: u64 = 30;

/// The delay that follows a delay of `secs` after another failed attempt:
/// twice as long, at most 30 seconds.
pub open spec fn next_backoff(secs: u64) -> u64 {
    if 2 * secs > 30 {
        30
    } else {
        (2 * secs) as u64
    }
}

/// The delay after `failures` failed attempts in a row.
pub open spec fn backoff_after(failures: nat) -> u64
    decreases failures,
{
    if failures == 0 {
        1
    } else {
        next_backoff(backoff_after((failures - 1) as nat))
    }
}

/// The reconnect delay: 1 s at first and after every successful connection,
/// doubled after each failed attempt up to 30 s.
pub struct Backoff {
    secs: u64,
}

impl View for Backoff {
    type V = u64;

    closed spec fn view(&self) -> u64 {
        self.secs
    }
}

impl Backoff {
    #[verifier::type_invariant]
    closed spec fn within_bounds(self) -> bool {
        1 <= self.secs <= 30
    }

    /// The delay before the first retry: 1 second.
    pub fn new() -> (b: Backoff)
        ensures
            b@ == INITIAL_BACKOFF_SECS,
    {
        Backoff { secs: INITIAL_BACKOFF_SECS }
    }

    /// The current delay, in seconds; always within `1..=30`.
    pub fn secs(&self) -> (r: u64)
        ensures
            r == self@,
            1 <= r <= 30,
    {
        proof {
            use_type_invariant(self);
        }
        self.secs
    }

    /// A connection succeeded: the next failure waits 1 second again.
    pub fn reset(&mut self)
        ensures
            final(self)@ == INITIAL_BACKOFF_SECS,
    {
        self.secs = INITIAL_BACKOFF_SECS;
    }

    /// An attempt failed: the delay to wait now, after which the delay doubles
    /// (at most 30 seconds).
    pub fn after_failure(&mut self) -> (delay: u64)
        ensures
            delay == old(self)@,
            1 <= delay <= 30,
            final(self)@ == next_backoff(old(self)@),
    {
        proof {
            use_type_invariant(&*self);
        }
        let delay = self.secs;
        let doubled = self.secs * 2;
        self.secs = if doubled > MAX_BACKOFF_SECS {
            MAX_BACKOFF_SECS
        } else {
            doubled
        };
        delay
    }
}

/// The reconnect schedule: after 0, 1, 2, 3, 4 failed attempts in a row the
/// delay is 1, 2, 4, 8, 16 seconds; after 5 or more it is 30 seconds.
pub proof fn lemma_backoff_schedule(failures: nat)
    ensures
        failures == 0 ==> backoff_after(failures) == 1,
        failures == 1 ==> backoff_after(failures) == 2,
        failures == 2 ==> backoff_after(failures) == 4,
        failures == 3 ==> backoff_after(failures) == 8,
        failures == 4 ==> backoff_after(failures) == 16,
        failures >= 5 ==> backoff_after(failures) == 30,
    decreases failures,
{
    if failures > 0 {
        lemma_backoff_schedule((failures - 1) as nat);
    }
}

/// What a finished service call means for the client.
#[derive(Clone, Copy, Debug, PartialEq, Eq, Structural)]
pub enum CallOutcome {
    /// Home Assistant reported success.
    Accepted,
    /// Home Assistant reported `success: false`; the connection stays.
    Refused,
    /// The call failed on the connection; it is dropped and re-established.
    ConnectionLost,
}

/// The outcome of a call: `reply` is the reported success flag, or `None`
/// when the call failed on the connection.
pub open spec fn outcome_of(reply: Option<bool>) -> CallOutcome {
    match reply {
        Some(true) => CallOutcome::Accepted,
        Some(false) => CallOutcome::Refused,
        None => CallOutcome::ConnectionLost,
    }
}

/// The outcome of a call: `reply` is the reported success flag, or `None`
/// when the call failed on the connection.
pub fn call_outcome(reply: Option<bool>) -> (r: CallOutcome)
    ensures
        r == outcome_of(reply),
{
    match reply {
        Some(true) => CallOutcome::Accepted,
        Some(false) => CallOutcome::Refused,
        None => CallOutcome::ConnectionLost,
    }
}

/// The message for a call that Home Assistant refused: `HA returned
/// success=false for <service>`.
pub open spec fn refused_text(service: Seq<char>) -> Seq<char> {
    "HA returned success=false for "@ + service
}

/// The message for a call of `service` that Home Assistant refused.
pub fn refused_message(service: &str) -> (r: String)
    ensures
        r@ == refused_text(service@),
{
    let mut r = String::from_str("HA returned success=false for ");
    r.append(service);
    r
}

/// `pattern` occurs in `s`.
pub open spec fn contains_text(s: Seq<char>, pattern: Seq<char>) -> bool {
    exists|i: int|
        0 <= i && i + pattern.len() <= s.len() && #[trigger] s.subrange(i, i + pattern.len())
            == pattern
}

/// Whether `pattern` occurs in `s`.
pub fn contains_str(s: &str, pattern: &str) -> (r: bool)
    ensures
        r == contains_text(s@, pattern@),
{
    let n = s.unicode_len();
    let m = pattern.unicode_len();
    if m > n {
        return false;
    }
    let mut i: usize = 0;
    while i <= n - m
        invariant
            n == s@.len(),
            m == pattern@.len(),
            m <= n,
            i <= n - m + 1,
            forall|k: int| 0 <= k < i ==> #[trigger] s@.subrange(k, k + m) != pattern@,
        decreases n - m + 1 - i,
    {
        let mut j: usize = 0;
        while j < m && s.get_char(i + j) == pattern.get_char(j)
            invariant
                n == s@.len(),
                m == pattern@.len(),
                i + m <= n,
                j <= m,
                forall|k: int| 0 <= k < j ==> s@[i + k] == pattern@[k],
            decreases m - j,
        {
            j = j + 1;
        }
        if j == m {
            assert(s@.subrange(i as int, i + m) =~= pattern@);
            return true;
        }
        assert(s@.subrange(i as int, i + m)[j as int] != pattern@[j as int]);
        i = i + 1;
    }
    proof {
        assert forall|k: int| 0 <= k && k + m <= n implies #[trigger] s@.subrange(k, k + m)
            != pattern@ by {
            assert(k < i);
        }
    }
    false
}

/// The text that marks a rejected token.
pub open spec fn auth_invalid_marker() -> Seq<char> {
    "auth_invalid"@
}

/// Whether a connection error message reports a rejected token (it mentions
/// `auth_invalid`); such a failure is fatal rather than retried.
pub fn mentions_auth_invalid(message: &str) -> (r: bool)
    ensures
        r == contains_text(message@, auth_invalid_marker()),
{
    contains_str(message, "auth_invalid")
}

/// The message of an error: what `anyhow::Error`'s `Display` writes (the
/// outermost message, without the chain of causes).
pub uninterp spec fn error_text(e: anyhow::Error) -> Seq<char>;

/// `anyhow::Error`'s `Display` (through `ToString`): the error's message.
#[verifier::external_body]
fn error_message(e: &anyhow::Error) -> (r: String)
    ensures
        r@ == error_text(*e),
{
    e.to_string()
}

/// `anyhow::Error::msg`: an error whose message is `message`.
#[verifier::external_body]
fn error_from_message(message: String) -> (r: anyhow::Error)
    ensures
        error_text(r) == message@,
{
    anyhow::Error::msg(message)
}

/// An error whose message is `message`.
pub fn error_with_message(message: String) -> (r: anyhow::Error)
    ensures
        error_text(r) == message@,
{
    error_from_message(message)
}

/// Whether a connection error is a fatal authentication failure: its message
/// mentions `auth_invalid`.
pub fn is_fatal_auth(e: &anyhow::Error) -> (r: bool)
    ensures
        r == contains_text(error_text(*e), auth_invalid_marker()),
{
    let message = error_message(e);
    mentions_auth_invalid(message.as_str())
}

/// The reconnect schedule in closed form: after `failures` failed attempts in
/// a row the delay is `min(2^failures, 30)` seconds.
pub proof fn lemma_backoff_is_capped_power_of_two(failures: nat)
    ensures
        backoff_after(failures) == (if pow2(failures) < 30 {
            pow2(failures)
        } else {
            30
        }),
{
    lemma_backoff_schedule(failures);
    lemma2_to64();
    if failures >= 5 {
        if failures > 5 {
            lemma_pow2_strictly_increases(5, failures);
        }
    }
}

/// What the reconnect loop does after a connection attempt.
#[derive(Clone, Copy, Debug, PartialEq, Eq, Structural)]
pub enum ReconnectAction {
    /// Authenticated: use the connection until it is lost, then connect again.
    UseConnection,
    /// The token was rejected: give up (the process exits).
    Exit,
    /// The attempt failed: wait this many seconds, then connect again.
    RetryAfter(u64),
}

/// The abstract state of a [`Reconnector`].
pub struct ReconnectorView {
    /// The current delay, in seconds.
    pub delay_secs: u64,
    /// Failed attempts in a row since the start or the last successful connection.
    pub failures: nat,
}

/// The decisions of the reconnect loop: after a successful connection the
/// delay goes back to 1 s; a failure that mentions `auth_invalid` is fatal;
/// any other failure waits the current delay, which then doubles up to 30 s.
pub struct Reconnector {
    backoff: Backoff,
    failures: Ghost<nat>,
}

impl View for Reconnector {
    type V = ReconnectorView;

    closed spec fn view(&self) -> ReconnectorView {
        ReconnectorView { delay_secs: self.backoff@, failures: self.failures@ }
    }
}

impl Reconnector {
    #[verifier::type_invariant]
    closed spec fn delay_follows_failures(self) -> bool {
        self.backoff@ == backoff_after(self.failures@)
    }

    /// The state at the start: no failure yet, a delay of 1 s.
    pub fn new() -> (r: Reconnector)
        ensures
            r@.failures == 0,
            r@.delay_secs == backoff_after(0),
    {
        Reconnector { backoff: Backoff::new(), failures: Ghost(0) }
    }

    /// The current delay, in seconds: the one that the failures in a row give.
    pub fn delay_secs(&self) -> (r: u64)
        ensures
            r == self@.delay_secs,
            r == backoff_after(self@.failures),
    {
        proof {
            use_type_invariant(self);
        }
        self.backoff.secs()
    }

    /// An attempt succeeded: use the connection; the failures in a row start
    /// again from zero.
    pub fn on_connected(&mut self) -> (a: ReconnectAction)
        ensures
            a == ReconnectAction::UseConnection,
            final(self)@.failures == 0,
            final(self)@.delay_secs == backoff_after(0),
    {
        *self = Reconnector::new();
        ReconnectAction::UseConnection
    }

    /// An attempt failed with `e`: exit when its message mentions
    /// `auth_invalid`; otherwise wait the delay of the failures so far, which
    /// counts one more failure.
    pub fn on_connect_error(&mut self, e: &anyhow::Error) -> (a: ReconnectAction)
        ensures
            contains_text(error_text(*e), auth_invalid_marker()) ==> a == ReconnectAction::Exit
                && final(self)@ == old(self)@,
            !contains_text(error_text(*e), auth_invalid_marker()) ==> a == ReconnectAction::RetryAfter(
                backoff_after(old(self)@.failures),
            ) && final(self)@.failures == old(self)@.failures + 1 && final(self)@.delay_secs
                == backoff_after(old(self)@.failures + 1),
    {
        proof {
            use_type_invariant(&*self);
        }
        if is_fatal_auth(e) {
            return ReconnectAction::Exit;
        }
        proof {
            use_type_invariant(&self.backoff);
        }
        let ghost f = self.failures@;
        let mut backoff = Backoff { secs: self.backoff.secs };
        let delay = backoff.after_failure();
        *self = Reconnector { backoff, failures: Ghost(f + 1) };
        ReconnectAction::RetryAfter(delay)
    }
}

/// The i-th failed attempt in a row (counting from 1, since the start or the
/// last successful connection) waits `min(2^(i-1), 30)` seconds.
pub proof fn lemma_ith_failure_waits(r: ReconnectorView, i: nat)
    requires
        i >= 1,
        r.failures == i - 1,
        r.delay_secs == backoff_after(r.failures),
    ensures
        r.delay_secs == (if pow2((i - 1) as nat) < 30 {
            pow2((i - 1) as nat)
        } else {
            30
        }),
{
    lemma_backoff_is_capped_power_of_two((i - 1) as nat);
}

} // verus!
