//! The handshake state machine and the would-block retry discipline.
//!
//! Both backend adapters drive a synchronous engine from a readiness-driven
//! caller the same way: attempt a step; on success the session is
//! established, on a hard failure it is failed, and on would-block the
//! driver suspends until the socket is ready and retries. The state machine
//! below is that loop's decision core; its caller performs the awaiting and
//! hands back what the engine reported. Shutdown of an established session
//! is idempotent: the close-notify record is sent at most once.

use crate::handshake::TlsError;
use vstd::prelude::*;

verus! {

/// What one engine handshake attempt (or one record-layer I/O pump)
/// reported.
#[derive(Clone, Copy, Debug, PartialEq, Eq, Structural)]
pub enum AttemptOutcome {
    /// The engine completed its step.
    Success,
    /// No progress was possible yet; retry after a readiness notification.
    WouldBlock,
    /// A terminal failure.
    Fatal(TlsError),
}

/// The handshake phase of one session.
#[derive(Clone, Copy, Debug, PartialEq, Eq, Structural)]
pub enum HandshakeState {
    /// No attempt has been made yet.
    Init,
    /// An attempt signalled would-block; a retry is pending readiness.
    InProgress,
    /// The session is established; terminal for the handshake phase.
    Established,
    /// The engine rejected the peer or the transport failed; terminal.
    Failed(TlsError),
}

/// What the driver must do after a step.
#[derive(Clone, Copy, Debug, PartialEq, Eq, Structural)]
pub enum DriverAction {
    /// Hand the established session to the caller.
    Complete,
    /// Await socket readiness, then attempt again.
    AwaitReadiness,
    /// Discard the session and report the error.
    Abort,
}

/// Whether a state is terminal for the handshake phase.
pub open spec fn spec_is_terminal(s: HandshakeState) -> bool {
    s is Established || s is Failed
}

/// The state after one attempt. Terminal states absorb every outcome: no
/// attempt is made from them, so none can change them.
pub open spec fn spec_handshake_step(s: HandshakeState, o: AttemptOutcome) -> HandshakeState {
    if spec_is_terminal(s) {
        s
    } else {
        match o {
            AttemptOutcome::Success => HandshakeState::Established,
            AttemptOutcome::WouldBlock => HandshakeState::InProgress,
            AttemptOutcome::Fatal(e) => HandshakeState::Failed(e),
        }
    }
}

/// The action the driver takes in a state.
pub open spec fn spec_action_for(s: HandshakeState) -> DriverAction {
    match s {
        HandshakeState::Init => DriverAction::AwaitReadiness,
        HandshakeState::InProgress => DriverAction::AwaitReadiness,
        HandshakeState::Established => DriverAction::Complete,
        HandshakeState::Failed(_) => DriverAction::Abort,
    }
}

/// Advance the handshake by one engine attempt.
///
/// On success the session is established and handed over; on would-block the
/// driver suspends until readiness and retries; on a hard failure the
/// not-yet-established session is discarded and the error reported. Errors
/// are never retried; only pure would-block conditions are.
pub fn handshake_step(s: HandshakeState, o: AttemptOutcome) -> (r: (HandshakeState, DriverAction))
    requires
        !spec_is_terminal(s),
    ensures
        r.0 == spec_handshake_step(s, o),
        r.1 == spec_action_for(r.0),
        o is Success ==> r.0 is Established,
        o is WouldBlock ==> r.0 is InProgress,
        o matches AttemptOutcome::Fatal(e) ==> r.0 == HandshakeState::Failed(e),
{
    match o {
        AttemptOutcome::Success => (HandshakeState::Established, DriverAction::Complete),
        AttemptOutcome::WouldBlock => (HandshakeState::InProgress, DriverAction::AwaitReadiness),
        AttemptOutcome::Fatal(e) => (HandshakeState::Failed(e), DriverAction::Abort),
    }
}

/// The state after a whole sequence of attempts.
pub open spec fn spec_run_handshake(s: HandshakeState, outcomes: Seq<AttemptOutcome>) -> HandshakeState
    decreases outcomes.len(),
{
    if outcomes.len() == 0 {
        s
    } else {
        spec_run_handshake(spec_handshake_step(s, outcomes[0]), outcomes.drop_first())
    }
}

/// Terminal states stay terminal: once established or failed, no sequence
/// of further outcomes changes the session's handshake phase.
pub proof fn lemma_terminal_absorbs(s: HandshakeState, outcomes: Seq<AttemptOutcome>)
    requires
        spec_is_terminal(s),
    ensures
        spec_run_handshake(s, outcomes) == s,
    decreases outcomes.len(),
{
    if outcomes.len() > 0 {
        lemma_terminal_absorbs(s, outcomes.drop_first());
    }
}

/// `n` would-block attempts followed by one successful attempt.
pub open spec fn spec_blocked_then_success(n: nat) -> Seq<AttemptOutcome> {
    Seq::new(n, |i: int| AttemptOutcome::WouldBlock).push(AttemptOutcome::Success)
}

/// A handshake that signals would-block any number of times converges to
/// `Established` as soon as the transport permits one successful attempt.
pub proof fn lemma_would_block_converges(s: HandshakeState, n: nat)
    requires
        !spec_is_terminal(s),
    ensures
        spec_run_handshake(s, spec_blocked_then_success(n)) is Established,
    decreases n,
{
    let outcomes = spec_blocked_then_success(n);
    assert(outcomes.len() == n + 1);
    assert(spec_run_handshake(s, outcomes) == spec_run_handshake(
        spec_handshake_step(s, outcomes[0]),
        outcomes.drop_first(),
    ));
    if n == 0 {
        assert(outcomes[0] == AttemptOutcome::Success);
        assert(spec_handshake_step(s, outcomes[0]) == HandshakeState::Established);
        lemma_terminal_absorbs(HandshakeState::Established, outcomes.drop_first());
    } else {
        assert(outcomes[0] == AttemptOutcome::WouldBlock);
        assert(spec_handshake_step(s, outcomes[0]) == HandshakeState::InProgress);
        assert(outcomes.drop_first() =~= spec_blocked_then_success((n - 1) as nat));
        lemma_would_block_converges(HandshakeState::InProgress, (n - 1) as nat);
        assert(spec_run_handshake(HandshakeState::InProgress, outcomes.drop_first())
            is Established);
    }
}

/// The close-notify gate of an established record-layer session.
///
/// The session object owns this flag for the connection's whole life; an
/// explicit shutdown call is the only path that sends the close
/// notification.
pub struct ShutdownState {
    pub close_notify_sent: bool,
}

impl ShutdownState {
    /// A freshly established session: nothing sent yet.
    pub fn new() -> (r: Self)
        ensures
            !r.close_notify_sent,
    {
        ShutdownState { close_notify_sent: false }
    }

    /// One shutdown call's decision: queue the close-notify record exactly
    /// when it has not been sent before, and remember that it now has been.
    ///
    /// Returns whether the caller must queue the record before flushing and
    /// shutting the plain socket down.
    pub fn begin_shutdown(&mut self) -> (send: bool)
        ensures
            send == !old(self).close_notify_sent,
            final(self).close_notify_sent,
    {
        let send = !self.close_notify_sent;
        self.close_notify_sent = true;
        send
    }
}

/// How many close-notify records a run of `n` shutdown calls sends, starting
/// from a session whose gate reads `sent`.
pub open spec fn spec_notify_sends(sent: bool, n: nat) -> nat
    decreases n,
{
    if n == 0 {
        0
    } else {
        (if sent {
            0nat
        } else {
            1nat
        }) + spec_notify_sends(true, (n - 1) as nat)
    }
}

/// Shutdown is idempotent: however many times shutdown is called on one
/// session, the close-notify record is sent at most once — exactly once
/// when starting from a fresh session and at least one call is made.
pub proof fn lemma_close_notify_at_most_once(sent: bool, n: nat)
    ensures
        spec_notify_sends(sent, n) <= 1,
        !sent && n >= 1 ==> spec_notify_sends(sent, n) == 1,
        sent ==> spec_notify_sends(sent, n) == 0,
    decreases n,
{
    if n > 0 {
        lemma_close_notify_at_most_once(true, (n - 1) as nat);
    }
}

} // verus!
