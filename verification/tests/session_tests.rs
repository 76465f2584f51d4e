use sqlx_tls::handshake::TlsError;
use sqlx_tls::policy::VerifyError;
use sqlx_tls::session::handshake_step;
use sqlx_tls::session::AttemptOutcome;
use sqlx_tls::session::DriverAction;
use sqlx_tls::session::HandshakeState;
use sqlx_tls::session::ShutdownState;

#[test]
fn immediate_success_establishes() {
    let (state, action) = handshake_step(HandshakeState::Init, AttemptOutcome::Success);
    assert_eq!(state, HandshakeState::Established);
    assert_eq!(action, DriverAction::Complete);
}

#[test]
fn would_block_suspends_and_retries() {
    let (state, action) = handshake_step(HandshakeState::Init, AttemptOutcome::WouldBlock);
    assert_eq!(state, HandshakeState::InProgress);
    assert_eq!(action, DriverAction::AwaitReadiness);
}

#[test]
fn hard_failure_aborts_with_the_error() {
    let err = TlsError::Verify(VerifyError::UnknownIssuer);
    let (state, action) = handshake_step(HandshakeState::InProgress, AttemptOutcome::Fatal(err));
    assert_eq!(state, HandshakeState::Failed(err));
    assert_eq!(action, DriverAction::Abort);
}

#[test]
fn repeated_would_block_converges_once_transport_permits() {
    let mut state = HandshakeState::Init;
    let mut suspensions: usize = 0;
    for attempt in 0..6usize {
        let outcome = if attempt < 5 {
            AttemptOutcome::WouldBlock
        } else {
            AttemptOutcome::Success
        };
        let (next, action) = handshake_step(state, outcome);
        state = next;
        match action {
            DriverAction::AwaitReadiness => suspensions += 1,
            DriverAction::Complete => break,
            DriverAction::Abort => panic!("handshake must not fail here"),
        }
    }
    assert_eq!(state, HandshakeState::Established);
    assert_eq!(suspensions, 5);
}

#[test]
fn shutdown_twice_sends_close_notify_at_most_once() {
    let mut shutdown = ShutdownState::new();
    let first = shutdown.begin_shutdown();
    let second = shutdown.begin_shutdown();
    assert!(first);
    assert!(!second);
    let third = shutdown.begin_shutdown();
    assert!(!third);
}
