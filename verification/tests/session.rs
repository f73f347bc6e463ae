use spotisub::session::SessionAction;
use spotisub::session::SessionEvent;
use spotisub::session::SessionRegistry;
use spotisub::session::SessionState;
use spotisub::session::StreamSession;

fn run_session(events: &[SessionEvent]) -> (StreamSession, Vec<SessionAction>) {
    let mut session = StreamSession::new(5);
    let mut actions = Vec::new();
    for event in events {
        actions.push(session.step(*event));
    }
    (session, actions)
}

#[test]
fn a_session_begins_idle() {
    let session = StreamSession::new(9);
    assert_eq!(session.id, 9);
    assert_eq!(session.state, SessionState::Idle);
    assert!(!session.is_over());
}

#[test]
fn a_track_that_plays_to_its_end() {
    let (session, actions) = run_session(&[
        SessionEvent::ProviderStarted,
        SessionEvent::PcmArrived,
        SessionEvent::PcmArrived,
        SessionEvent::EndOfTrack,
    ]);
    assert_eq!(
        actions,
        vec![
            SessionAction::SendHeaders,
            SessionAction::Transcode,
            SessionAction::Transcode,
            SessionAction::FlushAndClose,
        ]
    );
    assert_eq!(session.state, SessionState::Completed);
    assert!(session.is_over());
    assert_eq!(session.id, 5);
}

#[test]
fn a_provider_that_cannot_start_is_rejected_without_headers() {
    let (session, actions) = run_session(&[SessionEvent::ProviderFailed, SessionEvent::PcmArrived]);
    assert_eq!(actions, vec![SessionAction::Reject, SessionAction::Ignore]);
    assert_eq!(session.state, SessionState::Rejected);
    assert!(session.is_over());
}

#[test]
fn a_superseded_session_flushes_and_closes() {
    let (session, actions) = run_session(&[
        SessionEvent::ProviderStarted,
        SessionEvent::PcmArrived,
        SessionEvent::Cancelled,
        SessionEvent::PcmArrived,
        SessionEvent::EndOfTrack,
        SessionEvent::Cancelled,
    ]);
    assert_eq!(
        actions,
        vec![
            SessionAction::SendHeaders,
            SessionAction::Transcode,
            SessionAction::FlushAndClose,
            SessionAction::Ignore,
            SessionAction::Ignore,
            SessionAction::Ignore,
        ]
    );
    assert_eq!(session.state, SessionState::Superseded);
}

#[test]
fn a_client_that_goes_away_stops_the_provider() {
    let (session, actions) = run_session(&[
        SessionEvent::ProviderStarted,
        SessionEvent::Disconnected,
        SessionEvent::EndOfTrack,
    ]);
    assert_eq!(
        actions,
        vec![SessionAction::SendHeaders, SessionAction::StopProvider, SessionAction::Ignore]
    );
    assert_eq!(session.state, SessionState::ClientDisconnected);
}

#[test]
fn an_encoder_failure_aborts_the_session() {
    let (session, actions) = run_session(&[
        SessionEvent::ProviderStarted,
        SessionEvent::PcmArrived,
        SessionEvent::EncoderFailed,
        SessionEvent::PcmArrived,
    ]);
    assert_eq!(
        actions,
        vec![
            SessionAction::SendHeaders,
            SessionAction::Transcode,
            SessionAction::Abort,
            SessionAction::Ignore,
        ]
    );
    assert_eq!(session.state, SessionState::Aborted);
}

#[test]
fn an_idle_session_ignores_what_is_not_a_start() {
    let (session, actions) = run_session(&[
        SessionEvent::PcmArrived,
        SessionEvent::EndOfTrack,
        SessionEvent::Cancelled,
        SessionEvent::Disconnected,
        SessionEvent::EncoderFailed,
    ]);
    assert!(actions.iter().all(|a| *a == SessionAction::Ignore));
    assert_eq!(session.state, SessionState::Idle);
}

#[test]
fn a_streaming_session_ignores_a_second_start() {
    let (session, actions) = run_session(&[
        SessionEvent::ProviderStarted,
        SessionEvent::ProviderStarted,
        SessionEvent::ProviderFailed,
    ]);
    assert_eq!(
        actions,
        vec![SessionAction::SendHeaders, SessionAction::Ignore, SessionAction::Ignore]
    );
    assert_eq!(session.state, SessionState::Streaming);
}

#[test]
fn headers_once_and_flush_at_most_once_over_any_run() {
    let events = [
        SessionEvent::ProviderStarted,
        SessionEvent::ProviderFailed,
        SessionEvent::PcmArrived,
        SessionEvent::EndOfTrack,
        SessionEvent::Cancelled,
        SessionEvent::Disconnected,
        SessionEvent::EncoderFailed,
    ];
    // Every run of four events.
    for a in 0..7 {
        for b in 0..7 {
            for c in 0..7 {
                for d in 0..7 {
                    let (_, actions) = run_session(&[events[a], events[b], events[c], events[d]]);
                    let headers = actions.iter().filter(|x| **x == SessionAction::SendHeaders).count();
                    let flushes = actions.iter().filter(|x| **x == SessionAction::FlushAndClose).count();
                    assert!(headers <= 1);
                    assert!(flushes <= 1);
                    for (k, action) in actions.iter().enumerate() {
                        if *action == SessionAction::Transcode || *action == SessionAction::FlushAndClose {
                            assert!(actions[..k].contains(&SessionAction::SendHeaders));
                            assert!(!actions[..k].contains(&SessionAction::FlushAndClose));
                        }
                    }
                }
            }
        }
    }
}

#[test]
fn a_new_registry_holds_no_session() {
    let registry = SessionRegistry::new();
    assert_eq!(registry.current, None);
    assert_eq!(registry.next_id, 0);
    assert!(!registry.is_current(0));
}

#[test]
fn the_first_session_supersedes_nobody() {
    let mut registry = SessionRegistry::new();
    let (id, superseded) = registry.install();
    assert_eq!(id, 0);
    assert_eq!(superseded, None);
    assert!(registry.is_current(0));
}

#[test]
fn a_second_request_supersedes_the_first() {
    let mut registry = SessionRegistry::new();
    let (first, _) = registry.install();
    let mut session = StreamSession::new(first);
    assert_eq!(session.step(SessionEvent::ProviderStarted), SessionAction::SendHeaders);

    let (second, superseded) = registry.install();
    assert_eq!(superseded, Some(first));
    assert_ne!(first, second);
    assert!(!registry.is_current(first));
    assert!(registry.is_current(second));

    // The first session finds it is no longer current and is told to stop.
    assert_eq!(session.step(SessionEvent::Cancelled), SessionAction::FlushAndClose);
    assert_eq!(session.state, SessionState::Superseded);
    assert_eq!(session.step(SessionEvent::PcmArrived), SessionAction::Ignore);
}

#[test]
fn releasing_frees_the_slot_only_for_its_holder() {
    let mut registry = SessionRegistry::new();
    let (first, _) = registry.install();
    let (second, _) = registry.install();
    assert!(!registry.release(first));
    assert!(registry.is_current(second));
    assert!(registry.release(second));
    assert_eq!(registry.current, None);
    assert!(!registry.release(second));
    let (third, superseded) = registry.install();
    assert_eq!(third, 2);
    assert_eq!(superseded, None);
}

#[test]
fn a_session_that_finds_itself_in_the_slot_goes_on() {
    let mut session = StreamSession::new(4);
    session.step(SessionEvent::ProviderStarted);
    assert_eq!(session.observe(Some(4)), SessionAction::Ignore);
    assert_eq!(session.state, SessionState::Streaming);
    assert_eq!(session.observe(Some(5)), SessionAction::FlushAndClose);
    assert_eq!(session.state, SessionState::Superseded);
    assert_eq!(session.observe(Some(6)), SessionAction::Ignore);
    assert_eq!(session.state, SessionState::Superseded);
}

#[test]
fn an_empty_slot_cancels_too() {
    let mut session = StreamSession::new(4);
    session.step(SessionEvent::ProviderStarted);
    assert_eq!(session.observe(None), SessionAction::FlushAndClose);
    let mut idle = StreamSession::new(8);
    assert_eq!(idle.observe(Some(9)), SessionAction::Ignore);
    assert_eq!(idle.state, SessionState::Idle);
}

#[test]
fn a_request_waits_only_if_it_supersedes() {
    assert_eq!(spotisub::session::acknowledgement_wait(None), 0);
    assert_eq!(spotisub::session::acknowledgement_wait(Some(0)), 50);
    assert_eq!(spotisub::session::acknowledgement_wait(Some(17)), 50);
    assert_eq!(spotisub::session::CANCEL_WINDOW_MILLIS, 50);
}
