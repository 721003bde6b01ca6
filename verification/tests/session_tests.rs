use devrouter::frames::{ProtocolError, UiMessage, WireMessage};
use devrouter::session::{
    relay_from_backend, relay_from_caller, session_init, session_step, ws_target, SessionEvent,
    SessionPhase, WireRelayStep,
};

#[test]
fn clean_session_runs_to_closed_with_no_error() {
    let mut s = session_init();
    assert_eq!(s.phase, SessionPhase::Upgrading);
    s = session_step(s, SessionEvent::UpgradeOk);
    assert_eq!(s.phase, SessionPhase::Connected);
    s = session_step(s, SessionEvent::LoopFinished(None));
    assert_eq!(s.phase, SessionPhase::Closing);
    s = session_step(s, SessionEvent::LoopFinished(None));
    assert_eq!(s.phase, SessionPhase::Closed);
    assert_eq!(s.first_error, None);
}

#[test]
fn first_loop_error_is_the_session_result() {
    let mut s = session_init();
    s = session_step(s, SessionEvent::UpgradeOk);
    s = session_step(s, SessionEvent::LoopFinished(Some(b"stream error".to_vec())));
    s = session_step(s, SessionEvent::LoopFinished(Some(b"later error".to_vec())));
    assert_eq!(s.phase, SessionPhase::Closed);
    assert_eq!(s.first_error, Some(b"stream error".to_vec()));
}

#[test]
fn clean_close_after_error_free_loop_is_not_an_error() {
    let mut s = session_init();
    s = session_step(s, SessionEvent::UpgradeOk);
    s = session_step(s, SessionEvent::LoopFinished(None));
    s = session_step(s, SessionEvent::LoopFinished(Some(b"tail error".to_vec())));
    assert_eq!(s.phase, SessionPhase::Closed);
    assert_eq!(s.first_error, Some(b"tail error".to_vec()));
}

#[test]
fn failed_handshake_closes_the_session_at_once() {
    let mut s = session_init();
    s = session_step(s, SessionEvent::UpgradeFailed(b"refused".to_vec()));
    assert_eq!(s.phase, SessionPhase::Closed);
    assert_eq!(s.first_error, Some(b"refused".to_vec()));
}

#[test]
fn caller_relay_forwards_clean_messages_and_drops_failed_reads() {
    let forwarded = relay_from_caller(Ok(UiMessage::Text(b"hi".to_vec())));
    assert_eq!(forwarded, Some(WireMessage::Text(b"hi".to_vec())));
    let dropped = relay_from_caller(Err(b"bad read".to_vec()));
    assert_eq!(dropped, None);
}

#[test]
fn backend_relay_forwards_drops_and_stops() {
    let forwarded = relay_from_backend(Ok(WireMessage::Binary(vec![7u8])));
    assert_eq!(forwarded, WireRelayStep::Forward(UiMessage::Binary(vec![7u8])));
    let dropped = relay_from_backend(Err(b"bad read".to_vec()));
    assert_eq!(dropped, WireRelayStep::Drop);
    let stopped = relay_from_backend(Ok(WireMessage::Frame(vec![1u8])));
    assert_eq!(stopped, WireRelayStep::Stop(ProtocolError::UnsupportedFrame));
}

#[test]
fn ws_target_reuses_path_and_query() {
    let r = ws_target(b"ws://localhost:3000", b"/chat", &Some(b"room=1".to_vec()));
    assert_eq!(r, b"ws://localhost:3000/chat?room=1".to_vec());
}

#[test]
fn ws_target_with_no_query_has_no_separator() {
    let r = ws_target(b"ws://localhost:3000", b"/chat", &None);
    assert_eq!(r, b"ws://localhost:3000/chat".to_vec());
}
