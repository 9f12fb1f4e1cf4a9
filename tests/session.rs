use server::{Action, ChatSession, Frame, SessionState};

fn active(now: u64, timeout: u64) -> ChatSession {
    let mut s = ChatSession::new("alice".to_string(), "general".to_string(), now, timeout);
    assert!(matches!(s.joined(Some(1)), Action::Nothing));
    s
}

#[test]
fn scenario_silent_session_is_evicted() {
    let mut s = active(0, 10);
    assert!(matches!(s.heartbeat(5), Action::Ping));
    assert!(matches!(s.heartbeat(10), Action::Ping));
    match s.heartbeat(11) {
        Action::Evict(d) => {
            assert_eq!(d.id, 1);
            assert_eq!(d.name, "alice");
        }
        _ => panic!("expected eviction"),
    }
    assert_eq!(s.state(), SessionState::Stopped);
    assert!(s.stopping().is_none());
    assert!(matches!(s.heartbeat(20), Action::Nothing));
}

#[test]
fn inbound_traffic_keeps_session_alive() {
    let mut s = active(0, 10);
    assert!(matches!(s.handle(Frame::Pong, 8), Action::Nothing));
    assert!(matches!(s.heartbeat(15), Action::Ping));
    assert!(matches!(s.handle(Frame::Text("x".to_string()), 16), Action::Relay(_)));
    assert!(matches!(s.heartbeat(26), Action::Ping));
    assert!(matches!(s.heartbeat(27), Action::Evict(_)));
}

#[test]
fn text_frame_becomes_trimmed_relay() {
    let mut s = active(0, 10);
    match s.handle(Frame::Text("  hi there \n".to_string()), 1) {
        Action::Relay(m) => {
            assert_eq!(m.client_id, 1);
            assert_eq!(m.client_name, "alice");
            assert_eq!(m.message, "hi there");
            assert_eq!(m.room, "general");
        }
        _ => panic!("expected relay"),
    }
}

#[test]
fn ping_is_answered_with_same_bytes() {
    let mut s = active(0, 10);
    match s.handle(Frame::Ping(vec![1, 2, 3]), 9) {
        Action::Pong(b) => assert_eq!(b, vec![1, 2, 3]),
        _ => panic!("expected pong"),
    }
    assert!(matches!(s.heartbeat(19), Action::Ping));
}

#[test]
fn close_and_errors_stop_with_one_leave() {
    let mut s = active(0, 10);
    assert!(matches!(s.handle(Frame::Other, 1), Action::Nothing));
    assert!(matches!(s.handle(Frame::Close, 1), Action::Close));
    assert_eq!(s.state(), SessionState::Stopping);
    let d = s.stopping().unwrap();
    assert_eq!((d.id, d.name.as_str()), (1, "alice"));
    assert!(s.stopping().is_none());

    let mut s = active(0, 10);
    assert!(matches!(s.handle(Frame::Continuation, 1), Action::Stop));
    assert!(s.stopping().is_some());

    let mut s = active(0, 10);
    assert!(matches!(s.handle(Frame::Error, 1), Action::Stop));
    assert!(matches!(s.handle(Frame::Text("late".to_string()), 2), Action::Nothing));
    assert!(s.stopping().is_some());
}

#[test]
fn failed_join_stops_without_leave() {
    let mut s = ChatSession::new("a".to_string(), "r".to_string(), 0, 10);
    assert!(matches!(s.heartbeat(100), Action::Nothing));
    assert!(matches!(s.handle(Frame::Text("x".to_string()), 1), Action::Nothing));
    assert!(matches!(s.joined(None), Action::Stop));
    assert_eq!(s.state(), SessionState::Stopped);
    assert!(s.stopping().is_none());
}

#[test]
fn started_sends_name_and_room() {
    let s = ChatSession::new("a".to_string(), "r".to_string(), 0, 10);
    let c = s.started(42u32);
    assert_eq!((c.name.as_str(), c.room.as_str(), c.addr), ("a", "r", 42));
    assert_eq!(s.id(), 0);
}

#[test]
fn trim_removes_unicode_white_space_at_both_ends_only() {
    let mut s = active(0, 10);
    match s.handle(Frame::Text("\u{3000}\t a  b\u{a0}\u{2028}".to_string()), 1) {
        Action::Relay(m) => assert_eq!(m.message, "a  b"),
        _ => panic!("expected relay"),
    }
    match s.handle(Frame::Text(" \n ".to_string()), 2) {
        Action::Relay(m) => assert_eq!(m.message, ""),
        _ => panic!("expected relay"),
    }
}
