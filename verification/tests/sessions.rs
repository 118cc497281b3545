use echo_core::ws::{
    session_step, Frame, FrameKind, InboundEvent, Registry, SessionAction, SessionError,
    SessionState,
};

fn frame(bytes: &[u8]) -> Frame {
    Frame {
        kind: FrameKind::Binary,
        payload: bytes.to_vec(),
    }
}

#[test]
fn echo_returns_the_same_bytes() {
    let mut reg = Registry::new();
    let key = reg.create().unwrap();
    reg.dispatch(key, frame(b"hello")).unwrap();
    let echoed = reg.next_outbound(key).unwrap().unwrap();
    assert_eq!(echoed.payload, b"hello".to_vec());
    assert_eq!(echoed.kind, FrameKind::Binary);
    // The queue is drained afterwards.
    assert!(reg.next_outbound(key).unwrap().is_none());
}

#[test]
fn frames_come_back_in_dispatch_order() {
    let mut reg = Registry::new();
    let key = reg.create().unwrap();
    let inputs: Vec<&[u8]> = vec![b"one", b"two", b"three", b"four"];
    for bytes in &inputs {
        reg.dispatch(key, frame(bytes)).unwrap();
    }
    for bytes in &inputs {
        let echoed = reg.next_outbound(key).unwrap().unwrap();
        assert_eq!(echoed.payload, bytes.to_vec());
    }
    assert!(reg.next_outbound(key).unwrap().is_none());
}

#[test]
fn concurrent_sessions_never_see_each_other() {
    let mut reg = Registry::new();
    let a = reg.create().unwrap();
    let b = reg.create().unwrap();
    assert_ne!(a, b);
    // Interleaved dispatches onto two sessions.
    reg.dispatch(a, frame(b"a1")).unwrap();
    reg.dispatch(b, frame(b"b1")).unwrap();
    reg.dispatch(a, frame(b"a2")).unwrap();
    reg.dispatch(b, frame(b"b2")).unwrap();
    assert_eq!(reg.next_outbound(a).unwrap().unwrap().payload, b"a1".to_vec());
    assert_eq!(reg.next_outbound(a).unwrap().unwrap().payload, b"a2".to_vec());
    assert!(reg.next_outbound(a).unwrap().is_none());
    assert_eq!(reg.next_outbound(b).unwrap().unwrap().payload, b"b1".to_vec());
    assert_eq!(reg.next_outbound(b).unwrap().unwrap().payload, b"b2".to_vec());
    assert!(reg.next_outbound(b).unwrap().is_none());
}

#[test]
fn text_frames_keep_their_kind() {
    let mut reg = Registry::new();
    let key = reg.create().unwrap();
    reg.dispatch(
        key,
        Frame {
            kind: FrameKind::Text,
            payload: b"hi".to_vec(),
        },
    )
    .unwrap();
    let echoed = reg.next_outbound(key).unwrap().unwrap();
    assert_eq!(echoed.kind, FrameKind::Text);
    assert_eq!(echoed.payload, b"hi".to_vec());
}

#[test]
fn dispatch_to_terminated_session_fails() {
    let mut reg = Registry::new();
    let key = reg.create().unwrap();
    reg.terminate(key);
    assert_eq!(
        reg.dispatch(key, frame(b"late")),
        Err(SessionError::SessionNotFound)
    );
    assert!(!reg.contains(key));
}

#[test]
fn terminate_hands_back_the_undelivered_frames() {
    let mut reg = Registry::new();
    let key = reg.create().unwrap();
    reg.dispatch(key, frame(b"x")).unwrap();
    reg.dispatch(key, frame(b"y")).unwrap();
    let leftover = reg.terminate(key);
    assert_eq!(leftover.len(), 2);
    assert_eq!(leftover[0].payload, b"x".to_vec());
    assert_eq!(leftover[1].payload, b"y".to_vec());
}

#[test]
fn terminating_twice_is_a_harmless_no_op() {
    let mut reg = Registry::new();
    let key = reg.create().unwrap();
    reg.dispatch(key, frame(b"x")).unwrap();
    let first = reg.terminate(key);
    assert_eq!(first.len(), 1);
    // The second termination raises nothing and frees nothing twice.
    let second = reg.terminate(key);
    assert!(second.is_empty());
    assert!(!reg.contains(key));
}

#[test]
fn terminating_one_session_leaves_the_other_running() {
    let mut reg = Registry::new();
    let a = reg.create().unwrap();
    let b = reg.create().unwrap();
    reg.dispatch(b, frame(b"still here")).unwrap();
    reg.terminate(a);
    assert!(!reg.contains(a));
    assert!(reg.contains(b));
    assert_eq!(
        reg.next_outbound(b).unwrap().unwrap().payload,
        b"still here".to_vec()
    );
}

#[test]
fn keys_are_never_reused() {
    let mut reg = Registry::new();
    let a = reg.create().unwrap();
    reg.terminate(a);
    let b = reg.create().unwrap();
    assert_ne!(a, b);
}

#[test]
fn active_session_echoes_frames() {
    let (state, action) = session_step(
        SessionState::Active,
        InboundEvent::Received(frame(b"ping")),
    );
    assert_eq!(state, SessionState::Active);
    match action {
        SessionAction::Echo(f) => assert_eq!(f.payload, b"ping".to_vec()),
        _ => panic!("an active session must echo"),
    }
}

#[test]
fn errors_and_stream_end_start_the_teardown() {
    let (state, action) = session_step(SessionState::Active, InboundEvent::TransportError);
    assert_eq!(state, SessionState::Closing);
    assert!(matches!(action, SessionAction::Teardown));

    let (state, action) = session_step(SessionState::Active, InboundEvent::StreamEnded);
    assert_eq!(state, SessionState::Closing);
    assert!(matches!(action, SessionAction::Teardown));
}

#[test]
fn no_transition_returns_to_active() {
    let (state, action) = session_step(SessionState::Closing, InboundEvent::TeardownComplete);
    assert_eq!(state, SessionState::Terminated);
    assert!(matches!(action, SessionAction::Ignore));

    let (state, _) = session_step(
        SessionState::Closing,
        InboundEvent::Received(frame(b"late")),
    );
    assert_eq!(state, SessionState::Closing);

    let (state, action) = session_step(
        SessionState::Terminated,
        InboundEvent::Received(frame(b"later")),
    );
    assert_eq!(state, SessionState::Terminated);
    assert!(matches!(action, SessionAction::Ignore));
}
