use roomcast::session::{
    accept_connection, CloseReason, Frame, Parting, Session, SessionState, Step, CLIENT_TIMEOUT,
    HEARTBEAT_INTERVAL,
};

fn active_session(room: u64, id: u64, now: u64) -> Session {
    let mut s = Session::new(room, now);
    let step = s.on_reply(Some(id));
    assert_eq!(step, Step::Ignored);
    s
}

#[test]
fn a_new_session_is_connecting_and_unregistered() {
    let s = Session::new(42, 17);
    assert_eq!(s.state, SessionState::Connecting);
    assert_eq!(s.session_id, 0);
    assert_eq!(s.room_id, 42);
    assert_eq!(s.last_activity, 17);
}

#[test]
fn a_successful_reply_activates_the_session() {
    let mut s = Session::new(42, 0);
    let step = s.on_reply(Some(7));
    assert_eq!(step, Step::Ignored);
    assert_eq!(s.state, SessionState::Active);
    assert_eq!(s.session_id, 7);
}

#[test]
fn a_refused_reply_terminates_without_a_deregistration() {
    let mut s = Session::new(42, 0);
    let step = s.on_reply(None);
    assert_eq!(
        step,
        Step::Stop { parting: Parting::Silent, deregister: None }
    );
    assert_eq!(s.state, SessionState::Terminated);
}

#[test]
fn a_ping_is_answered_with_its_payload_and_resets_the_clock() {
    let mut s = active_session(1, 7, 0);
    let step = s.on_frame(Frame::Ping(b"beat".to_vec()), 8);
    assert_eq!(step, Step::Pong(b"beat".to_vec()));
    assert_eq!(s.last_activity, 8);
    assert_eq!(s.state, SessionState::Active);
}

#[test]
fn a_pong_resets_the_clock_quietly() {
    let mut s = active_session(1, 7, 0);
    let step = s.on_frame(Frame::Pong(Vec::new()), 9);
    assert_eq!(step, Step::Ignored);
    assert_eq!(s.last_activity, 9);
}

#[test]
fn text_binary_and_nop_frames_are_ignored() {
    let mut s = active_session(1, 7, 0);
    assert_eq!(
        s.on_frame(Frame::Text(String::from("hello")), 3),
        Step::Ignored
    );
    assert_eq!(s.on_frame(Frame::Binary(vec![1, 2, 3]), 4), Step::Ignored);
    assert_eq!(s.on_frame(Frame::Nop, 5), Step::Ignored);
    // none of them is a liveness signal
    assert_eq!(s.last_activity, 0);
    assert_eq!(s.state, SessionState::Active);
}

#[test]
fn a_close_frame_is_echoed_and_deregisters() {
    let mut s = active_session(1, 7, 0);
    let reason = CloseReason { code: 1000, description: Some(String::from("bye")) };
    let step = s.on_frame(Frame::Close(Some(reason.clone())), 2);
    assert_eq!(
        step,
        Step::Stop { parting: Parting::Echo(Some(reason)), deregister: Some(7) }
    );
    assert_eq!(s.state, SessionState::Terminated);
}

#[test]
fn a_continuation_frame_is_fatal() {
    let mut s = active_session(1, 7, 0);
    let step = s.on_frame(Frame::Continuation, 2);
    assert_eq!(
        step,
        Step::Stop { parting: Parting::Silent, deregister: Some(7) }
    );
    assert_eq!(s.state, SessionState::Terminated);
}

#[test]
fn a_read_error_is_an_implicit_close() {
    let mut s = active_session(1, 7, 0);
    let step = s.on_transport_error();
    assert_eq!(
        step,
        Step::Stop { parting: Parting::Silent, deregister: Some(7) }
    );
    assert_eq!(s.state, SessionState::Terminated);
}

#[test]
fn a_tick_inside_the_window_sends_a_ping() {
    let mut s = active_session(1, 7, 0);
    // silence for exactly the timeout window is still tolerated
    assert_eq!(s.on_tick(CLIENT_TIMEOUT), Step::Ping);
    assert_eq!(s.state, SessionState::Active);
}

#[test]
fn a_tick_past_the_window_disconnects_exactly_once() {
    let mut s = active_session(1, 7, 0);
    let step = s.on_tick(CLIENT_TIMEOUT + 1);
    assert_eq!(
        step,
        Step::Stop { parting: Parting::Silent, deregister: Some(7) }
    );
    assert_eq!(s.state, SessionState::Terminated);
    // every later trigger is a no-op: no second deregistration
    assert_eq!(s.on_tick(CLIENT_TIMEOUT + 6), Step::Ignored);
    assert_eq!(s.on_frame(Frame::Close(None), 99), Step::Ignored);
    assert_eq!(s.on_transport_error(), Step::Ignored);
}

#[test]
fn a_fresh_pong_postpones_the_timeout_by_a_full_window() {
    let mut s = active_session(1, 7, 0);
    assert_eq!(s.on_tick(HEARTBEAT_INTERVAL), Step::Ping);
    assert_eq!(s.on_frame(Frame::Pong(Vec::new()), 6), Step::Ignored);
    // more than CLIENT_TIMEOUT after the session started, but within the
    // window of the fresh pong: no timeout fires
    assert_eq!(s.on_tick(16), Step::Ping);
    assert_eq!(s.state, SessionState::Active);
    // one unit past the pong's window, it does
    assert_eq!(
        s.on_tick(17),
        Step::Stop { parting: Parting::Silent, deregister: Some(7) }
    );
}

#[test]
fn steady_pongs_keep_the_session_alive_indefinitely() {
    let mut s = active_session(1, 7, 0);
    let mut now: u64 = 0;
    for _ in 0..1000 {
        assert_eq!(s.on_frame(Frame::Pong(Vec::new()), now + 1), Step::Ignored);
        now += HEARTBEAT_INTERVAL;
        assert_eq!(s.on_tick(now), Step::Ping);
    }
    assert_eq!(s.state, SessionState::Active);
    assert_eq!(s.session_id, 7);
}

#[test]
fn events_are_forwarded_verbatim_without_touching_the_clock() {
    let mut s = active_session(1, 7, 0);
    let step = s.forward_event(String::from("{\"item\":\"sale-A\"}"));
    assert_eq!(step, Step::Forward(String::from("{\"item\":\"sale-A\"}")));
    assert_eq!(s.last_activity, 0);
    // a pushed event is not a liveness signal: the timeout still fires
    assert_eq!(
        s.on_tick(CLIENT_TIMEOUT + 1),
        Step::Stop { parting: Parting::Silent, deregister: Some(7) }
    );
}

#[test]
fn a_terminated_session_forwards_nothing() {
    let mut s = active_session(1, 7, 0);
    let _ = s.on_transport_error();
    assert_eq!(s.forward_event(String::from("late")), Step::Ignored);
}

#[test]
fn an_authorized_connection_yields_a_fresh_session() {
    let s = accept_connection(true, 42, 5).expect("authorized");
    assert_eq!(s.state, SessionState::Connecting);
    assert_eq!(s.room_id, 42);
    assert_eq!(s.last_activity, 5);
}

#[test]
fn an_unauthorized_connection_yields_no_session() {
    assert!(accept_connection(false, 42, 5).is_none());
}
