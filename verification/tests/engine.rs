use velocitas_fix::engine::{
    begin_step, dispatch_message, execute_action, finish_batch, finish_step, handle_inbound_logon,
    handle_message, handle_timer, initiate_logout, on_send_confirmed, send_gap_fill, send_logout,
    start_initiator, EngineStep, Reaction,
};
use velocitas_fix::message::MessageView;
use velocitas_fix::parser::FixParser;
use velocitas_fix::serializer::{
    build_heartbeat, build_logon, build_logon_with_reset, build_logout, build_new_order_single,
    build_resend_request, build_sequence_reset_gap_fill, build_test_request,
};
use velocitas_fix::session::{
    SequenceResetPolicy, Session, SessionAction, SessionConfig, SessionRole, SessionState,
};
use velocitas_fix::tags;
use velocitas_fix::time::{Duration, MonoTime};

const TS: &[u8] = b"20260321-10:00:00.000";

fn config(role: SessionRole) -> SessionConfig {
    SessionConfig {
        session_id: "S-1".to_string(),
        fix_version: "FIX.4.4".to_string(),
        sender_comp_id: "US".to_string(),
        target_comp_id: "THEM".to_string(),
        role,
        heartbeat_interval: Duration::from_secs(30),
        reconnect_interval: Duration::from_secs(1),
        max_reconnect_attempts: 3,
        sequence_reset_policy: SequenceResetPolicy::Never,
        validate_comp_ids: true,
        max_msg_rate: 100,
    }
}

fn at(secs: u64) -> MonoTime {
    MonoTime::from_nanos(secs as u128 * 1_000_000_000)
}

fn active_session() -> Session {
    let mut s = Session::new(config(SessionRole::Initiator));
    s.on_connected_at(at(0));
    s.on_logon_at(at(0));
    s
}

fn parse(bytes: &[u8]) -> MessageView<'_> {
    let (view, n) = FixParser::new().parse(bytes).expect("engine output parses");
    assert_eq!(n, bytes.len());
    view
}

fn transmitted(step: &EngineStep) -> &[u8] {
    match step {
        EngineStep::Transmit { bytes, .. } => bytes.as_slice(),
        other => panic!("expected a transmission, got {other:?}"),
    }
}

/// Carries out every step of a reaction as if each succeeded at `now`.
fn carry_out(s: &mut Session, r: Reaction, now: MonoTime, steps: &mut Vec<EngineStep>) {
    for step in r.steps {
        begin_step(s, &step);
        finish_step(s, &step, now);
        steps.push(step);
    }
}

/// Handles an inbound message and dispatches it, every step succeeding:
/// all the steps taken, and whether the engine stops.
fn react(s: &mut Session, msg: &MessageView<'_>, now: MonoTime) -> (Vec<EngineStep>, bool) {
    let r = handle_message(s, msg, now, TS);
    let mut stop = r.stop;
    let dispatch = r.dispatch;
    let mut steps = Vec::new();
    carry_out(s, r, now, &mut steps);
    if let Some(gap) = dispatch {
        let d = dispatch_message(s, msg, gap, now, TS);
        stop |= d.stop;
        carry_out(s, d, now, &mut steps);
    }
    (steps, stop)
}

/// Runs a timer tick, every step succeeding.
fn tick(s: &mut Session, now: MonoTime) -> (Vec<EngineStep>, bool) {
    let r = handle_timer(s, now, TS);
    let stop = r.stop;
    let mut steps = Vec::new();
    carry_out(s, r, now, &mut steps);
    (steps, stop)
}

/// A peer message of type `D` with the given sequence number.
fn peer_order(buf: &mut [u8], seq: u64) -> usize {
    build_new_order_single(buf, b"FIX.4.4", b"THEM", b"US", seq, TS, b"O-1", b"AAPL", b'1', 10, b'2', b"1.5")
}

#[test]
fn initiator_start_sends_logon() {
    let mut s = Session::new(config(SessionRole::Initiator));
    let out = start_initiator(&mut s, at(0), TS);
    assert_eq!(s.state(), SessionState::LogonSent);
    assert_eq!(s.current_outbound_seq_num(), 2);
    let v = parse(&out);
    assert_eq!(v.msg_type(), Some(b"A".as_slice()));
    assert_eq!(v.msg_seq_num(), Some(1));
    assert_eq!(v.get_field_i64(tags::HEARTBT_INT), Some(30));
    assert_eq!(v.sender_comp_id(), Some("US"));
    assert_eq!(v.target_comp_id(), Some("THEM"));
}

#[test]
fn acceptor_answers_logon_and_notifies() {
    let mut s = Session::new(config(SessionRole::Acceptor));
    let mut buf = [0u8; 512];
    let len = build_logon(&mut buf, b"FIX.4.4", b"THEM", b"US", 1, TS, 30);
    let msg = parse(&buf[..len]);
    let (steps, stop) = react(&mut s, &msg, at(1));
    assert!(!stop);
    assert_eq!(steps.len(), 2);
    let reply = parse(transmitted(&steps[0]));
    assert_eq!(reply.msg_type(), Some(b"A".as_slice()));
    assert_eq!(reply.msg_seq_num(), Some(1));
    assert_eq!(steps[1], EngineStep::NotifyLogon);
    assert_eq!(s.state(), SessionState::Active);
    assert_eq!(s.expected_inbound_seq_num(), 2);
}

#[test]
fn acceptor_answers_reset_logon_with_reset() {
    let mut s = Session::new(config(SessionRole::Acceptor));
    let mut buf = [0u8; 512];
    let len = build_logon_with_reset(&mut buf, b"FIX.4.4", b"THEM", b"US", 1, TS, 30);
    let msg = parse(&buf[..len]);
    let (steps, _) = react(&mut s, &msg, at(1));
    let reply = parse(transmitted(&steps[0]));
    assert_eq!(reply.get_field(tags::RESET_SEQ_NUM_FLAG), Some(b"Y".as_slice()));
    assert_eq!(reply.msg_seq_num(), Some(1));
    assert_eq!(s.state(), SessionState::Active);
    assert_eq!(s.expected_inbound_seq_num(), 1);
    assert_eq!(s.current_outbound_seq_num(), 2);
}

#[test]
fn initiator_logon_ack_only_notifies() {
    let mut s = Session::new(config(SessionRole::Initiator));
    let _ = start_initiator(&mut s, at(0), TS);
    let mut buf = [0u8; 512];
    let len = build_logon(&mut buf, b"FIX.4.4", b"THEM", b"US", 1, TS, 30);
    let (steps, _) = react(&mut s, &parse(&buf[..len]), at(1));
    assert_eq!(steps, vec![EngineStep::NotifyLogon]);
    assert_eq!(s.state(), SessionState::Active);
}

#[test]
fn refused_logon_is_answered_with_logout() {
    let mut s = Session::new(config(SessionRole::Acceptor));
    let mut buf = [0u8; 512];
    let len = build_logon(&mut buf, b"FIX.4.2", b"THEM", b"US", 1, TS, 30);
    let (steps, stop) = react(&mut s, &parse(&buf[..len]), at(1));
    assert!(stop);
    assert_eq!(steps.len(), 2);
    assert_eq!(steps[1], EngineStep::Disconnect);
    let logout = parse(transmitted(&steps[0]));
    assert_eq!(logout.msg_type(), Some(b"5".as_slice()));
    assert_eq!(
        logout.get_field_str(tags::TEXT),
        Some("BeginString mismatch: expected FIX.4.4, received FIX.4.2")
    );
    assert_eq!(s.state(), SessionState::Disconnected);
}

#[test]
fn application_message_delivered_in_sequence_only() {
    let mut s = active_session();
    let mut buf = [0u8; 512];
    let len = peer_order(&mut buf, 1);
    let (steps, stop) = react(&mut s, &parse(&buf[..len]), at(1));
    assert_eq!(steps, vec![EngineStep::DeliverApplication]);
    assert!(!stop);

    // Sequence number 5 while 2 is expected: ResendRequest, no delivery.
    let len = peer_order(&mut buf, 5);
    let (steps, _) = react(&mut s, &parse(&buf[..len]), at(2));
    assert_eq!(steps.len(), 1);
    let rr = parse(transmitted(&steps[0]));
    assert_eq!(rr.msg_type(), Some(b"2".as_slice()));
    assert_eq!(rr.get_field_u64(tags::BEGIN_SEQ_NO), Some(2));
    assert_eq!(rr.get_field_u64(tags::END_SEQ_NO), Some(5));
    assert_eq!(s.state(), SessionState::Resending);
}

#[test]
fn application_message_ignored_before_logon() {
    let mut s = Session::new(config(SessionRole::Initiator));
    let mut buf = [0u8; 512];
    let len = peer_order(&mut buf, 1);
    let (steps, _) = react(&mut s, &parse(&buf[..len]), at(1));
    assert!(steps.is_empty());
}

#[test]
fn test_request_is_echoed() {
    let mut s = active_session();
    let mut buf = [0u8; 512];
    let len = build_test_request(&mut buf, b"FIX.4.4", b"THEM", b"US", 1, TS, b"PING-7");
    let (steps, _) = react(&mut s, &parse(&buf[..len]), at(1));
    let hb = parse(transmitted(&steps[0]));
    assert_eq!(hb.msg_type(), Some(b"0".as_slice()));
    assert_eq!(hb.get_field(tags::TEST_REQ_ID), Some(b"PING-7".as_slice()));
}

#[test]
fn resend_request_answered_with_gap_fill() {
    let mut s = active_session();
    let mut buf = [0u8; 512];
    let len = build_resend_request(&mut buf, b"FIX.4.4", b"THEM", b"US", 1, TS, 3, 9);
    let (steps, _) = react(&mut s, &parse(&buf[..len]), at(1));
    let gf = parse(transmitted(&steps[0]));
    assert_eq!(gf.msg_type(), Some(b"4".as_slice()));
    assert_eq!(gf.msg_seq_num(), Some(3));
    assert_eq!(gf.get_field_u64(tags::NEW_SEQ_NO), Some(10));
    assert_eq!(gf.get_field(tags::GAP_FILL_FLAG), Some(b"Y".as_slice()));

    // EndSeqNo 0: fill up to our next number.
    let len = build_resend_request(&mut buf, b"FIX.4.4", b"THEM", b"US", 2, TS, 1, 0);
    let (steps, _) = react(&mut s, &parse(&buf[..len]), at(1));
    let gf = parse(transmitted(&steps[0]));
    assert_eq!(gf.get_field_u64(tags::NEW_SEQ_NO), Some(s.current_outbound_seq_num()));
}

#[test]
fn sequence_reset_moves_expected_number() {
    let mut s = active_session();
    let mut buf = [0u8; 512];
    let len = build_sequence_reset_gap_fill(&mut buf, b"FIX.4.4", b"THEM", b"US", 1, TS, 20);
    let (steps, _) = react(&mut s, &parse(&buf[..len]), at(1));
    assert!(steps.is_empty());
    assert_eq!(s.expected_inbound_seq_num(), 20);
}

#[test]
fn peer_logout_is_answered() {
    let mut s = active_session();
    let mut buf = [0u8; 512];
    let len = build_logout(&mut buf, b"FIX.4.4", b"THEM", b"US", 1, TS);
    let (steps, stop) = react(&mut s, &parse(&buf[..len]), at(1));
    assert!(stop);
    assert_eq!(steps[0], EngineStep::NotifyLogout);
    let out = parse(transmitted(&steps[1]));
    assert_eq!(out.msg_type(), Some(b"5".as_slice()));
    assert_eq!(steps[2], EngineStep::Disconnect);
    assert_eq!(s.state(), SessionState::Disconnected);
}

#[test]
fn logout_answer_completes_our_logout() {
    let mut s = active_session();
    let out = initiate_logout(&mut s, TS);
    assert_eq!(parse(&out).msg_type(), Some(b"5".as_slice()));
    // Not yet sent: the session does not wait for an answer.
    assert_eq!(s.state(), SessionState::Active);
    on_send_confirmed(&mut s, at(1), true);
    assert_eq!(s.state(), SessionState::LogoutPending);
    let mut buf = [0u8; 512];
    let len = build_logout(&mut buf, b"FIX.4.4", b"THEM", b"US", 1, TS);
    let (steps, stop) = react(&mut s, &parse(&buf[..len]), at(2));
    assert_eq!(
        steps,
        vec![EngineStep::NotifyLogout, EngineStep::CompleteLogout, EngineStep::Disconnect]
    );
    assert!(stop);
    assert_eq!(s.state(), SessionState::Disconnected);
}

#[test]
fn rate_limit_ends_the_session() {
    let mut cfg = config(SessionRole::Initiator);
    cfg.max_msg_rate = 1;
    let mut s = Session::new(cfg);
    s.on_connected_at(at(0));
    s.on_logon_at(at(0));
    let mut buf = [0u8; 512];
    let len = build_heartbeat(&mut buf, b"FIX.4.4", b"THEM", b"US", 1, TS);
    let (_, stop) = react(&mut s, &parse(&buf[..len]), at(0));
    assert!(!stop);
    let len = build_heartbeat(&mut buf, b"FIX.4.4", b"THEM", b"US", 2, TS);
    let (steps, stop) = react(&mut s, &parse(&buf[..len]), at(0));
    assert!(stop);
    assert_eq!(steps.len(), 2);
    assert_eq!(steps[1], EngineStep::Disconnect);
    let out = parse(transmitted(&steps[0]));
    assert_eq!(out.get_field_str(tags::TEXT), Some("Rate limit exceeded"));
    assert_eq!(s.state(), SessionState::Disconnected);
}

#[test]
fn timer_escalates_from_heartbeat_to_disconnect() {
    let mut s = active_session();
    // Quiet for 31s but heard from at 30s: a Heartbeat.
    s.on_message_received_at(at(30));
    let (steps, stop) = tick(&mut s, at(31));
    assert!(!stop);
    assert_eq!(parse(transmitted(&steps[0])).msg_type(), Some(b"0".as_slice()));
    // Silent peer: a TestRequest, then the connection is dropped.
    let (steps, _) = tick(&mut s, at(70));
    let tr = parse(transmitted(&steps[0]));
    assert_eq!(tr.msg_type(), Some(b"1".as_slice()));
    assert_eq!(tr.get_field(tags::TEST_REQ_ID), Some(b"TR-1".as_slice()));
    let (steps, stop) = tick(&mut s, at(71));
    assert!(stop);
    assert!(steps.is_empty());
}

#[test]
fn timer_drops_unanswered_logout() {
    let mut s = active_session();
    let _ = initiate_logout(&mut s, TS);
    on_send_confirmed(&mut s, at(0), true);
    let (_, stop) = tick(&mut s, at(9));
    assert!(!stop);
    let (steps, stop) = tick(&mut s, at(10));
    assert!(steps.is_empty());
    assert!(stop);
    assert_eq!(s.state(), SessionState::Disconnected);
}

#[test]
fn finish_batch_stops_when_done() {
    let mut s = active_session();
    assert!(!finish_batch(&mut s));
    s.on_logout_complete();
    assert!(finish_batch(&mut s));
    assert_eq!(s.state(), SessionState::Disconnected);
    assert!(finish_batch(&mut s));
}

#[test]
fn execute_action_variants() {
    let mut s = active_session();
    let (out, stop) = execute_action(&mut s, TS, SessionAction::Disconnect);
    assert!(out.is_none() && stop);
    let (out, stop) = execute_action(&mut s, TS, SessionAction::NoAction);
    assert!(out.is_none() && !stop);
    let (out, _) = execute_action(
        &mut s,
        TS,
        SessionAction::SendReject { ref_seq_num: 4, reason: 5, text: Some("bad".to_string()) },
    );
    let bytes = out.unwrap();
    let rj = parse(&bytes);
    assert_eq!(rj.msg_type(), Some(b"3".as_slice()));
    assert_eq!(rj.get_field_u64(tags::REF_SEQ_NUM), Some(4));
    assert_eq!(rj.get_field_str(tags::TEXT), Some("bad"));
    let (out, _) =
        execute_action(&mut s, TS, SessionAction::SendResendRequest { begin_seq: 2, end_seq: 0 });
    assert_eq!(parse(&out.unwrap()).get_field_u64(tags::BEGIN_SEQ_NO), Some(2));
    let (out, _) =
        execute_action(&mut s, TS, SessionAction::SendLogout { text: None });
    assert_eq!(parse(&out.unwrap()).msg_type(), Some(b"5".as_slice()));
    assert_eq!(s.state(), SessionState::Active);
    on_send_confirmed(&mut s, at(1), true);
    assert_eq!(s.state(), SessionState::LogoutPending);
}

#[test]
fn failed_logout_send_leaves_session_as_it_was() {
    let mut s = active_session();
    let seq = s.current_outbound_seq_num();
    let out = send_logout(&mut s, TS, Some("bye"));
    assert_eq!(parse(&out).msg_seq_num(), Some(seq));
    // The send failed: no confirmation. Only the number was taken.
    assert_eq!(s.current_outbound_seq_num(), seq + 1);
    assert_eq!(s.state(), SessionState::Active);
    assert!(!s.check_logout_timeout(at(100)));
}

#[test]
fn failed_step_stops_before_later_steps() {
    // A refused Logon: the Logout goes first, the disconnect after it.
    let mut s = Session::new(config(SessionRole::Acceptor));
    let mut buf = [0u8; 512];
    let len = build_logon(&mut buf, b"FIX.4.2", b"THEM", b"US", 1, TS, 30);
    let msg = parse(&buf[..len]);
    let r = handle_message(&mut s, &msg, at(1), TS);
    let d = dispatch_message(&mut s, &msg, r.dispatch.unwrap(), at(1), TS);
    let seq = s.current_outbound_seq_num();
    let state = s.state();
    // The Logout's send fails after the step began.
    begin_step(&mut s, &d.steps[0]);
    assert_eq!(s.current_outbound_seq_num(), seq + 1);
    assert_eq!(s.state(), state);
}

#[test]
fn inbound_logon_handler_and_gap_fill_helper() {
    let mut s = Session::new(config(SessionRole::Acceptor));
    let out = handle_inbound_logon(&mut s, at(0), TS);
    assert_eq!(parse(&out).msg_type(), Some(b"A".as_slice()));
    assert_eq!(s.state(), SessionState::Active);
    let before = s.current_outbound_seq_num();
    let gf = send_gap_fill(&s, TS, 7, 12);
    // A gap fill takes no outbound number of its own.
    assert_eq!(s.current_outbound_seq_num(), before);
    let v = parse(&gf);
    assert_eq!(v.msg_seq_num(), Some(7));
    assert_eq!(v.get_field_u64(tags::NEW_SEQ_NO), Some(12));
}
