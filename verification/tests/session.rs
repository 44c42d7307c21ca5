use velocitas_fix::session::{
    SequenceResetPolicy, Session, SessionAction, SessionConfig, SessionRole, SessionState,
};
use velocitas_fix::time::{Duration, MonoTime};

fn test_config() -> SessionConfig {
    SessionConfig {
        session_id: "TEST-1".to_string(),
        fix_version: "FIX.4.4".to_string(),
        sender_comp_id: "SENDER".to_string(),
        target_comp_id: "TARGET".to_string(),
        role: SessionRole::Initiator,
        heartbeat_interval: Duration::from_secs(30),
        reconnect_interval: Duration::from_secs(1),
        max_reconnect_attempts: 5,
        sequence_reset_policy: SequenceResetPolicy::Daily,
        validate_comp_ids: true,
        max_msg_rate: 1000,
    }
}

/// A time well past the moment the session's timers were last set.
fn much_later(session: &Session) -> MonoTime {
    MonoTime::from_nanos(session.now().nanos + Duration::from_secs(10).nanos)
}

#[test]
fn test_session_initial_state() {
    let session = Session::new(test_config());
    assert_eq!(session.state(), SessionState::Disconnected);
    assert_eq!(session.expected_inbound_seq_num(), 1);
    assert_eq!(session.current_outbound_seq_num(), 1);
}

#[test]
fn test_session_connect_logon_flow() {
    let mut session = Session::new(test_config());

    session.on_connected();
    assert_eq!(session.state(), SessionState::LogonSent);

    session.on_logon();
    assert_eq!(session.state(), SessionState::Active);
}

#[test]
fn test_session_sequence_numbers() {
    let mut session = Session::new(test_config());
    session.on_connected();
    session.on_logon();

    assert_eq!(session.next_outbound_seq_num(), 1);
    assert_eq!(session.next_outbound_seq_num(), 2);
    assert_eq!(session.next_outbound_seq_num(), 3);

    assert!(session.validate_inbound_seq(1).is_ok());
    assert!(session.validate_inbound_seq(2).is_ok());
    assert_eq!(session.expected_inbound_seq_num(), 3);
}

#[test]
fn test_session_gap_detection() {
    let mut session = Session::new(test_config());
    session.on_connected();
    session.on_logon();

    assert!(session.validate_inbound_seq(1).is_ok());
    // Gap: expected 2, received 5
    let result = session.validate_inbound_seq(5);
    assert_eq!(result, Err((2, 5)));
    assert_eq!(session.state(), SessionState::Resending);
}

#[test]
fn test_session_disconnect_reconnect() {
    let mut session = Session::new(test_config());
    session.on_connected();
    session.on_logon();
    session.on_disconnected();

    assert_eq!(session.state(), SessionState::Disconnected);
    assert!(session.should_reconnect());

    session.on_reconnect_attempt();
    assert_eq!(session.state(), SessionState::Connecting);
}

#[test]
fn test_session_max_reconnect_attempts() {
    let mut session = Session::new(test_config());

    for _ in 0..5 {
        session.on_reconnect_attempt();
        session.on_disconnected();
    }

    assert!(!session.should_reconnect());
}

#[test]
fn test_session_reset_sequences() {
    let mut session = Session::new(test_config());
    session.next_outbound_seq_num();
    session.next_outbound_seq_num();
    assert_eq!(session.current_outbound_seq_num(), 3);

    session.reset_sequences();
    assert_eq!(session.current_outbound_seq_num(), 1);
    assert_eq!(session.expected_inbound_seq_num(), 1);
}

#[test]
fn test_session_rate_limit() {
    let mut config = test_config();
    config.max_msg_rate = 3;
    let mut session = Session::new(config);

    assert!(session.check_rate_limit());
    assert!(session.check_rate_limit());
    assert!(session.check_rate_limit());
    assert!(!session.check_rate_limit());
}

#[test]
fn test_acceptor_session() {
    let mut config = test_config();
    config.role = SessionRole::Acceptor;
    let mut session = Session::new(config);

    session.on_connected();
    assert_eq!(session.state(), SessionState::Connecting);
    assert!(!session.should_reconnect());
}

#[test]
fn test_validate_logon_success() {
    let session = Session::new(test_config());
    let result = session.validate_logon(Some("FIX.4.4"), Some("TARGET"), Some("SENDER"), None);
    assert_eq!(result, Ok(false));
}

#[test]
fn test_validate_logon_bad_begin_string() {
    let session = Session::new(test_config());
    let result = session.validate_logon(Some("FIX.4.2"), Some("TARGET"), Some("SENDER"), None);
    assert!(result.is_err());
    assert!(result.unwrap_err().contains("BeginString mismatch"));
}

#[test]
fn test_validate_logon_bad_sender_comp_id() {
    let session = Session::new(test_config());
    let result = session.validate_logon(Some("FIX.4.4"), Some("WRONG"), Some("SENDER"), None);
    assert!(result.is_err());
    assert!(result.unwrap_err().contains("SenderCompID mismatch"));
}

#[test]
fn test_validate_logon_bad_target_comp_id() {
    let session = Session::new(test_config());
    let result = session.validate_logon(Some("FIX.4.4"), Some("TARGET"), Some("WRONG"), None);
    assert!(result.is_err());
    assert!(result.unwrap_err().contains("TargetCompID mismatch"));
}

#[test]
fn test_validate_logon_missing_begin_string() {
    let session = Session::new(test_config());
    let result = session.validate_logon(None, Some("TARGET"), Some("SENDER"), None);
    assert!(result.is_err());
    assert!(result.unwrap_err().contains("Missing BeginString"));
}

#[test]
fn test_validate_logon_skip_comp_id_validation() {
    let mut config = test_config();
    config.validate_comp_ids = false;
    let session = Session::new(config);
    let result = session.validate_logon(Some("FIX.4.4"), Some("ANYTHING"), Some("ANYTHING"), None);
    assert_eq!(result, Ok(false));
}

#[test]
fn test_validate_logon_reset_seq_num_flag() {
    let session = Session::new(test_config());
    let result =
        session.validate_logon(Some("FIX.4.4"), Some("TARGET"), Some("SENDER"), Some(b"Y"));
    assert_eq!(result, Ok(true));
}

#[test]
fn test_validate_logon_reset_seq_num_flag_no() {
    let session = Session::new(test_config());
    let result =
        session.validate_logon(Some("FIX.4.4"), Some("TARGET"), Some("SENDER"), Some(b"N"));
    assert_eq!(result, Ok(false));
}

#[test]
fn test_logon_with_reset() {
    let mut session = Session::new(test_config());
    session.next_outbound_seq_num();
    session.next_outbound_seq_num();
    assert_eq!(session.current_outbound_seq_num(), 3);

    session.on_logon_with_reset();
    assert_eq!(session.state(), SessionState::Active);
    assert_eq!(session.current_outbound_seq_num(), 1);
    assert_eq!(session.expected_inbound_seq_num(), 1);
}

/// Brings an Active session with a 10ms heartbeat interval to a pending
/// TestRequest whose id is the one returned.
fn session_with_pending_test_request() -> (Session, Vec<u8>) {
    let mut config = test_config();
    config.heartbeat_interval = Duration::from_millis(10);
    let mut session = Session::new(config);
    session.on_connected();
    session.on_logon();
    let later = much_later(&session);
    match session.check_heartbeat(later) {
        SessionAction::SendTestRequest { test_req_id } => (session, test_req_id),
        other => panic!("Expected SendTestRequest, got {other:?}"),
    }
}

#[test]
fn test_heartbeat_received_clears_matching_test_req() {
    let (mut session, id) = session_with_pending_test_request();
    assert_eq!(id, b"TR-1".to_vec());
    assert!(session.test_request_pending());

    session.on_heartbeat_received(Some(b"TR-1"));
    assert!(!session.test_request_pending());
}

#[test]
fn test_heartbeat_received_ignores_mismatched_test_req() {
    let (mut session, _) = session_with_pending_test_request();

    session.on_heartbeat_received(Some(b"TR-WRONG"));
    assert!(session.test_request_pending());
}

#[test]
fn test_heartbeat_no_id_clears_pending() {
    let (mut session, _) = session_with_pending_test_request();

    session.on_heartbeat_received(None);
    assert!(!session.test_request_pending());
}

#[test]
fn test_on_test_request_received_echoes_id() {
    let mut session = Session::new(test_config());
    session.on_connected();
    session.on_logon();

    let action = session.on_test_request_received(b"REQ-42");
    assert_eq!(action, SessionAction::SendHeartbeat { test_req_id: Some(b"REQ-42".to_vec()) });
}

#[test]
fn test_check_heartbeat_sends_test_request_on_timeout() {
    let mut config = test_config();
    config.heartbeat_interval = Duration::from_millis(10);
    let mut session = Session::new(config);
    session.on_connected();
    session.on_logon();

    // Nothing received for 10s, beyond heartbeat_interval + 5s grace.
    let later = much_later(&session);
    let action = session.check_heartbeat(later);
    match action {
        SessionAction::SendTestRequest { test_req_id } => {
            assert!(!test_req_id.is_empty());
            assert!(session.test_request_pending());
        }
        other => panic!("Expected SendTestRequest, got {other:?}"),
    }
}

#[test]
fn test_check_heartbeat_disconnects_after_unanswered_test_req() {
    let (mut session, _) = session_with_pending_test_request();

    let later = much_later(&session);
    let action = session.check_heartbeat(later);
    assert_eq!(action, SessionAction::Disconnect);
}

// ---------------------------------------------------------------------------
// Further behaviour
// ---------------------------------------------------------------------------

#[test]
fn default_config_values() {
    let c = SessionConfig::default();
    assert_eq!(c.fix_version, "FIX.4.4");
    assert_eq!(c.role, SessionRole::Initiator);
    assert_eq!(c.heartbeat_interval, Duration::from_secs(30));
    assert_eq!(c.reconnect_interval, Duration::from_secs(1));
    assert_eq!(c.max_reconnect_attempts, 0);
    assert_eq!(c.sequence_reset_policy, SequenceResetPolicy::Daily);
    assert!(c.validate_comp_ids);
    assert_eq!(c.max_msg_rate, 50_000);
}

#[test]
fn validate_logon_missing_comp_ids_and_messages() {
    let session = Session::new(test_config());
    assert_eq!(
        session.validate_logon(Some("FIX.4.4"), None, Some("SENDER"), None),
        Err("Missing SenderCompID".to_string())
    );
    assert_eq!(
        session.validate_logon(Some("FIX.4.4"), Some("TARGET"), None, None),
        Err("Missing TargetCompID".to_string())
    );
    assert_eq!(
        session.validate_logon(Some("FIX.4.2"), Some("TARGET"), Some("SENDER"), None),
        Err("BeginString mismatch: expected FIX.4.4, received FIX.4.2".to_string())
    );
    assert_eq!(
        session.validate_logon(Some("FIX.4.4"), Some("X"), Some("SENDER"), None),
        Err("SenderCompID mismatch: expected TARGET, received X".to_string())
    );
    assert_eq!(
        session.validate_logon(Some("FIX.4.4"), Some("TARGET"), Some("Y"), Some(b"YY")),
        Err("TargetCompID mismatch: expected SENDER, received Y".to_string())
    );
    assert_eq!(
        session.validate_logon(Some("FIX.4.4"), Some("TARGET"), Some("SENDER"), Some(b"YY")),
        Ok(false)
    );
}

#[test]
fn inbound_duplicates_are_ignored_and_gap_fill_resumes() {
    let mut session = Session::new(test_config());
    session.on_connected();
    session.on_logon();
    assert_eq!(session.validate_inbound_seq(1), Ok(()));
    assert_eq!(session.validate_inbound_seq(1), Ok(()));
    assert_eq!(session.expected_inbound_seq_num(), 2);
    assert_eq!(session.validate_inbound_seq(4), Err((2, 4)));
    assert!(session.is_resending());
    session.on_gap_filled(4);
    assert_eq!(session.state(), SessionState::Active);
    assert_eq!(session.validate_inbound_seq(4), Ok(()));
    assert_eq!(session.expected_inbound_seq_num(), 5);
}

#[test]
fn heartbeat_sent_after_quiet_interval_only_when_active() {
    let mut session = Session::new(test_config());
    let t0 = session.now();
    assert_eq!(session.check_heartbeat(MonoTime::from_nanos(t0.nanos + 60_000_000_000)), SessionAction::NoAction);
    session.on_connected_at(t0);
    session.on_logon_at(t0);
    // 31s of silence from us, peer heard from at 30s.
    session.on_message_received_at(MonoTime::from_nanos(t0.nanos + 30_000_000_000));
    let t1 = MonoTime::from_nanos(t0.nanos + 31_000_000_000);
    assert_eq!(session.check_heartbeat(t1), SessionAction::SendHeartbeat { test_req_id: None });
    // Just sent: no heartbeat due.
    assert_eq!(session.check_heartbeat(t1), SessionAction::NoAction);
}

#[test]
fn logout_timeout_after_ten_seconds() {
    let mut session = Session::new(test_config());
    let t0 = session.now();
    assert!(!session.check_logout_timeout(t0));
    session.on_logout_sent_at(t0);
    assert_eq!(session.state(), SessionState::LogoutPending);
    assert!(!session.check_logout_timeout(MonoTime::from_nanos(t0.nanos + 9_999_999_999)));
    assert!(session.check_logout_timeout(MonoTime::from_nanos(t0.nanos + 10_000_000_000)));
    session.on_logout_complete();
    assert_eq!(session.state(), SessionState::LogoutSent);
    assert!(!session.check_logout_timeout(MonoTime::from_nanos(t0.nanos + 20_000_000_000)));
}

#[test]
fn rate_limit_window_restarts_after_a_second() {
    let mut config = test_config();
    config.max_msg_rate = 2;
    let mut session = Session::new(config);
    let t0 = session.now();
    assert!(session.check_rate_limit_at(t0));
    assert!(session.check_rate_limit_at(t0));
    assert!(!session.check_rate_limit_at(t0));
    assert_eq!(session.messages_in_window(), 3);
    let t1 = MonoTime::from_nanos(t0.nanos + 1_000_000_000);
    assert!(session.check_rate_limit_at(t1));
    assert_eq!(session.messages_in_window(), 1);
}

#[test]
fn reconnect_without_limit_and_counter_reset_on_connect() {
    let mut config = test_config();
    config.max_reconnect_attempts = 0;
    let mut session = Session::new(config);
    for _ in 0..10 {
        session.on_reconnect_attempt();
        session.on_disconnected();
    }
    assert!(session.should_reconnect());
    assert_eq!(session.reconnect_attempts(), 10);
    session.on_connected();
    assert_eq!(session.reconnect_attempts(), 0);
}

#[test]
fn second_test_request_id_counts_up() {
    let (mut session, id) = session_with_pending_test_request();
    assert_eq!(id, b"TR-1".to_vec());
    session.on_heartbeat_received(Some(b"TR-1"));
    let later = MonoTime::from_nanos(much_later(&session).nanos + 10_000_000_000);
    match session.check_heartbeat(later) {
        SessionAction::SendTestRequest { test_req_id } => assert_eq!(test_req_id, b"TR-2".to_vec()),
        other => panic!("Expected SendTestRequest, got {other:?}"),
    }
    assert_eq!(session.test_requests_sent(), 2);
}
