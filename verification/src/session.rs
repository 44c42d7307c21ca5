//! FIX session state machine.
//!
//! Manages the session lifecycle: logon, heartbeat, sequencing, gap
//! detection, logout and reconnection. Every transition is a function of the
//! state, the event and the time it happens at; the methods that read the
//! clock themselves have a twin ending in `_at` that takes the time.
use vstd::prelude::*;

use crate::bytes::{bytes_eq, is_flag_yes, str_eq};
use crate::serializer::{dec_digits, u64_digits};
use crate::time::{elapsed_nanos, Clock, Duration, MonoTime};

verus! {

/// Session state machine states.
#[derive(Debug, Clone, Copy, PartialEq, Eq, Structural)]
pub enum SessionState {
    Disconnected,
    Connecting,
    LogonSent,
    Active,
    /// Waiting for gap fill / resend response from peer.
    Resending,
    /// Logout sent, waiting for the peer's Logout response (or a timeout).
    LogoutPending,
    /// The logout exchange is complete.
    LogoutSent,
}

/// Session role.
#[derive(Debug, Clone, Copy, PartialEq, Eq, Structural)]
pub enum SessionRole {
    Initiator,
    Acceptor,
}

/// Sequence number reset policy.
#[derive(Debug, Clone, Copy, PartialEq, Eq, Structural)]
pub enum SequenceResetPolicy {
    Always,
    Daily,
    Weekly,
    Never,
}

/// Session configuration.
#[derive(Debug, Clone)]
pub struct SessionConfig {
    pub session_id: String,
    pub fix_version: String,
    pub sender_comp_id: String,
    pub target_comp_id: String,
    pub role: SessionRole,
    pub heartbeat_interval: Duration,
    pub reconnect_interval: Duration,
    pub max_reconnect_attempts: u32,
    pub sequence_reset_policy: SequenceResetPolicy,
    pub validate_comp_ids: bool,
    pub max_msg_rate: u32,
}

impl Default for SessionConfig {
    fn default() -> (c: Self)
        ensures
            c.session_id@ == Seq::<char>::empty(),
            c.fix_version@ == "FIX.4.4"@,
            c.sender_comp_id@ == Seq::<char>::empty(),
            c.target_comp_id@ == Seq::<char>::empty(),
            c.role == SessionRole::Initiator,
            c.heartbeat_interval.nanos == 30_000_000_000,
            c.reconnect_interval.nanos == 1_000_000_000,
            c.max_reconnect_attempts == 0,
            c.sequence_reset_policy == SequenceResetPolicy::Daily,
            c.validate_comp_ids,
            c.max_msg_rate == 50_000,
    {
        SessionConfig {
            session_id: String::new(),
            fix_version: String::from_str("FIX.4.4"),
            sender_comp_id: String::new(),
            target_comp_id: String::new(),
            role: SessionRole::Initiator,
            heartbeat_interval: Duration::from_secs(30),
            reconnect_interval: Duration::from_secs(1),
            max_reconnect_attempts: 0,
            sequence_reset_policy: SequenceResetPolicy::Daily,
            validate_comp_ids: true,
            max_msg_rate: 50_000,
        }
    }
}

/// Actions that the session state machine requests the engine to perform.
#[derive(Debug, Clone, PartialEq, Eq)]
pub enum SessionAction {
    /// Send a Heartbeat, optionally echoing a TestReqID.
    SendHeartbeat { test_req_id: Option<Vec<u8>> },
    /// Send a TestRequest with the given ID.
    SendTestRequest { test_req_id: Vec<u8> },
    /// Send a ResendRequest for the given sequence range.
    SendResendRequest { begin_seq: u64, end_seq: u64 },
    /// Send a Reject for the given reference sequence number.
    SendReject { ref_seq_num: u64, reason: u32, text: Option<String> },
    /// Send a Logout with optional reason text.
    SendLogout { text: Option<String> },
    /// Disconnect the transport.
    Disconnect,
    /// No action needed.
    NoAction,
}

/// What a `SessionAction` asks for, with its bytes and text as sequences.
pub ghost enum ActionModel {
    SendHeartbeat { test_req_id: Option<Seq<u8>> },
    SendTestRequest { test_req_id: Seq<u8> },
    SendResendRequest { begin_seq: u64, end_seq: u64 },
    SendReject { ref_seq_num: u64, reason: u32, text: Option<Seq<char>> },
    SendLogout { text: Option<Seq<char>> },
    Disconnect,
    NoAction,
}

impl View for SessionAction {
    type V = ActionModel;

    open spec fn view(&self) -> ActionModel {
        match self {
            SessionAction::SendHeartbeat { test_req_id } => ActionModel::SendHeartbeat {
                test_req_id: match test_req_id {
                    Some(v) => Some(v@),
                    None => None,
                },
            },
            SessionAction::SendTestRequest { test_req_id } => ActionModel::SendTestRequest {
                test_req_id: test_req_id@,
            },
            SessionAction::SendResendRequest { begin_seq, end_seq } => ActionModel::SendResendRequest {
                begin_seq: *begin_seq,
                end_seq: *end_seq,
            },
            SessionAction::SendReject { ref_seq_num, reason, text } => ActionModel::SendReject {
                ref_seq_num: *ref_seq_num,
                reason: *reason,
                text: match text {
                    Some(t) => Some(t@),
                    None => None,
                },
            },
            SessionAction::SendLogout { text } => ActionModel::SendLogout {
                text: match text {
                    Some(t) => Some(t@),
                    None => None,
                },
            },
            SessionAction::Disconnect => ActionModel::Disconnect,
            SessionAction::NoAction => ActionModel::NoAction,
        }
    }
}

/// FIX session: state, sequence numbers, heartbeat and rate-limit timers.
pub struct Session {
    config: SessionConfig,
    state: SessionState,
    outbound_seq_num: u64,
    inbound_seq_num: u64,
    last_sent_time: MonoTime,
    last_received_time: MonoTime,
    test_request_pending: bool,
    test_request_id: Option<Vec<u8>>,
    reconnect_attempts: u32,
    test_req_counter: u64,
    msg_count_window: u32,
    window_start: MonoTime,
    logout_sent_time: Option<MonoTime>,
    clock: Clock,
}

/// The state of a session as its contracts speak of it.
pub ghost struct SessionModel {
    pub config: SessionConfig,
    pub state: SessionState,
    pub outbound_seq_num: u64,
    pub inbound_seq_num: u64,
    pub last_sent_time: MonoTime,
    pub last_received_time: MonoTime,
    pub test_request_pending: bool,
    pub test_request_id: Option<Seq<u8>>,
    pub reconnect_attempts: u32,
    pub test_req_counter: u64,
    pub msg_count_window: u32,
    pub window_start: MonoTime,
    pub logout_sent_time: Option<MonoTime>,
}

impl View for Session {
    type V = SessionModel;

    closed spec fn view(&self) -> SessionModel {
        SessionModel {
            config: self.config,
            state: self.state,
            outbound_seq_num: self.outbound_seq_num,
            inbound_seq_num: self.inbound_seq_num,
            last_sent_time: self.last_sent_time,
            last_received_time: self.last_received_time,
            test_request_pending: self.test_request_pending,
            test_request_id: match self.test_request_id {
                Some(v) => Some(v@),
                None => None,
            },
            reconnect_attempts: self.reconnect_attempts,
            test_req_counter: self.test_req_counter,
            msg_count_window: self.msg_count_window,
            window_start: self.window_start,
            logout_sent_time: self.logout_sent_time,
        }
    }
}

/// Ten seconds: how long a sent Logout waits for the peer's answer.
pub open spec fn logout_timeout_nanos() -> nat {
    10_000_000_000
}

/// How long a sent Logout waits for the peer's answer, in nanoseconds.
pub const LOGOUT_TIMEOUT_NANOS: u128 = 10_000_000_000;

/// The grace added to the heartbeat interval before the peer counts as
/// silent: five seconds.
pub open spec fn receive_grace_nanos() -> nat {
    5_000_000_000
}

/// One second: the length of a rate-limit window.
pub open spec fn rate_window_nanos() -> nat {
    1_000_000_000
}

/// The TestReqID of the `n`-th TestRequest: `TR-` and `n` in decimal.
pub open spec fn test_req_id_bytes(n: u64) -> Seq<u8> {
    seq![84u8, 82u8, 45u8] + dec_digits(n as nat)
}

/// Why a Logon is refused: the text that goes into the Logout.
pub open spec fn mismatch_text(field: Seq<char>, expected: Seq<char>, received: Seq<char>) -> Seq<
    char,
> {
    field + " mismatch: expected "@ + expected + ", received "@ + received
}

/// The view of optional text.
pub open spec fn opt_text(o: Option<&str>) -> Option<Seq<char>> {
    match o {
        Some(s) => Some(s@),
        None => None,
    }
}

/// The view of optional bytes.
pub open spec fn opt_seq(o: Option<&[u8]>) -> Option<Seq<u8>> {
    match o {
        Some(s) => Some(s@),
        None => None,
    }
}

impl SessionModel {
    /// The state of a new session made with `config` at time `now`.
    pub open spec fn initial(config: SessionConfig, now: MonoTime) -> SessionModel {
        SessionModel {
            config,
            state: SessionState::Disconnected,
            outbound_seq_num: 1,
            inbound_seq_num: 1,
            last_sent_time: now,
            last_received_time: now,
            test_request_pending: false,
            test_request_id: None,
            reconnect_attempts: 0,
            test_req_counter: 0,
            msg_count_window: 0,
            window_start: now,
            logout_sent_time: None,
        }
    }

    /// The transport connected at `now`: an initiator has sent its Logon, an
    /// acceptor waits for one. Only from Disconnected or Connecting.
    pub open spec fn connected(self, now: MonoTime) -> SessionModel {
        if self.state == SessionState::Disconnected || self.state == SessionState::Connecting {
            SessionModel {
                state: if self.config.role == SessionRole::Initiator {
                    SessionState::LogonSent
                } else {
                    SessionState::Connecting
                },
                last_received_time: now,
                last_sent_time: now,
                reconnect_attempts: 0,
                ..self
            }
        } else {
            self
        }
    }

    /// The Logon was accepted at `now`.
    pub open spec fn logged_on(self, now: MonoTime) -> SessionModel {
        SessionModel {
            state: SessionState::Active,
            last_received_time: now,
            test_request_pending: false,
            ..self
        }
    }

    /// Both sequence numbers back to 1.
    pub open spec fn sequences_reset(self) -> SessionModel {
        SessionModel { outbound_seq_num: 1, inbound_seq_num: 1, ..self }
    }

    /// What validating an inbound Logon gives: `Ok(reset requested)` or the
    /// reason for refusing it.
    pub open spec fn logon_verdict(
        self,
        begin_string: Option<Seq<char>>,
        sender_comp_id: Option<Seq<char>>,
        target_comp_id: Option<Seq<char>>,
        reset_seq_num_flag: Option<Seq<u8>>,
    ) -> Result<bool, Seq<char>> {
        let c = self.config;
        match begin_string {
            None => Err("Missing BeginString"@),
            Some(bs) => if bs != c.fix_version@ {
                Err(mismatch_text("BeginString"@, c.fix_version@, bs))
            } else if c.validate_comp_ids && sender_comp_id is None {
                Err("Missing SenderCompID"@)
            } else if c.validate_comp_ids && sender_comp_id->0 != c.target_comp_id@ {
                Err(mismatch_text("SenderCompID"@, c.target_comp_id@, sender_comp_id->0))
            } else if c.validate_comp_ids && target_comp_id is None {
                Err("Missing TargetCompID"@)
            } else if c.validate_comp_ids && target_comp_id->0 != c.sender_comp_id@ {
                Err(mismatch_text("TargetCompID"@, c.sender_comp_id@, target_comp_id->0))
            } else {
                Ok(reset_seq_num_flag == Some(seq![89u8]))
            },
        }
    }

    /// Checking the inbound sequence number `received` at `now`: in order
    /// advances the expected number; ahead of it is a gap from the expected
    /// number to `received` and the session starts resending; behind it is
    /// a duplicate and changes nothing.
    pub open spec fn inbound_checked(self, received: u64, now: MonoTime) -> (
        SessionModel,
        Result<(), (u64, u64)>,
    ) {
        if received == self.inbound_seq_num {
            (
                SessionModel {
                    inbound_seq_num: (self.inbound_seq_num + 1) as u64,
                    last_received_time: now,
                    ..self
                },
                Ok(()),
            )
        } else if received > self.inbound_seq_num {
            (
                SessionModel { state: SessionState::Resending, ..self },
                Err((self.inbound_seq_num, received)),
            )
        } else {
            (self, Ok(()))
        }
    }

    /// The gap is filled up to `new_seq`.
    pub open spec fn gap_filled(self, new_seq: u64) -> SessionModel {
        SessionModel { inbound_seq_num: new_seq, state: SessionState::Active, ..self }
    }

    /// A Logout was sent at `now`.
    pub open spec fn logout_sent(self, now: MonoTime) -> SessionModel {
        SessionModel {
            state: SessionState::LogoutPending,
            logout_sent_time: Some(now),
            ..self
        }
    }

    /// Whether the Logout sent has gone unanswered for the logout timeout at
    /// `now`.
    pub open spec fn logout_timed_out(self, now: MonoTime) -> bool {
        self.state == SessionState::LogoutPending && (self.logout_sent_time matches Some(
            t,
        ) && elapsed_nanos(now, t) >= logout_timeout_nanos())
    }

    /// The logout exchange completed.
    pub open spec fn logout_completed(self) -> SessionModel {
        SessionModel { state: SessionState::LogoutSent, logout_sent_time: None, ..self }
    }

    /// The transport went away.
    pub open spec fn disconnected(self) -> SessionModel {
        SessionModel {
            state: SessionState::Disconnected,
            test_request_pending: false,
            logout_sent_time: None,
            ..self
        }
    }

    /// How long the peer may stay silent: the heartbeat interval and the
    /// grace.
    pub open spec fn receive_timeout(self) -> nat {
        (self.config.heartbeat_interval.nanos + receive_grace_nanos()) as nat
    }

    /// Whether the peer has been silent for the receive timeout at `now`.
    pub open spec fn peer_silent(self, now: MonoTime) -> bool {
        elapsed_nanos(now, self.last_received_time) >= self.receive_timeout()
    }

    /// Whether the heartbeat check at `now` sends a new TestRequest.
    pub open spec fn sends_test_request(self, now: MonoTime) -> bool {
        self.state == SessionState::Active && self.peer_silent(now) && !self.test_request_pending
    }

    /// The periodic heartbeat check at `now`. Only an Active session acts: a
    /// silent peer gets a TestRequest, or, with one already unanswered, the
    /// connection is dropped; otherwise a Heartbeat goes out once nothing was
    /// sent for the heartbeat interval.
    pub open spec fn heartbeat_checked(self, now: MonoTime) -> (SessionModel, ActionModel) {
        if self.state != SessionState::Active {
            (self, ActionModel::NoAction)
        } else if self.peer_silent(now) {
            if self.test_request_pending {
                (self, ActionModel::Disconnect)
            } else {
                let n = (self.test_req_counter + 1) as u64;
                (
                    SessionModel {
                        test_req_counter: n,
                        test_request_pending: true,
                        test_request_id: Some(test_req_id_bytes(n)),
                        ..self
                    },
                    ActionModel::SendTestRequest { test_req_id: test_req_id_bytes(n) },
                )
            }
        } else if elapsed_nanos(now, self.last_sent_time) >= self.config.heartbeat_interval.nanos {
            (SessionModel { last_sent_time: now, ..self }, ActionModel::SendHeartbeat { test_req_id: None })
        } else {
            (self, ActionModel::NoAction)
        }
    }

    /// A message was sent at `now`.
    pub open spec fn message_sent(self, now: MonoTime) -> SessionModel {
        SessionModel { last_sent_time: now, ..self }
    }

    /// A message was received at `now`.
    pub open spec fn message_received(self, now: MonoTime) -> SessionModel {
        SessionModel { last_received_time: now, ..self }
    }

    /// A Heartbeat carrying `test_req_id` arrived. It answers the pending
    /// TestRequest when it echoes its id, or carries no id at all.
    pub open spec fn heartbeat_received(self, test_req_id: Option<Seq<u8>>) -> SessionModel {
        if self.test_request_pending && (test_req_id is None || (self.test_request_id is Some
            && self.test_request_id == test_req_id)) {
            SessionModel { test_request_pending: false, test_request_id: None, ..self }
        } else {
            self
        }
    }

    /// Whether a reconnect should be attempted: a disconnected initiator
    /// that has not used up its attempts (no limit when the limit is 0).
    pub open spec fn reconnect_wanted(self) -> bool {
        &&& self.state == SessionState::Disconnected
        &&& self.config.role == SessionRole::Initiator
        &&& !(self.config.max_reconnect_attempts > 0 && self.reconnect_attempts
            >= self.config.max_reconnect_attempts)
    }

    /// A reconnect is being attempted.
    pub open spec fn reconnect_attempted(self) -> SessionModel {
        SessionModel {
            reconnect_attempts: (self.reconnect_attempts + 1) as u32,
            state: SessionState::Connecting,
            ..self
        }
    }

    /// Whether the rate-limit window restarts at `now`.
    pub open spec fn window_expired(self, now: MonoTime) -> bool {
        elapsed_nanos(now, self.window_start) >= rate_window_nanos()
    }

    /// Counting one inbound message at `now` against the rate limit, and
    /// whether it is allowed: at most `max_msg_rate` per window.
    pub open spec fn rate_checked(self, now: MonoTime) -> (SessionModel, bool) {
        let (start, count) = if self.window_expired(now) {
            (now, 0nat)
        } else {
            (self.window_start, self.msg_count_window as nat)
        };
        (
            SessionModel { msg_count_window: (count + 1) as u32, window_start: start, ..self },
            count + 1 <= self.config.max_msg_rate,
        )
    }
}

impl Session {
    /// A new session with the given configuration, disconnected, with both
    /// sequence numbers at 1 and its timers started now.
    pub fn new(config: SessionConfig) -> (s: Self)
        ensures
            exists|t: MonoTime| s@ == SessionModel::initial(config, t),
    {
        let clock = Clock::start();
        let now = clock.now();
        let s = Session {
            config,
            state: SessionState::Disconnected,
            outbound_seq_num: 1,
            inbound_seq_num: 1,
            last_sent_time: now,
            last_received_time: now,
            test_request_pending: false,
            test_request_id: None,
            reconnect_attempts: 0,
            test_req_counter: 0,
            msg_count_window: 0,
            window_start: now,
            logout_sent_time: None,
            clock,
        };
        assert(s@ == SessionModel::initial(s@.config, now));
        s
    }

    /// The current time on the session's clock.
    pub fn now(&self) -> (t: MonoTime) {
        self.clock.now()
    }

    /// The current session state.
    pub fn state(&self) -> (st: SessionState)
        ensures
            st == self@.state,
    {
        self.state
    }

    /// The session configuration.
    pub fn config(&self) -> (c: &SessionConfig)
        ensures
            *c == self@.config,
    {
        &self.config
    }

    /// The next outbound sequence number; the counter moves past it.
    pub fn next_outbound_seq_num(&mut self) -> (seq: u64)
        requires
            old(self)@.outbound_seq_num < u64::MAX,
        ensures
            seq == old(self)@.outbound_seq_num,
            final(self)@ == (SessionModel { outbound_seq_num: (seq + 1) as u64, ..old(self)@ }),
    {
        let seq = self.outbound_seq_num;
        self.outbound_seq_num = seq + 1;
        seq
    }

    /// The expected inbound sequence number.
    pub fn expected_inbound_seq_num(&self) -> (seq: u64)
        ensures
            seq == self@.inbound_seq_num,
    {
        self.inbound_seq_num
    }

    /// The current outbound sequence number, without moving past it.
    pub fn current_outbound_seq_num(&self) -> (seq: u64)
        ensures
            seq == self@.outbound_seq_num,
    {
        self.outbound_seq_num
    }

    /// How many reconnects have been attempted since the last connect.
    pub fn reconnect_attempts(&self) -> (n: u32)
        ensures
            n == self@.reconnect_attempts,
    {
        self.reconnect_attempts
    }

    /// How many TestRequests the heartbeat check has sent.
    pub fn test_requests_sent(&self) -> (n: u64)
        ensures
            n == self@.test_req_counter,
    {
        self.test_req_counter
    }

    /// How many inbound messages the current rate-limit window counted.
    pub fn messages_in_window(&self) -> (n: u32)
        ensures
            n == self@.msg_count_window,
    {
        self.msg_count_window
    }

    /// Whether a TestRequest is waiting for its Heartbeat.
    pub fn test_request_pending(&self) -> (b: bool)
        ensures
            b == self@.test_request_pending,
    {
        self.test_request_pending
    }

    /// The transport connected at `now`.
    pub fn on_connected_at(&mut self, now: MonoTime)
        ensures
            final(self)@ == old(self)@.connected(now),
    {
        match self.state {
            SessionState::Disconnected | SessionState::Connecting => {
                if self.config.role == SessionRole::Initiator {
                    self.state = SessionState::LogonSent;
                } else {
                    self.state = SessionState::Connecting;
                }
                self.last_received_time = now;
                self.last_sent_time = now;
                self.reconnect_attempts = 0;
            },
            _ => {},
        }
    }

    /// The transport connected, now.
    pub fn on_connected(&mut self)
        ensures
            exists|t: MonoTime| final(self)@ == old(self)@.connected(t),
    {
        let now = self.clock.now();
        self.on_connected_at(now);
    }

    /// The Logon was accepted at `now`: the session is Active.
    pub fn on_logon_at(&mut self, now: MonoTime)
        ensures
            final(self)@ == old(self)@.logged_on(now),
    {
        self.state = SessionState::Active;
        self.last_received_time = now;
        self.test_request_pending = false;
    }

    /// The Logon was accepted, now.
    pub fn on_logon(&mut self)
        ensures
            exists|t: MonoTime| final(self)@ == old(self)@.logged_on(t),
    {
        let now = self.clock.now();
        self.on_logon_at(now);
    }

    /// Validates an inbound Logon against the configuration: BeginString,
    /// then (when configured) the CompIDs, which must mirror ours. Gives
    /// `Ok(true)` when the peer asks for a sequence reset (141=Y), `Ok(false)`
    /// otherwise, or the reason to refuse the Logon.
    pub fn validate_logon(
        &self,
        begin_string: Option<&str>,
        sender_comp_id: Option<&str>,
        target_comp_id: Option<&str>,
        reset_seq_num_flag: Option<&[u8]>,
    ) -> (r: Result<bool, String>)
        ensures
            match r {
                Ok(b) => self@.logon_verdict(
                    opt_text(begin_string),
                    opt_text(sender_comp_id),
                    opt_text(target_comp_id),
                    opt_seq(reset_seq_num_flag),
                ) == Ok::<bool, Seq<char>>(b),
                Err(e) => self@.logon_verdict(
                    opt_text(begin_string),
                    opt_text(sender_comp_id),
                    opt_text(target_comp_id),
                    opt_seq(reset_seq_num_flag),
                ) == Err::<bool, Seq<char>>(e@),
            },
    {
        match begin_string {
            None => {
                return Err(String::from_str("Missing BeginString"));
            },
            Some(bs) => {
                if !str_eq(bs, self.config.fix_version.as_str()) {
                    return Err(mismatch_message("BeginString", self.config.fix_version.as_str(), bs));
                }
            },
        }
        if self.config.validate_comp_ids {
            match sender_comp_id {
                None => {
                    return Err(String::from_str("Missing SenderCompID"));
                },
                Some(sender) => {
                    if !str_eq(sender, self.config.target_comp_id.as_str()) {
                        return Err(
                            mismatch_message("SenderCompID", self.config.target_comp_id.as_str(), sender),
                        );
                    }
                },
            }
            match target_comp_id {
                None => {
                    return Err(String::from_str("Missing TargetCompID"));
                },
                Some(target) => {
                    if !str_eq(target, self.config.sender_comp_id.as_str()) {
                        return Err(
                            mismatch_message("TargetCompID", self.config.sender_comp_id.as_str(), target),
                        );
                    }
                },
            }
        }
        Ok(is_flag_yes(reset_seq_num_flag))
    }

    /// Logon with a sequence reset at `now`: both sequence numbers go back to
    /// 1 and the session is Active.
    pub fn on_logon_with_reset_at(&mut self, now: MonoTime)
        ensures
            final(self)@ == old(self)@.sequences_reset().logged_on(now),
    {
        self.reset_sequences();
        self.on_logon_at(now);
    }

    /// Logon with a sequence reset, now.
    pub fn on_logon_with_reset(&mut self)
        ensures
            exists|t: MonoTime| final(self)@ == old(self)@.sequences_reset().logged_on(t),
    {
        let now = self.clock.now();
        self.on_logon_with_reset_at(now);
    }

    /// Checks the inbound sequence number `received_seq` at `now`: `Ok` when
    /// it is the expected one (which then advances) or an old one, and the
    /// gap `(expected, received)` when it is ahead.
    pub fn validate_inbound_seq_at(&mut self, received_seq: u64, now: MonoTime) -> (r: Result<
        (),
        (u64, u64),
    >)
        requires
            received_seq == old(self)@.inbound_seq_num ==> old(self)@.inbound_seq_num < u64::MAX,
        ensures
            (final(self)@, r) == old(self)@.inbound_checked(received_seq, now),
    {
        if received_seq == self.inbound_seq_num {
            self.inbound_seq_num = self.inbound_seq_num + 1;
            self.last_received_time = now;
            Ok(())
        } else if received_seq > self.inbound_seq_num {
            let gap_start = self.inbound_seq_num;
            self.state = SessionState::Resending;
            Err((gap_start, received_seq))
        } else {
            Ok(())
        }
    }

    /// Checks the inbound sequence number `received_seq`, now.
    pub fn validate_inbound_seq(&mut self, received_seq: u64) -> (r: Result<(), (u64, u64)>)
        requires
            received_seq == old(self)@.inbound_seq_num ==> old(self)@.inbound_seq_num < u64::MAX,
        ensures
            exists|t: MonoTime| (final(self)@, r) == old(self)@.inbound_checked(received_seq, t),
    {
        let now = self.clock.now();
        self.validate_inbound_seq_at(received_seq, now)
    }

    /// The gap is filled: `new_seq` is expected next and the session is
    /// Active again.
    pub fn on_gap_filled(&mut self, new_seq: u64)
        ensures
            final(self)@ == old(self)@.gap_filled(new_seq),
    {
        self.inbound_seq_num = new_seq;
        self.state = SessionState::Active;
    }

    /// A Logout was sent at `now`: the session waits for the answer.
    pub fn on_logout_sent_at(&mut self, now: MonoTime)
        ensures
            final(self)@ == old(self)@.logout_sent(now),
    {
        self.state = SessionState::LogoutPending;
        self.logout_sent_time = Some(now);
    }

    /// A Logout was sent, now.
    pub fn on_logout_sent(&mut self)
        ensures
            exists|t: MonoTime| final(self)@ == old(self)@.logout_sent(t),
    {
        let now = self.clock.now();
        self.on_logout_sent_at(now);
    }

    /// Whether the Logout sent has gone unanswered for too long at `now`.
    pub fn check_logout_timeout(&self, now: MonoTime) -> (b: bool)
        ensures
            b == self@.logout_timed_out(now),
    {
        if self.state != SessionState::LogoutPending {
            return false;
        }
        match self.logout_sent_time {
            Some(sent) => now.duration_since(sent).nanos >= LOGOUT_TIMEOUT_NANOS,
            None => false,
        }
    }

    /// The logout exchange is complete.
    pub fn on_logout_complete(&mut self)
        ensures
            final(self)@ == old(self)@.logout_completed(),
    {
        self.state = SessionState::LogoutSent;
        self.logout_sent_time = None;
    }

    /// The transport went away.
    pub fn on_disconnected(&mut self)
        ensures
            final(self)@ == old(self)@.disconnected(),
    {
        self.state = SessionState::Disconnected;
        self.test_request_pending = false;
        self.logout_sent_time = None;
    }

    /// Whether the session is recovering a gap.
    pub fn is_resending(&self) -> (b: bool)
        ensures
            b == (self@.state == SessionState::Resending),
    {
        self.state == SessionState::Resending
    }

    /// The periodic heartbeat check at `now`.
    pub fn check_heartbeat(&mut self, now: MonoTime) -> (a: SessionAction)
        requires
            old(self)@.config.heartbeat_interval.nanos + receive_grace_nanos() <= u128::MAX,
            old(self)@.sends_test_request(now) ==> old(self)@.test_req_counter < u64::MAX,
        ensures
            (final(self)@, a@) == old(self)@.heartbeat_checked(now),
    {
        if self.state != SessionState::Active {
            return SessionAction::NoAction;
        }
        let since_received = now.duration_since(self.last_received_time);
        let timeout = self.config.heartbeat_interval.nanos + 5_000_000_000u128;
        if since_received.nanos >= timeout {
            if self.test_request_pending {
                return SessionAction::Disconnect;
            } else {
                self.test_req_counter = self.test_req_counter + 1;
                let id = test_req_id(self.test_req_counter);
                self.test_request_pending = true;
                self.test_request_id = Some(id.clone());
                return SessionAction::SendTestRequest { test_req_id: id };
            }
        }
        let since_sent = now.duration_since(self.last_sent_time);
        if since_sent.nanos >= self.config.heartbeat_interval.nanos {
            self.last_sent_time = now;
            return SessionAction::SendHeartbeat { test_req_id: None };
        }
        SessionAction::NoAction
    }

    /// A message was sent at `now`.
    pub fn on_message_sent_at(&mut self, now: MonoTime)
        ensures
            final(self)@ == old(self)@.message_sent(now),
    {
        self.last_sent_time = now;
    }

    /// A message was sent, now.
    pub fn on_message_sent(&mut self)
        ensures
            exists|t: MonoTime| final(self)@ == old(self)@.message_sent(t),
    {
        let now = self.clock.now();
        self.on_message_sent_at(now);
    }

    /// A message was received at `now`. A pending TestRequest stays pending:
    /// only a Heartbeat answers it.
    pub fn on_message_received_at(&mut self, now: MonoTime)
        ensures
            final(self)@ == old(self)@.message_received(now),
    {
        self.last_received_time = now;
    }

    /// A message was received, now.
    pub fn on_message_received(&mut self)
        ensures
            exists|t: MonoTime| final(self)@ == old(self)@.message_received(t),
    {
        let now = self.clock.now();
        self.on_message_received_at(now);
    }

    /// A Heartbeat arrived, echoing `test_req_id` if it carries one.
    pub fn on_heartbeat_received(&mut self, test_req_id: Option<&[u8]>)
        ensures
            final(self)@ == old(self)@.heartbeat_received(opt_seq(test_req_id)),
    {
        if !self.test_request_pending {
            return;
        }
        let answers = match test_req_id {
            None => true,
            Some(received) => match &self.test_request_id {
                Some(expected) => bytes_eq(expected.as_slice(), received),
                None => false,
            },
        };
        if answers {
            self.test_request_pending = false;
            self.test_request_id = None;
        }
    }

    /// A TestRequest arrived: answer with a Heartbeat echoing its id.
    pub fn on_test_request_received(&mut self, test_req_id: &[u8]) -> (a: SessionAction)
        ensures
            a@ == (ActionModel::SendHeartbeat { test_req_id: Some(test_req_id@) }),
            final(self)@ == old(self)@,
    {
        let mut id: Vec<u8> = Vec::new();
        id.extend_from_slice(test_req_id);
        assert(id@ =~= test_req_id@);
        SessionAction::SendHeartbeat { test_req_id: Some(id) }
    }

    /// Whether a reconnect should be attempted.
    pub fn should_reconnect(&self) -> (b: bool)
        ensures
            b == self@.reconnect_wanted(),
    {
        if self.state != SessionState::Disconnected {
            return false;
        }
        if self.config.role != SessionRole::Initiator {
            return false;
        }
        if self.config.max_reconnect_attempts > 0 && self.reconnect_attempts
            >= self.config.max_reconnect_attempts {
            return false;
        }
        true
    }

    /// A reconnect is being attempted.
    pub fn on_reconnect_attempt(&mut self)
        requires
            old(self)@.reconnect_attempts < u32::MAX,
        ensures
            final(self)@ == old(self)@.reconnect_attempted(),
    {
        self.reconnect_attempts = self.reconnect_attempts + 1;
        self.state = SessionState::Connecting;
    }

    /// Both sequence numbers back to 1.
    pub fn reset_sequences(&mut self)
        ensures
            final(self)@ == old(self)@.sequences_reset(),
    {
        self.outbound_seq_num = 1;
        self.inbound_seq_num = 1;
    }

    /// Counts one inbound message at `now` against the rate limit; whether
    /// it is allowed.
    pub fn check_rate_limit_at(&mut self, now: MonoTime) -> (allowed: bool)
        requires
            !old(self)@.window_expired(now) ==> old(self)@.msg_count_window < u32::MAX,
        ensures
            (final(self)@, allowed) == old(self)@.rate_checked(now),
    {
        let elapsed = now.duration_since(self.window_start);
        if elapsed.nanos >= 1_000_000_000u128 {
            self.msg_count_window = 0;
            self.window_start = now;
        }
        self.msg_count_window = self.msg_count_window + 1;
        self.msg_count_window <= self.config.max_msg_rate
    }

    /// Counts one inbound message against the rate limit, now.
    pub fn check_rate_limit(&mut self) -> (allowed: bool)
        requires
            old(self)@.msg_count_window < u32::MAX,
        ensures
            exists|t: MonoTime| (final(self)@, allowed) == old(self)@.rate_checked(t),
    {
        let now = self.clock.now();
        self.check_rate_limit_at(now)
    }
}

/// `<field> mismatch: expected <expected>, received <received>`.
fn mismatch_message(field: &str, expected: &str, received: &str) -> (m: String)
    ensures
        m@ == mismatch_text(field@, expected@, received@),
{
    let mut m = String::from_str(field);
    m.append(" mismatch: expected ");
    m.append(expected);
    m.append(", received ");
    m.append(received);
    m
}

/// The TestReqID of the `n`-th TestRequest.
fn test_req_id(n: u64) -> (id: Vec<u8>)
    ensures
        id@ == test_req_id_bytes(n),
{
    let mut id: Vec<u8> = Vec::new();
    id.push(84u8);
    id.push(82u8);
    id.push(45u8);
    let mut digits = u64_digits(n);
    id.append(&mut digits);
    assert(id@ =~= test_req_id_bytes(n));
    id
}

// ---------------------------------------------------------------------------
// Laws
// ---------------------------------------------------------------------------

/// An Active session whose peer went silent sends a TestRequest with the
/// next TestReqID; if the peer stays silent, the next check, at the same time
/// or later, drops the connection.
pub proof fn lemma_heartbeat_escalation(m: SessionModel, first: MonoTime, second: MonoTime)
    requires
        m.state == SessionState::Active,
        m.peer_silent(first),
        !m.test_request_pending,
        m.test_req_counter < u64::MAX,
        first.nanos <= second.nanos,
    ensures
        ({
            let (m1, a1) = m.heartbeat_checked(first);
            &&& a1 == (ActionModel::SendTestRequest {
                test_req_id: test_req_id_bytes((m.test_req_counter + 1) as u64),
            })
            &&& m1.test_request_pending
            &&& m1.heartbeat_checked(second) == (m1, ActionModel::Disconnect)
        }),
{
}

/// The TestRequest a silent peer gets is answered by a Heartbeat that echoes
/// its id, or that carries no id; a Heartbeat with another id leaves it
/// pending.
pub proof fn lemma_test_request_answer(m: SessionModel, now: MonoTime, other: Seq<u8>)
    requires
        m.sends_test_request(now),
        m.test_req_counter < u64::MAX,
        other != test_req_id_bytes((m.test_req_counter + 1) as u64),
    ensures
        ({
            let (m1, a1) = m.heartbeat_checked(now);
            let id = test_req_id_bytes((m.test_req_counter + 1) as u64);
            &&& a1 == (ActionModel::SendTestRequest { test_req_id: id })
            &&& !m1.heartbeat_received(Some(id)).test_request_pending
            &&& !m1.heartbeat_received(None).test_request_pending
            &&& m1.heartbeat_received(Some(other)).test_request_pending
        }),
{
}

/// Checking an inbound sequence number never moves the expected number
/// back: it stays, or advances by one when the number was the expected one.
pub proof fn lemma_inbound_seq_monotone(m: SessionModel, received: u64, now: MonoTime)
    requires
        m.inbound_seq_num < u64::MAX,
    ensures
        ({
            let (m1, r) = m.inbound_checked(received, now);
            &&& m1.inbound_seq_num == m.inbound_seq_num || m1.inbound_seq_num == m.inbound_seq_num
                + 1
            &&& m1.inbound_seq_num == m.inbound_seq_num + 1 <==> received == m.inbound_seq_num
            &&& r is Err <==> received > m.inbound_seq_num
        }),
{
}

/// After a gap is filled up to `new_seq`, the message numbered `new_seq` is
/// in order: it is accepted, the session is Active, and `new_seq + 1` is
/// expected next.
pub proof fn lemma_gap_fill_resumes(m: SessionModel, new_seq: u64, now: MonoTime)
    requires
        new_seq < u64::MAX,
    ensures
        ({
            let (m1, r) = m.gap_filled(new_seq).inbound_checked(new_seq, now);
            &&& r is Ok
            &&& m1.state == SessionState::Active
            &&& m1.inbound_seq_num == new_seq + 1
        }),
{
}

/// A Logon with a sequence reset leaves the session Active with both
/// sequence numbers at 1, whatever they were.
pub proof fn lemma_logon_with_reset(m: SessionModel, now: MonoTime)
    ensures
        ({
            let m1 = m.sequences_reset().logged_on(now);
            &&& m1.state == SessionState::Active
            &&& m1.outbound_seq_num == 1
            &&& m1.inbound_seq_num == 1
            &&& !m1.test_request_pending
        }),
{
}

/// A Logout sent at `sent` times out exactly when the logout timeout has
/// passed since; once the exchange completes or the transport goes away it
/// never times out.
pub proof fn lemma_logout_timeout(m: SessionModel, sent: MonoTime, now: MonoTime)
    ensures
        m.logout_sent(sent).logout_timed_out(now) <==> elapsed_nanos(now, sent)
            >= logout_timeout_nanos(),
        !m.logout_sent(sent).logout_completed().logout_timed_out(now),
        !m.logout_sent(sent).disconnected().logout_timed_out(now),
{
}

/// An initiator that has used up its reconnect attempts does not reconnect
/// again; an acceptor never reconnects; a successful connect gives the
/// initiator its attempts back.
pub proof fn lemma_reconnect_limit(m: SessionModel, now: MonoTime)
    ensures
        m.config.max_reconnect_attempts > 0 && m.reconnect_attempts
            >= m.config.max_reconnect_attempts ==> !m.disconnected().reconnect_wanted(),
        m.config.role == SessionRole::Acceptor ==> !m.reconnect_wanted(),
        (m.state == SessionState::Disconnected && m.config.role == SessionRole::Initiator) ==> m.connected(now).reconnect_attempts == 0,
{
}

/// Within one rate-limit window, once a message is refused every later one
/// is refused too.
pub proof fn lemma_rate_limit_refusal_persists(m: SessionModel, first: MonoTime, second: MonoTime)
    requires
        !m.window_expired(first) ==> m.msg_count_window < u32::MAX,
        !m.rate_checked(first).1,
        !m.rate_checked(first).0.window_expired(second),
        m.rate_checked(first).0.msg_count_window < u32::MAX,
    ensures
        !m.rate_checked(first).0.rate_checked(second).1,
{
}

/// In a fresh window, a message is allowed exactly when fewer than
/// `max_msg_rate` were counted in it before.
pub proof fn lemma_rate_limit_budget(m: SessionModel, now: MonoTime)
    requires
        !m.window_expired(now),
        m.msg_count_window < u32::MAX,
    ensures
        m.rate_checked(now).1 <==> m.msg_count_window < m.config.max_msg_rate,
        m.rate_checked(now).0.msg_count_window == m.msg_count_window + 1,
{
}

/// With CompID validation off, a Logon with the configured BeginString is
/// accepted whatever CompIDs it carries, and asks for a reset exactly when
/// it carries 141=Y.
pub proof fn lemma_logon_without_comp_ids(
    m: SessionModel,
    sender: Option<Seq<char>>,
    target: Option<Seq<char>>,
    reset: Option<Seq<u8>>,
)
    requires
        !m.config.validate_comp_ids,
    ensures
        m.logon_verdict(Some(m.config.fix_version@), sender, target, reset) == Ok::<
            bool,
            Seq<char>,
        >(reset == Some(seq![89u8])),
{
}

} // verus!
