//! The decisions of the FIX engine: what to send, what to tell the
//! application, and when to stop, for each timer tick and each inbound
//! message. The loop that reads the transport and runs the application
//! carries out the steps these functions return, in order.
use vstd::prelude::*;
use vstd::utf8::encode_utf8;

use crate::bytes::is_flag_yes;
use crate::message::{first_text, first_u64, first_value, MessageView};
use crate::parser::{header_fields, lemma_logon_parses, no_soh, parsed_message, written_fields};
use crate::serializer::{
    fix_message, heartbeat_with_test_req_id_body, heartbeat_with_test_req_id_fields, logon_body,
    logon_fields, logon_with_reset_body, logon_with_reset_fields, logout_with_text_body,
    logout_with_text_fields, reject_body, reject_fields, resend_request_body,
    resend_request_fields, sequence_reset_gap_fill_body, sequence_reset_gap_fill_fields,
    spec_fix_message, test_request_body, test_request_fields,
};
use crate::session::{
    ActionModel, Session, SessionAction, SessionModel, SessionRole, SessionState,
};
use crate::tags;
use crate::time::MonoTime;

verus! {

/// One thing the engine loop does, in order. A step that fails (a send or
/// a callback returning an error) ends the reaction: the steps after it do
/// not happen.
#[derive(Debug, Clone, PartialEq, Eq)]
pub enum EngineStep {
    /// Send `bytes` to the peer. A `numbered` message takes the next outbound
    /// sequence number, the one written in it, as the step begins; once the
    /// bytes are sent the send time is noted, and a `logout` makes the
    /// session wait for the peer's Logout.
    Transmit { bytes: Vec<u8>, numbered: bool, logout: bool },
    /// Tell the application that the session logged on.
    NotifyLogon,
    /// Tell the application that the peer logged out.
    NotifyLogout,
    /// Hand the inbound message to the application.
    DeliverApplication,
    /// Our Logout was answered: the logout exchange is complete.
    CompleteLogout,
    /// The connection ends.
    Disconnect,
}

/// What a step does, with its bytes as a sequence.
pub ghost enum StepModel {
    Transmit { bytes: Seq<u8>, numbered: bool, logout: bool },
    NotifyLogon,
    NotifyLogout,
    DeliverApplication,
    CompleteLogout,
    Disconnect,
}

impl View for EngineStep {
    type V = StepModel;

    open spec fn view(&self) -> StepModel {
        match self {
            EngineStep::Transmit { bytes, numbered, logout } => StepModel::Transmit {
                bytes: bytes@,
                numbered: *numbered,
                logout: *logout,
            },
            EngineStep::NotifyLogon => StepModel::NotifyLogon,
            EngineStep::NotifyLogout => StepModel::NotifyLogout,
            EngineStep::DeliverApplication => StepModel::DeliverApplication,
            EngineStep::CompleteLogout => StepModel::CompleteLogout,
            EngineStep::Disconnect => StepModel::Disconnect,
        }
    }
}

/// The models of `steps`.
pub open spec fn steps_view(steps: Seq<EngineStep>) -> Seq<StepModel> {
    steps.map_values(|s: EngineStep| s@)
}

/// What the engine does about one event: the steps still to carry out,
/// whether it stops once they are done, whether the rest of the bytes
/// already received are left unprocessed, and, for an inbound message that
/// goes on to be dispatched by type, whether a sequence gap was found.
pub struct Reaction {
    pub steps: Vec<EngineStep>,
    pub stop: bool,
    pub end_batch: bool,
    pub dispatch: Option<bool>,
}

// ---------------------------------------------------------------------------
// Carrying out steps
// ---------------------------------------------------------------------------

/// The next outbound sequence number is taken.
pub open spec fn taken(m: SessionModel) -> SessionModel {
    SessionModel { outbound_seq_num: (m.outbound_seq_num + 1) as u64, ..m }
}

/// A message went out at `now`; a Logout also starts the wait for the
/// peer's answer.
pub open spec fn send_confirmed(m: SessionModel, now: MonoTime, logout: bool) -> SessionModel {
    if logout {
        m.logout_sent(now).message_sent(now)
    } else {
        m.message_sent(now)
    }
}

/// Whether a step takes an outbound sequence number as it begins.
pub open spec fn step_numbered(s: StepModel) -> bool {
    s matches StepModel::Transmit { numbered, .. } && numbered
}

/// The session as a step begins, before its send or callback.
pub open spec fn step_begun(m: SessionModel, s: StepModel) -> SessionModel {
    if step_numbered(s) {
        taken(m)
    } else {
        m
    }
}

/// The session once a step has succeeded at `now`.
pub open spec fn step_done(m: SessionModel, s: StepModel, now: MonoTime) -> SessionModel {
    match s {
        StepModel::Transmit { logout, .. } => send_confirmed(m, now, logout),
        StepModel::CompleteLogout => m.logout_completed(),
        StepModel::Disconnect => m.disconnected(),
        _ => m,
    }
}

/// The session once all of `steps` have succeeded at `now`.
pub open spec fn steps_done(m: SessionModel, steps: Seq<StepModel>, now: MonoTime) -> SessionModel
    decreases steps.len(),
{
    if steps.len() == 0 {
        m
    } else {
        steps_done(step_done(step_begun(m, steps[0]), steps[0], now), steps.drop_first(), now)
    }
}

/// Begins a step: a numbered message takes the next outbound sequence
/// number. Called before the step's send or callback.
pub fn begin_step(session: &mut Session, step: &EngineStep)
    requires
        step_numbered(step@) ==> old(session)@.outbound_seq_num < u64::MAX,
    ensures
        final(session)@ == step_begun(old(session)@, step@),
{
    match step {
        EngineStep::Transmit { numbered, .. } => {
            if *numbered {
                let _ = session.next_outbound_seq_num();
            }
        },
        _ => {},
    }
}

/// Finishes a step that succeeded at `now`: a sent message notes its send
/// time (a Logout also starts the wait for the answer), a completed logout
/// exchange or the end of the connection is noted.
pub fn finish_step(session: &mut Session, step: &EngineStep, now: MonoTime)
    ensures
        final(session)@ == step_done(old(session)@, step@, now),
{
    match step {
        EngineStep::Transmit { logout, .. } => on_send_confirmed(session, now, *logout),
        EngineStep::CompleteLogout => session.on_logout_complete(),
        EngineStep::Disconnect => session.on_disconnected(),
        _ => {},
    }
}

/// A message was sent at `now`: its send time is noted, and a Logout starts
/// the wait for the peer's answer.
pub fn on_send_confirmed(session: &mut Session, now: MonoTime, logout: bool)
    ensures
        final(session)@ == send_confirmed(old(session)@, now, logout),
{
    if logout {
        session.on_logout_sent_at(now);
    }
    session.on_message_sent_at(now);
}

// ---------------------------------------------------------------------------
// Outbound session messages
// ---------------------------------------------------------------------------

/// The BeginString the session writes.
pub open spec fn version_bytes(m: SessionModel) -> Seq<u8> {
    encode_utf8(m.config.fix_version@)
}

/// Our SenderCompID.
pub open spec fn sender_bytes(m: SessionModel) -> Seq<u8> {
    encode_utf8(m.config.sender_comp_id@)
}

/// Our TargetCompID.
pub open spec fn target_bytes(m: SessionModel) -> Seq<u8> {
    encode_utf8(m.config.target_comp_id@)
}

/// HeartBtInt: the heartbeat interval in whole seconds.
pub open spec fn heartbeat_secs(m: SessionModel) -> i64 {
    ((m.config.heartbeat_interval.nanos / 1_000_000_000) as u64) as i64
}

/// A text value as bytes.
pub open spec fn text_bytes(text: Option<Seq<char>>) -> Option<Seq<u8>> {
    match text {
        Some(t) => Some(encode_utf8(t)),
        None => None,
    }
}

/// The Logon the session sends, numbered with its next outbound number,
/// with SendingTime `ts`.
pub open spec fn logon_bytes(m: SessionModel, ts: Seq<u8>) -> Seq<u8> {
    spec_fix_message(
        version_bytes(m),
        seq![65u8],
        logon_body(sender_bytes(m), target_bytes(m), m.outbound_seq_num, ts, heartbeat_secs(m)),
    )
}

/// The Logon with ResetSeqNumFlag=Y the session sends.
pub open spec fn logon_with_reset_bytes(m: SessionModel, ts: Seq<u8>) -> Seq<u8> {
    spec_fix_message(
        version_bytes(m),
        seq![65u8],
        logon_with_reset_body(
            sender_bytes(m),
            target_bytes(m),
            m.outbound_seq_num,
            ts,
            heartbeat_secs(m),
        ),
    )
}

/// The Heartbeat, echoing `test_req_id` if given, the session sends.
pub open spec fn heartbeat_bytes(m: SessionModel, ts: Seq<u8>, test_req_id: Option<Seq<u8>>) -> Seq<
    u8,
> {
    spec_fix_message(
        version_bytes(m),
        seq![48u8],
        heartbeat_with_test_req_id_body(
            sender_bytes(m),
            target_bytes(m),
            m.outbound_seq_num,
            ts,
            test_req_id,
        ),
    )
}

/// The TestRequest the session sends.
pub open spec fn test_request_bytes(m: SessionModel, ts: Seq<u8>, test_req_id: Seq<u8>) -> Seq<u8> {
    spec_fix_message(
        version_bytes(m),
        seq![49u8],
        test_request_body(sender_bytes(m), target_bytes(m), m.outbound_seq_num, ts, test_req_id),
    )
}

/// The ResendRequest for `begin..=end` the session sends.
pub open spec fn resend_request_bytes(m: SessionModel, ts: Seq<u8>, begin: u64, end: u64) -> Seq<u8> {
    spec_fix_message(
        version_bytes(m),
        seq![50u8],
        resend_request_body(sender_bytes(m), target_bytes(m), m.outbound_seq_num, ts, begin, end),
    )
}

/// The Reject the session sends.
pub open spec fn reject_bytes(
    m: SessionModel,
    ts: Seq<u8>,
    ref_seq_num: u64,
    reason: u32,
    text: Option<Seq<char>>,
) -> Seq<u8> {
    spec_fix_message(
        version_bytes(m),
        seq![51u8],
        reject_body(
            sender_bytes(m),
            target_bytes(m),
            m.outbound_seq_num,
            ts,
            ref_seq_num,
            reason,
            text_bytes(text),
        ),
    )
}

/// The Logout, with `text` if given, the session sends.
pub open spec fn logout_bytes(m: SessionModel, ts: Seq<u8>, text: Option<Seq<char>>) -> Seq<u8> {
    spec_fix_message(
        version_bytes(m),
        seq![53u8],
        logout_with_text_body(
            sender_bytes(m),
            target_bytes(m),
            m.outbound_seq_num,
            ts,
            text_bytes(text),
        ),
    )
}

/// The SequenceReset-GapFill the session sends, numbered `gap_fill_seq` and
/// moving the peer on to `new_seq_no`; it takes no outbound number of its
/// own.
pub open spec fn gap_fill_bytes(m: SessionModel, ts: Seq<u8>, gap_fill_seq: u64, new_seq_no: u64) -> Seq<
    u8,
> {
    spec_fix_message(
        version_bytes(m),
        seq![52u8],
        sequence_reset_gap_fill_body(
            sender_bytes(m),
            target_bytes(m),
            gap_fill_seq,
            ts,
            new_seq_no,
        ),
    )
}

/// The configured BeginString, SenderCompID and TargetCompID as bytes.
fn header_strings(session: &Session) -> (r: (String, String, String))
    ensures
        r.0@ == session@.config.fix_version@,
        r.1@ == session@.config.sender_comp_id@,
        r.2@ == session@.config.target_comp_id@,
{
    let c = session.config();
    (c.fix_version.clone(), c.sender_comp_id.clone(), c.target_comp_id.clone())
}

/// The Logon for the session's next outbound number.
fn logon_message(session: &Session, ts: &[u8]) -> (out: Vec<u8>)
    ensures
        out@ == logon_bytes(session@, ts@),
{
    let (ver, sender, target) = header_strings(session);
    let hb = session.config().heartbeat_interval.as_secs() as i64;
    let seq = session.current_outbound_seq_num();
    let body = logon_fields(sender.as_str().as_bytes(), target.as_str().as_bytes(), seq, ts, hb);
    let msg_type = [65u8];
    assert(msg_type@ =~= seq![65u8]);
    fix_message(ver.as_str().as_bytes(), msg_type.as_slice(), body.as_slice())
}

/// The Logon with ResetSeqNumFlag=Y for the session's next outbound number.
fn logon_with_reset_message(session: &Session, ts: &[u8]) -> (out: Vec<u8>)
    ensures
        out@ == logon_with_reset_bytes(session@, ts@),
{
    let (ver, sender, target) = header_strings(session);
    let hb = session.config().heartbeat_interval.as_secs() as i64;
    let seq = session.current_outbound_seq_num();
    let body = logon_with_reset_fields(
        sender.as_str().as_bytes(),
        target.as_str().as_bytes(),
        seq,
        ts,
        hb,
    );
    let msg_type = [65u8];
    assert(msg_type@ =~= seq![65u8]);
    fix_message(ver.as_str().as_bytes(), msg_type.as_slice(), body.as_slice())
}

/// The Heartbeat for the session's next outbound number.
fn heartbeat_message(session: &Session, ts: &[u8], test_req_id: Option<&[u8]>) -> (out: Vec<u8>)
    ensures
        out@ == heartbeat_bytes(session@, ts@, crate::serializer::opt_bytes(test_req_id)),
{
    let (ver, sender, target) = header_strings(session);
    let seq = session.current_outbound_seq_num();
    let body = heartbeat_with_test_req_id_fields(
        sender.as_str().as_bytes(),
        target.as_str().as_bytes(),
        seq,
        ts,
        test_req_id,
    );
    let msg_type = [48u8];
    assert(msg_type@ =~= seq![48u8]);
    fix_message(ver.as_str().as_bytes(), msg_type.as_slice(), body.as_slice())
}

/// The TestRequest for the session's next outbound number.
fn test_request_message(session: &Session, ts: &[u8], test_req_id: &[u8]) -> (out: Vec<u8>)
    ensures
        out@ == test_request_bytes(session@, ts@, test_req_id@),
{
    let (ver, sender, target) = header_strings(session);
    let seq = session.current_outbound_seq_num();
    let body = test_request_fields(
        sender.as_str().as_bytes(),
        target.as_str().as_bytes(),
        seq,
        ts,
        test_req_id,
    );
    let msg_type = [49u8];
    assert(msg_type@ =~= seq![49u8]);
    fix_message(ver.as_str().as_bytes(), msg_type.as_slice(), body.as_slice())
}

/// The ResendRequest for the session's next outbound number.
fn resend_request_message(session: &Session, ts: &[u8], begin: u64, end: u64) -> (out: Vec<u8>)
    ensures
        out@ == resend_request_bytes(session@, ts@, begin, end),
{
    let (ver, sender, target) = header_strings(session);
    let seq = session.current_outbound_seq_num();
    let body = resend_request_fields(
        sender.as_str().as_bytes(),
        target.as_str().as_bytes(),
        seq,
        ts,
        begin,
        end,
    );
    let msg_type = [50u8];
    assert(msg_type@ =~= seq![50u8]);
    fix_message(ver.as_str().as_bytes(), msg_type.as_slice(), body.as_slice())
}

/// The Reject for the session's next outbound number.
fn reject_message(session: &Session, ts: &[u8], ref_seq_num: u64, reason: u32, text: Option<&str>) -> (out:
    Vec<u8>)
    ensures
        out@ == reject_bytes(session@, ts@, ref_seq_num, reason, crate::session::opt_text(text)),
{
    let (ver, sender, target) = header_strings(session);
    let seq = session.current_outbound_seq_num();
    let text_bytes = match text {
        Some(t) => Some(t.as_bytes()),
        None => None,
    };
    let body = reject_fields(
        sender.as_str().as_bytes(),
        target.as_str().as_bytes(),
        seq,
        ts,
        ref_seq_num,
        reason,
        text_bytes,
    );
    let msg_type = [51u8];
    assert(msg_type@ =~= seq![51u8]);
    fix_message(ver.as_str().as_bytes(), msg_type.as_slice(), body.as_slice())
}

/// The Logout for the session's next outbound number.
fn logout_message(session: &Session, ts: &[u8], text: Option<&str>) -> (out: Vec<u8>)
    ensures
        out@ == logout_bytes(session@, ts@, crate::session::opt_text(text)),
{
    let (ver, sender, target) = header_strings(session);
    let seq = session.current_outbound_seq_num();
    let text_bytes = match text {
        Some(t) => Some(t.as_bytes()),
        None => None,
    };
    let body = logout_with_text_fields(
        sender.as_str().as_bytes(),
        target.as_str().as_bytes(),
        seq,
        ts,
        text_bytes,
    );
    let msg_type = [53u8];
    assert(msg_type@ =~= seq![53u8]);
    fix_message(ver.as_str().as_bytes(), msg_type.as_slice(), body.as_slice())
}

/// Sends a Logon: takes the next outbound sequence number and gives the
/// bytes to transmit. Once they are sent, `on_send_confirmed` notes it.
pub fn send_logon(session: &mut Session, ts: &[u8]) -> (out: Vec<u8>)
    requires
        old(session)@.outbound_seq_num < u64::MAX,
    ensures
        final(session)@ == taken(old(session)@),
        out@ == logon_bytes(old(session)@, ts@),
{
    let out = logon_message(session, ts);
    let _ = session.next_outbound_seq_num();
    out
}

/// Sends a Logon with ResetSeqNumFlag=Y: takes the next outbound sequence
/// number and gives the bytes to transmit.
pub fn send_logon_with_reset(session: &mut Session, ts: &[u8]) -> (out: Vec<u8>)
    requires
        old(session)@.outbound_seq_num < u64::MAX,
    ensures
        final(session)@ == taken(old(session)@),
        out@ == logon_with_reset_bytes(old(session)@, ts@),
{
    let out = logon_with_reset_message(session, ts);
    let _ = session.next_outbound_seq_num();
    out
}

/// Sends a Heartbeat, echoing `test_req_id` if given: takes the next
/// outbound sequence number and gives the bytes to transmit.
pub fn send_heartbeat(session: &mut Session, ts: &[u8], test_req_id: Option<&[u8]>) -> (out: Vec<u8>)
    requires
        old(session)@.outbound_seq_num < u64::MAX,
    ensures
        final(session)@ == taken(old(session)@),
        out@ == heartbeat_bytes(old(session)@, ts@, crate::serializer::opt_bytes(test_req_id)),
{
    let out = heartbeat_message(session, ts, test_req_id);
    let _ = session.next_outbound_seq_num();
    out
}

/// Sends a TestRequest: takes the next outbound sequence number and gives
/// the bytes to transmit.
pub fn send_test_request(session: &mut Session, ts: &[u8], test_req_id: &[u8]) -> (out: Vec<u8>)
    requires
        old(session)@.outbound_seq_num < u64::MAX,
    ensures
        final(session)@ == taken(old(session)@),
        out@ == test_request_bytes(old(session)@, ts@, test_req_id@),
{
    let out = test_request_message(session, ts, test_req_id);
    let _ = session.next_outbound_seq_num();
    out
}

/// Sends a ResendRequest for `begin..=end`: takes the next outbound
/// sequence number and gives the bytes to transmit.
pub fn send_resend_request(session: &mut Session, ts: &[u8], begin: u64, end: u64) -> (out: Vec<u8>)
    requires
        old(session)@.outbound_seq_num < u64::MAX,
    ensures
        final(session)@ == taken(old(session)@),
        out@ == resend_request_bytes(old(session)@, ts@, begin, end),
{
    let out = resend_request_message(session, ts, begin, end);
    let _ = session.next_outbound_seq_num();
    out
}

/// Sends a Reject: takes the next outbound sequence number and gives the
/// bytes to transmit.
pub fn send_reject(
    session: &mut Session,
    ts: &[u8],
    ref_seq_num: u64,
    reason: u32,
    text: Option<&str>,
) -> (out: Vec<u8>)
    requires
        old(session)@.outbound_seq_num < u64::MAX,
    ensures
        final(session)@ == taken(old(session)@),
        out@ == reject_bytes(old(session)@, ts@, ref_seq_num, reason, crate::session::opt_text(text)),
{
    let out = reject_message(session, ts, ref_seq_num, reason, text);
    let _ = session.next_outbound_seq_num();
    out
}

/// Sends a Logout, with `text` if given: takes the next outbound sequence
/// number and gives the bytes to transmit. The session waits for the
/// peer's Logout only once `on_send_confirmed` notes that it went out.
pub fn send_logout(session: &mut Session, ts: &[u8], text: Option<&str>) -> (out: Vec<u8>)
    requires
        old(session)@.outbound_seq_num < u64::MAX,
    ensures
        final(session)@ == taken(old(session)@),
        out@ == logout_bytes(old(session)@, ts@, crate::session::opt_text(text)),
{
    let out = logout_message(session, ts, text);
    let _ = session.next_outbound_seq_num();
    out
}

/// Sends a SequenceReset-GapFill numbered `gap_fill_seq`, moving the peer
/// on to `new_seq_no`: the bytes to transmit. It takes no outbound number.
pub fn send_gap_fill(session: &Session, ts: &[u8], gap_fill_seq: u64, new_seq_no: u64) -> (out: Vec<u8>)
    ensures
        out@ == gap_fill_bytes(session@, ts@, gap_fill_seq, new_seq_no),
{
    let (ver, sender, target) = header_strings(session);
    let body = sequence_reset_gap_fill_fields(
        sender.as_str().as_bytes(),
        target.as_str().as_bytes(),
        gap_fill_seq,
        ts,
        new_seq_no,
    );
    let msg_type = [52u8];
    assert(msg_type@ =~= seq![52u8]);
    fix_message(ver.as_str().as_bytes(), msg_type.as_slice(), body.as_slice())
}

// ---------------------------------------------------------------------------
// Session actions
// ---------------------------------------------------------------------------

/// The message a session action sends, numbered with the session's next
/// outbound number; none for Disconnect and NoAction.
pub open spec fn action_bytes(m: SessionModel, ts: Seq<u8>, a: ActionModel) -> Option<Seq<u8>> {
    match a {
        ActionModel::SendHeartbeat { test_req_id } => Some(heartbeat_bytes(m, ts, test_req_id)),
        ActionModel::SendTestRequest { test_req_id } => Some(test_request_bytes(m, ts, test_req_id)),
        ActionModel::SendResendRequest { begin_seq, end_seq } => Some(
            resend_request_bytes(m, ts, begin_seq, end_seq),
        ),
        ActionModel::SendReject { ref_seq_num, reason, text } => Some(
            reject_bytes(m, ts, ref_seq_num, reason, text),
        ),
        ActionModel::SendLogout { text } => Some(logout_bytes(m, ts, text)),
        ActionModel::Disconnect => None,
        ActionModel::NoAction => None,
    }
}

/// Whether an action sends a message under the next outbound number.
pub open spec fn action_sends(a: ActionModel) -> bool {
    !(a is Disconnect || a is NoAction)
}

/// Carrying out a session action: the session once the message is numbered,
/// the bytes it sends if any, and whether the connection must be dropped.
pub open spec fn spec_execute_action(m: SessionModel, ts: Seq<u8>, a: ActionModel) -> (
    SessionModel,
    Option<Seq<u8>>,
    bool,
) {
    match action_bytes(m, ts, a) {
        Some(out) => (taken(m), Some(out), false),
        None => (m, None, a is Disconnect),
    }
}

/// The steps that carry out a session action: its message, if it sends
/// one, numbered as it goes out.
pub open spec fn action_steps(m: SessionModel, ts: Seq<u8>, a: ActionModel) -> Seq<StepModel> {
    match action_bytes(m, ts, a) {
        Some(out) => seq![StepModel::Transmit { bytes: out, numbered: true, logout: a is SendLogout }],
        None => Seq::empty(),
    }
}

/// The message of a session action for the session's next outbound number.
fn action_message(session: &Session, ts: &[u8], action: &SessionAction) -> (out: Option<Vec<u8>>)
    ensures
        match (out, action_bytes(session@, ts@, action@)) {
            (Some(b), Some(o)) => b@ == o,
            (None, None) => true,
            _ => false,
        },
{
    match action {
        SessionAction::SendHeartbeat { test_req_id } => {
            let id = match test_req_id {
                Some(v) => Some(v.as_slice()),
                None => None,
            };
            Some(heartbeat_message(session, ts, id))
        },
        SessionAction::SendTestRequest { test_req_id } => {
            Some(test_request_message(session, ts, test_req_id.as_slice()))
        },
        SessionAction::SendResendRequest { begin_seq, end_seq } => {
            Some(resend_request_message(session, ts, *begin_seq, *end_seq))
        },
        SessionAction::SendReject { ref_seq_num, reason, text } => {
            let t = match text {
                Some(t) => Some(t.as_str()),
                None => None,
            };
            Some(reject_message(session, ts, *ref_seq_num, *reason, t))
        },
        SessionAction::SendLogout { text } => {
            let t = match text {
                Some(t) => Some(t.as_str()),
                None => None,
            };
            Some(logout_message(session, ts, t))
        },
        SessionAction::Disconnect => None,
        SessionAction::NoAction => None,
    }
}

/// Carries out a session action: a message to send takes the next outbound
/// sequence number; gives its bytes, if any, and whether to drop the
/// connection. Once the bytes are sent, `on_send_confirmed` notes it (as a
/// Logout for `SendLogout`).
pub fn execute_action(session: &mut Session, ts: &[u8], action: SessionAction) -> (r: (
    Option<Vec<u8>>,
    bool,
))
    requires
        action_sends(action@) ==> old(session)@.outbound_seq_num < u64::MAX,
    ensures
        ({
            let (m1, out, disconnect) = spec_execute_action(old(session)@, ts@, action@);
            &&& final(session)@ == m1
            &&& r.1 == disconnect
            &&& match (r.0, out) {
                (Some(b), Some(o)) => b@ == o,
                (None, None) => true,
                _ => false,
            }
        }),
{
    let out = action_message(session, ts, &action);
    let disconnect = match action {
        SessionAction::Disconnect => true,
        _ => false,
    };
    match out {
        Some(bytes) => {
            let _ = session.next_outbound_seq_num();
            (Some(bytes), false)
        },
        None => (None, disconnect),
    }
}

/// The timer tick at `now`: an unanswered Logout past its timeout drops the
/// connection; otherwise the heartbeat check runs and its message, if any,
/// is the step left to carry out.
pub open spec fn spec_timer(m: SessionModel, now: MonoTime, ts: Seq<u8>) -> (
    SessionModel,
    Seq<StepModel>,
    bool,
) {
    if m.logout_timed_out(now) {
        (m.disconnected(), Seq::empty(), true)
    } else {
        let (m1, a) = m.heartbeat_checked(now);
        (m1, action_steps(m1, ts, a), a is Disconnect)
    }
}

/// Runs the timer tick at `now`, with SendingTime `ts`.
pub fn handle_timer(session: &mut Session, now: MonoTime, ts: &[u8]) -> (r: Reaction)
    requires
        old(session)@.config.heartbeat_interval.nanos + crate::session::receive_grace_nanos()
            <= u128::MAX,
        old(session)@.sends_test_request(now) ==> old(session)@.test_req_counter < u64::MAX,
    ensures
        (final(session)@, steps_view(r.steps@), r.stop) == spec_timer(old(session)@, now, ts@),
        !r.end_batch,
        r.dispatch is None,
{
    if session.check_logout_timeout(now) {
        session.on_disconnected();
        let steps: Vec<EngineStep> = Vec::new();
        assert(steps_view(steps@) =~= Seq::<StepModel>::empty());
        return Reaction { steps, stop: true, end_batch: false, dispatch: None };
    }
    let action = session.check_heartbeat(now);
    let out = action_message(session, ts, &action);
    let (logout, disconnect) = match action {
        SessionAction::SendLogout { .. } => (true, false),
        SessionAction::Disconnect => (false, true),
        _ => (false, false),
    };
    let mut steps: Vec<EngineStep> = Vec::new();
    match out {
        Some(bytes) => {
            steps.push(EngineStep::Transmit { bytes, numbered: true, logout });
        },
        None => {},
    }
    assert(steps_view(steps@) =~= action_steps(session@, ts@, action@));
    Reaction { steps, stop: disconnect, end_batch: false, dispatch: None }
}

/// After a batch of inbound messages: whether the engine stops. A
/// disconnected session stops; a completed logout exchange disconnects and
/// stops; a pending Logout keeps waiting.
pub open spec fn spec_finish_batch(m: SessionModel) -> (SessionModel, bool) {
    match m.state {
        SessionState::Disconnected => (m, true),
        SessionState::LogoutSent => (m.disconnected(), true),
        _ => (m, false),
    }
}

/// Checks the session after a batch of inbound messages.
pub fn finish_batch(session: &mut Session) -> (stop: bool)
    ensures
        (final(session)@, stop) == spec_finish_batch(old(session)@),
{
    match session.state() {
        SessionState::Disconnected => true,
        SessionState::LogoutSent => {
            session.on_disconnected();
            true
        },
        _ => false,
    }
}

/// An initiator starts at `now`: it connects, and its Logon takes the next
/// outbound sequence number; gives the bytes to transmit.
pub fn start_initiator(session: &mut Session, now: MonoTime, ts: &[u8]) -> (out: Vec<u8>)
    requires
        old(session)@.outbound_seq_num < u64::MAX,
    ensures
        final(session)@ == taken(old(session)@.connected(now)),
        out@ == logon_bytes(old(session)@.connected(now), ts@),
{
    session.on_connected_at(now);
    send_logon(session, ts)
}

/// An inbound Logon is accepted at `now`: the session connects and becomes
/// Active, and its answering Logon takes the next outbound sequence number;
/// gives the bytes to transmit.
pub fn handle_inbound_logon(session: &mut Session, now: MonoTime, ts: &[u8]) -> (out: Vec<u8>)
    requires
        old(session)@.outbound_seq_num < u64::MAX,
    ensures
        final(session)@ == taken(old(session)@.connected(now).logged_on(now)),
        out@ == logon_bytes(old(session)@.connected(now).logged_on(now), ts@),
{
    session.on_connected_at(now);
    session.on_logon_at(now);
    send_logon(session, ts)
}

/// The engine starts a logout: a Logout without text takes the next
/// outbound sequence number; gives the bytes to transmit. The session waits
/// for the peer's Logout only once `on_send_confirmed` notes that it went
/// out.
pub fn initiate_logout(session: &mut Session, ts: &[u8]) -> (out: Vec<u8>)
    requires
        old(session)@.outbound_seq_num < u64::MAX,
    ensures
        final(session)@ == taken(old(session)@),
        out@ == logout_bytes(old(session)@, ts@, None),
{
    send_logout(session, ts, None)
}

// ---------------------------------------------------------------------------
// Inbound messages
// ---------------------------------------------------------------------------

/// The text of the Logout sent to a peer over the rate limit.
pub open spec fn rate_limit_text() -> Seq<char> {
    "Rate limit exceeded"@
}

/// Whether a message is a possible duplicate (43=Y).
pub open spec fn is_poss_dup(f: Seq<(u32, Seq<u8>)>) -> bool {
    first_value(f, tags::POSS_DUP_FLAG) == Some(seq![89u8])
}

/// The sequence check of an inbound message at `now`: a message with a
/// MsgSeqNum that is not a possible duplicate is checked against the
/// expected number, and a gap is answered with a ResendRequest. Gives the
/// session, the steps left, and whether a gap was found.
pub open spec fn spec_sequence_stage(
    m: SessionModel,
    f: Seq<(u32, Seq<u8>)>,
    now: MonoTime,
    ts: Seq<u8>,
) -> (SessionModel, Seq<StepModel>, bool) {
    match first_u64(f, tags::MSG_SEQ_NUM) {
        Some(seq) => if is_poss_dup(f) {
            (m, Seq::empty(), false)
        } else {
            let (m1, r) = m.inbound_checked(seq, now);
            match r {
                Ok(_) => (m1, Seq::empty(), false),
                Err((gap_start, gap_end)) => (
                    m1,
                    seq![
                        StepModel::Transmit {
                            bytes: resend_request_bytes(m1, ts, gap_start, gap_end),
                            numbered: true,
                            logout: false,
                        },
                    ],
                    true,
                ),
            }
        },
        None => (m, Seq::empty(), false),
    }
}

/// Whether the session waits for a Logon as an acceptor.
pub open spec fn acceptor_awaiting(m: SessionModel) -> bool {
    m.config.role == SessionRole::Acceptor && (m.state == SessionState::Disconnected || m.state
        == SessionState::Connecting)
}

/// An inbound Logon at `now`: accepted only while one is awaited, after
/// validation. An accepted Logon makes the session Active (resetting both
/// sequence numbers on 141=Y); an acceptor answers with its own Logon; the
/// application is told. A refused one is answered with a Logout giving the
/// reason, and the connection ends.
pub open spec fn spec_logon_received(
    m: SessionModel,
    f: Seq<(u32, Seq<u8>)>,
    now: MonoTime,
    ts: Seq<u8>,
) -> (SessionModel, Seq<StepModel>, bool) {
    let acc = acceptor_awaiting(m);
    if acc || m.state == SessionState::LogonSent {
        match m.logon_verdict(
            first_text(f, tags::BEGIN_STRING),
            first_text(f, tags::SENDER_COMP_ID),
            first_text(f, tags::TARGET_COMP_ID),
            first_value(f, tags::RESET_SEQ_NUM_FLAG),
        ) {
            Ok(reset) => {
                let m1 = if acc && m.state == SessionState::Disconnected {
                    m.connected(now)
                } else {
                    m
                };
                let m2 = if reset {
                    m1.sequences_reset().logged_on(now)
                } else {
                    m1.logged_on(now)
                };
                if acc {
                    let out = if reset {
                        logon_with_reset_bytes(m2, ts)
                    } else {
                        logon_bytes(m2, ts)
                    };
                    (
                        m2,
                        seq![
                            StepModel::Transmit { bytes: out, numbered: true, logout: false },
                            StepModel::NotifyLogon,
                        ],
                        false,
                    )
                } else {
                    (m2, seq![StepModel::NotifyLogon], false)
                }
            },
            Err(reason) => (
                m,
                seq![
                    StepModel::Transmit {
                        bytes: logout_bytes(m, ts, Some(reason)),
                        numbered: true,
                        logout: true,
                    },
                    StepModel::Disconnect,
                ],
                true,
            ),
        }
    } else {
        (m, Seq::empty(), false)
    }
}

/// An inbound TestRequest: a Heartbeat echoing its TestReqID (empty when it
/// has none).
pub open spec fn spec_test_request_received(m: SessionModel, f: Seq<(u32, Seq<u8>)>, ts: Seq<u8>) -> (
    SessionModel,
    Seq<StepModel>,
    bool,
) {
    let id = match first_value(f, tags::TEST_REQ_ID) {
        Some(v) => v,
        None => Seq::empty(),
    };
    (
        m,
        seq![StepModel::Transmit { bytes: heartbeat_bytes(m, ts, Some(id)), numbered: true, logout: false }],
        false,
    )
}

/// An inbound ResendRequest: without a journal to replay, a GapFill
/// numbered BeginSeqNo (1 if absent) skipping to just past EndSeqNo, or to
/// our next number when EndSeqNo is 0 or absent.
pub open spec fn spec_resend_request_received(m: SessionModel, f: Seq<(u32, Seq<u8>)>, ts: Seq<u8>) -> (
    SessionModel,
    Seq<StepModel>,
    bool,
) {
    let begin = match first_u64(f, tags::BEGIN_SEQ_NO) {
        Some(v) => v,
        None => 1,
    };
    let end = match first_u64(f, tags::END_SEQ_NO) {
        Some(v) => v,
        None => 0,
    };
    let fill_to = if end == 0 {
        m.outbound_seq_num
    } else {
        (end + 1) as u64
    };
    (
        m,
        seq![
            StepModel::Transmit {
                bytes: gap_fill_bytes(m, ts, begin, fill_to),
                numbered: false,
                logout: false,
            },
        ],
        false,
    )
}

/// An inbound Logout: the application is told; then it completes our own
/// pending Logout, or is answered with one; the connection ends.
pub open spec fn spec_logout_received(m: SessionModel, ts: Seq<u8>) -> (
    SessionModel,
    Seq<StepModel>,
    bool,
) {
    if m.state == SessionState::LogoutPending {
        (m, seq![StepModel::NotifyLogout, StepModel::CompleteLogout, StepModel::Disconnect], true)
    } else {
        (
            m,
            seq![
                StepModel::NotifyLogout,
                StepModel::Transmit { bytes: logout_bytes(m, ts, None), numbered: true, logout: true },
                StepModel::Disconnect,
            ],
            true,
        )
    }
}

/// The reaction to an inbound message of type `mt`, after its sequence
/// check: session messages are handled by the session, application
/// messages reach the application only in an Active or resending session,
/// in sequence and not possibly duplicated.
pub open spec fn spec_dispatch(
    m: SessionModel,
    f: Seq<(u32, Seq<u8>)>,
    mt: Seq<u8>,
    gap: bool,
    now: MonoTime,
    ts: Seq<u8>,
) -> (SessionModel, Seq<StepModel>, bool) {
    if mt == seq![65u8] {
        spec_logon_received(m, f, now, ts)
    } else if mt == seq![48u8] {
        (m.heartbeat_received(first_value(f, tags::TEST_REQ_ID)), Seq::empty(), false)
    } else if mt == seq![49u8] {
        spec_test_request_received(m, f, ts)
    } else if mt == seq![50u8] {
        spec_resend_request_received(m, f, ts)
    } else if mt == seq![51u8] {
        (m, Seq::empty(), false)
    } else if mt == seq![52u8] {
        match first_u64(f, tags::NEW_SEQ_NO) {
            Some(n) => (m.gap_filled(n), Seq::empty(), false),
            None => (m, Seq::empty(), false),
        }
    } else if mt == seq![53u8] {
        spec_logout_received(m, ts)
    } else if (m.state == SessionState::Active || m.state == SessionState::Resending) && !gap
        && !is_poss_dup(f) {
        (m, seq![StepModel::DeliverApplication], false)
    } else {
        (m, Seq::empty(), false)
    }
}

/// Dispatching an inbound message by its MsgType (nothing for a message
/// without one).
pub open spec fn spec_dispatch_message(
    m: SessionModel,
    f: Seq<(u32, Seq<u8>)>,
    gap: bool,
    now: MonoTime,
    ts: Seq<u8>,
) -> (SessionModel, Seq<StepModel>, bool) {
    match first_value(f, tags::MSG_TYPE) {
        Some(mt) => spec_dispatch(m, f, mt, gap, now, ts),
        None => (m, Seq::empty(), false),
    }
}

/// The first stage of the reaction to one inbound message received at
/// `now`: the receive time is noted and the rate limit checked (a peer over
/// it gets a Logout and the connection ends); a message without MsgType is
/// dropped; otherwise its sequence number is checked, and it goes on to be
/// dispatched by type, with whether a gap was found. Gives the session, the
/// steps left, whether the engine stops, and the dispatch.
pub open spec fn spec_handle_message(
    m: SessionModel,
    f: Seq<(u32, Seq<u8>)>,
    now: MonoTime,
    ts: Seq<u8>,
) -> (SessionModel, Seq<StepModel>, bool, Option<bool>) {
    let (m1, allowed) = m.message_received(now).rate_checked(now);
    if !allowed {
        (
            m1,
            seq![
                StepModel::Transmit {
                    bytes: logout_bytes(m1, ts, Some(rate_limit_text())),
                    numbered: true,
                    logout: true,
                },
                StepModel::Disconnect,
            ],
            true,
            None,
        )
    } else {
        match first_value(f, tags::MSG_TYPE) {
            None => (m1, Seq::empty(), false, None),
            Some(mt) => {
                let (m2, pre, gap) = spec_sequence_stage(m1, f, now, ts);
                (m2, pre, false, Some(gap))
            },
        }
    }
}

/// Whether `b` is the single byte `c`.
fn is_byte(b: &[u8], c: u8) -> (r: bool)
    ensures
        r == (b@ == seq![c]),
{
    let r = b.len() == 1 && b[0] == c;
    proof {
        if b@.len() == 1 && b@[0] == c {
            assert(b@ =~= seq![c]);
        }
    }
    r
}

/// Appends one step.
fn push_step(steps: &mut Vec<EngineStep>, step: EngineStep)
    ensures
        steps_view(final(steps)@) == steps_view(old(steps)@).push(step@),
{
    steps.push(step);
    assert(steps_view(final(steps)@) =~= steps_view(old(steps)@).push(step@));
}

/// Handles an inbound Logon at `now`, appending the steps to `steps`.
fn logon_received(
    session: &mut Session,
    msg: &MessageView<'_>,
    now: MonoTime,
    ts: &[u8],
    steps: &mut Vec<EngineStep>,
) -> (stop: bool)
    ensures
        ({
            let (m1, rest, st) = spec_logon_received(old(session)@, msg@, now, ts@);
            &&& final(session)@ == m1
            &&& steps_view(final(steps)@) == steps_view(old(steps)@) + rest
            &&& stop == st
        }),
{
    let ghost s0 = steps_view(steps@);
    let state = session.state();
    let acc = session.config().role == SessionRole::Acceptor && (state == SessionState::Disconnected
        || state == SessionState::Connecting);
    if !(acc || state == SessionState::LogonSent) {
        assert(s0 + Seq::<StepModel>::empty() =~= s0);
        return false;
    }
    let reset_flag = msg.get_field(tags::RESET_SEQ_NUM_FLAG);
    let verdict = session.validate_logon(
        msg.begin_string(),
        msg.sender_comp_id(),
        msg.target_comp_id(),
        reset_flag,
    );
    match verdict {
        Ok(reset) => {
            if acc && session.state() == SessionState::Disconnected {
                session.on_connected_at(now);
            }
            if reset {
                session.on_logon_with_reset_at(now);
                if acc {
                    let out = logon_with_reset_message(session, ts);
                    push_step(steps, EngineStep::Transmit { bytes: out, numbered: true, logout: false });
                }
            } else {
                session.on_logon_at(now);
                if acc {
                    let out = logon_message(session, ts);
                    push_step(steps, EngineStep::Transmit { bytes: out, numbered: true, logout: false });
                }
            }
            push_step(steps, EngineStep::NotifyLogon);
            false
        },
        Err(reason) => {
            let out = logout_message(session, ts, Some(reason.as_str()));
            push_step(steps, EngineStep::Transmit { bytes: out, numbered: true, logout: true });
            push_step(steps, EngineStep::Disconnect);
            true
        },
    }
}

/// Handles an inbound TestRequest.
fn test_request_received(
    session: &mut Session,
    msg: &MessageView<'_>,
    ts: &[u8],
    steps: &mut Vec<EngineStep>,
) -> (stop: bool)
    ensures
        ({
            let (m1, rest, st) = spec_test_request_received(old(session)@, msg@, ts@);
            &&& final(session)@ == m1
            &&& steps_view(final(steps)@) == steps_view(old(steps)@) + rest
            &&& stop == st
        }),
{
    let ghost s0 = steps_view(steps@);
    let empty: &[u8] = &[];
    let id = match msg.get_field(tags::TEST_REQ_ID) {
        Some(v) => v,
        None => empty,
    };
    assert(empty@ =~= Seq::<u8>::empty());
    let out = heartbeat_message(session, ts, Some(id));
    push_step(steps, EngineStep::Transmit { bytes: out, numbered: true, logout: false });
    false
}

/// Handles an inbound ResendRequest.
fn resend_request_received(
    session: &mut Session,
    msg: &MessageView<'_>,
    ts: &[u8],
    steps: &mut Vec<EngineStep>,
) -> (stop: bool)
    requires
        first_u64(msg@, tags::END_SEQ_NO) != Some(u64::MAX),
    ensures
        ({
            let (m1, rest, st) = spec_resend_request_received(old(session)@, msg@, ts@);
            &&& final(session)@ == m1
            &&& steps_view(final(steps)@) == steps_view(old(steps)@) + rest
            &&& stop == st
        }),
{
    let begin = match msg.get_field_u64(tags::BEGIN_SEQ_NO) {
        Some(v) => v,
        None => 1,
    };
    let end = match msg.get_field_u64(tags::END_SEQ_NO) {
        Some(v) => v,
        None => 0,
    };
    let fill_to = if end == 0 {
        session.current_outbound_seq_num()
    } else {
        end + 1
    };
    let out = send_gap_fill(session, ts, begin, fill_to);
    push_step(steps, EngineStep::Transmit { bytes: out, numbered: false, logout: false });
    false
}

/// Handles an inbound Logout.
fn logout_received(session: &mut Session, ts: &[u8], steps: &mut Vec<EngineStep>) -> (stop: bool)
    ensures
        ({
            let (m1, rest, st) = spec_logout_received(old(session)@, ts@);
            &&& final(session)@ == m1
            &&& steps_view(final(steps)@) == steps_view(old(steps)@) + rest
            &&& stop == st
        }),
{
    let ghost s0 = steps_view(steps@);
    push_step(steps, EngineStep::NotifyLogout);
    if session.state() == SessionState::LogoutPending {
        push_step(steps, EngineStep::CompleteLogout);
        push_step(steps, EngineStep::Disconnect);
        assert(steps_view(steps@) =~= s0 + seq![
            StepModel::NotifyLogout,
            StepModel::CompleteLogout,
            StepModel::Disconnect,
        ]);
    } else {
        let out = logout_message(session, ts, None);
        let ghost b = out@;
        push_step(steps, EngineStep::Transmit { bytes: out, numbered: true, logout: true });
        push_step(steps, EngineStep::Disconnect);
        assert(steps_view(steps@) =~= s0 + seq![
            StepModel::NotifyLogout,
            StepModel::Transmit { bytes: b, numbered: true, logout: true },
            StepModel::Disconnect,
        ]);
    }
    true
}

/// Dispatches an inbound message of type `msg_type` at `now`, appending the
/// steps to `steps`.
fn dispatch(
    session: &mut Session,
    msg: &MessageView<'_>,
    msg_type: &[u8],
    gap: bool,
    now: MonoTime,
    ts: &[u8],
    steps: &mut Vec<EngineStep>,
) -> (stop: bool)
    requires
        first_value(msg@, tags::MSG_TYPE) == Some(msg_type@),
        msg_type@ == seq![50u8] ==> first_u64(msg@, tags::END_SEQ_NO) != Some(u64::MAX),
    ensures
        ({
            let (m1, rest, st) = spec_dispatch(old(session)@, msg@, msg_type@, gap, now, ts@);
            &&& final(session)@ == m1
            &&& steps_view(final(steps)@) == steps_view(old(steps)@) + rest
            &&& stop == st
        }),
{
    let ghost s0 = steps_view(steps@);
    if is_byte(msg_type, 65u8) {
        logon_received(session, msg, now, ts, steps)
    } else if is_byte(msg_type, 48u8) {
        session.on_heartbeat_received(msg.get_field(tags::TEST_REQ_ID));
        assert(s0 + Seq::<StepModel>::empty() =~= s0);
        false
    } else if is_byte(msg_type, 49u8) {
        test_request_received(session, msg, ts, steps)
    } else if is_byte(msg_type, 50u8) {
        resend_request_received(session, msg, ts, steps)
    } else if is_byte(msg_type, 51u8) {
        assert(s0 + Seq::<StepModel>::empty() =~= s0);
        false
    } else if is_byte(msg_type, 52u8) {
        match msg.get_field_u64(tags::NEW_SEQ_NO) {
            Some(n) => {
                session.on_gap_filled(n);
            },
            None => {},
        }
        assert(s0 + Seq::<StepModel>::empty() =~= s0);
        false
    } else if is_byte(msg_type, 53u8) {
        logout_received(session, ts, steps)
    } else {
        let state = session.state();
        let poss_dup = is_flag_yes(msg.get_field(tags::POSS_DUP_FLAG));
        if (state == SessionState::Active || state == SessionState::Resending) && !gap && !poss_dup {
            push_step(steps, EngineStep::DeliverApplication);
        } else {
            assert(s0 + Seq::<StepModel>::empty() =~= s0);
        }
        false
    }
}

/// The first stage of handling one inbound message received at `now`, with
/// SendingTime `ts` for what it sends: receive time, rate limit and
/// sequence check. When `dispatch` is `Some(gap)`, the message goes on to
/// `dispatch_message` with that gap flag once the steps are carried out.
pub fn handle_message(session: &mut Session, msg: &MessageView<'_>, now: MonoTime, ts: &[u8]) -> (r:
    Reaction)
    requires
        !old(session)@.window_expired(now) ==> old(session)@.msg_count_window < u32::MAX,
        first_u64(msg@, tags::MSG_SEQ_NUM) == Some(old(session)@.inbound_seq_num) ==> old(
            session,
        )@.inbound_seq_num < u64::MAX,
    ensures
        (final(session)@, steps_view(r.steps@), r.stop, r.dispatch) == spec_handle_message(
            old(session)@,
            msg@,
            now,
            ts@,
        ),
        r.end_batch == !old(session)@.message_received(now).rate_checked(now).1,
{
    let mut steps: Vec<EngineStep> = Vec::new();
    assert(steps_view(steps@) =~= Seq::<StepModel>::empty());
    session.on_message_received_at(now);
    if !session.check_rate_limit_at(now) {
        let text = "Rate limit exceeded";
        let out = logout_message(session, ts, Some(text));
        let ghost b = out@;
        push_step(&mut steps, EngineStep::Transmit { bytes: out, numbered: true, logout: true });
        push_step(&mut steps, EngineStep::Disconnect);
        assert(steps_view(steps@) =~= seq![
            StepModel::Transmit { bytes: b, numbered: true, logout: true },
            StepModel::Disconnect,
        ]);
        return Reaction { steps, stop: true, end_batch: true, dispatch: None };
    }
    match msg.msg_type() {
        Some(_) => {},
        None => {
            return Reaction { steps, stop: false, end_batch: false, dispatch: None };
        },
    }
    let poss_dup = is_flag_yes(msg.get_field(tags::POSS_DUP_FLAG));
    let mut gap = false;
    match msg.msg_seq_num() {
        Some(seq) => {
            if !poss_dup {
                match session.validate_inbound_seq_at(seq, now) {
                    Ok(()) => {},
                    Err((gap_start, gap_end)) => {
                        let out = resend_request_message(session, ts, gap_start, gap_end);
                        push_step(
                            &mut steps,
                            EngineStep::Transmit { bytes: out, numbered: true, logout: false },
                        );
                        gap = true;
                    },
                }
            }
        },
        None => {},
    }
    Reaction { steps, stop: false, end_batch: false, dispatch: Some(gap) }
}

/// Dispatches an inbound message by its MsgType at `now`, after
/// `handle_message` found it in sequence (`gap` false) or not, and its
/// steps were carried out.
pub fn dispatch_message(session: &mut Session, msg: &MessageView<'_>, gap: bool, now: MonoTime, ts: &[u8]) -> (r:
    Reaction)
    requires
        first_value(msg@, tags::MSG_TYPE) == Some(seq![50u8]) ==> first_u64(msg@, tags::END_SEQ_NO)
            != Some(u64::MAX),
    ensures
        (final(session)@, steps_view(r.steps@), r.stop) == spec_dispatch_message(
            old(session)@,
            msg@,
            gap,
            now,
            ts@,
        ),
        !r.end_batch,
        r.dispatch is None,
{
    let mut steps: Vec<EngineStep> = Vec::new();
    assert(steps_view(steps@) =~= Seq::<StepModel>::empty());
    match msg.msg_type() {
        Some(msg_type) => {
            let stop = dispatch(session, msg, msg_type, gap, now, ts, &mut steps);
            proof {
                let rest = spec_dispatch(old(session)@, msg@, msg_type@, gap, now, ts@).1;
                assert(Seq::<StepModel>::empty() + rest =~= rest);
            }
            Reaction { steps, stop, end_batch: false, dispatch: None }
        },
        None => Reaction { steps, stop: false, end_batch: false, dispatch: None },
    }
}

// ---------------------------------------------------------------------------
// Laws
// ---------------------------------------------------------------------------

/// Whether `mt` is one of the session-level message types the engine
/// handles itself (Logon, Heartbeat, TestRequest, ResendRequest, Reject,
/// SequenceReset, Logout).
pub open spec fn is_session_msg_type(mt: Seq<u8>) -> bool {
    mt == seq![65u8] || mt == seq![48u8] || mt == seq![49u8] || mt == seq![50u8] || mt == seq![51u8]
        || mt == seq![52u8] || mt == seq![53u8]
}

/// An application message whose MsgSeqNum is ahead of the expected one is
/// not handed to the application: the engine asks for the missing range
/// instead, from the expected number to the one received, and dispatching
/// the message then delivers nothing, whatever the session is by then.
pub proof fn lemma_gap_not_delivered(
    m: SessionModel,
    f: Seq<(u32, Seq<u8>)>,
    mt: Seq<u8>,
    seq: u64,
    now: MonoTime,
    ts: Seq<u8>,
    later: SessionModel,
)
    requires
        m.message_received(now).rate_checked(now).1,
        first_value(f, tags::MSG_TYPE) == Some(mt),
        !is_session_msg_type(mt),
        first_u64(f, tags::MSG_SEQ_NUM) == Some(seq),
        seq > m.inbound_seq_num,
        !is_poss_dup(f),
    ensures
        ({
            let (m1, steps, stop, dispatch) = spec_handle_message(m, f, now, ts);
            let checked = m.message_received(now).rate_checked(now).0;
            &&& m1 == checked.inbound_checked(seq, now).0
            &&& steps == seq![
                StepModel::Transmit {
                    bytes: resend_request_bytes(m1, ts, m.inbound_seq_num, seq),
                    numbered: true,
                    logout: false,
                },
            ]
            &&& !stop
            &&& dispatch == Some(true)
            &&& m1.state == SessionState::Resending
            &&& spec_dispatch_message(later, f, true, now, ts).1 == Seq::<StepModel>::empty()
        }),
{
}

/// A possible duplicate (PossDupFlag 43=Y) of an application message is
/// never handed to the application, whatever the session, its state and
/// the gap flag: dispatching it takes no step at all.
pub proof fn lemma_poss_dup_not_delivered(
    m: SessionModel,
    f: Seq<(u32, Seq<u8>)>,
    mt: Seq<u8>,
    gap: bool,
    now: MonoTime,
    ts: Seq<u8>,
)
    requires
        first_value(f, 35) == Some(mt),
        !is_session_msg_type(mt),
        first_value(f, 43) == Some(seq![89u8]),
    ensures
        !spec_dispatch_message(m, f, gap, now, ts).1.contains(StepModel::DeliverApplication),
        spec_dispatch_message(m, f, gap, now, ts).1 == Seq::<StepModel>::empty(),
        spec_dispatch_message(m, f, gap, now, ts).0 == m,
{
    let steps = spec_dispatch_message(m, f, gap, now, ts).1;
    assert(steps =~= Seq::<StepModel>::empty());
}

/// An application message in sequence, not a possible duplicate, reaches
/// the application in an Active or resending session, and only there.
pub proof fn lemma_application_message_delivered(
    m: SessionModel,
    f: Seq<(u32, Seq<u8>)>,
    mt: Seq<u8>,
    now: MonoTime,
    ts: Seq<u8>,
)
    requires
        first_value(f, 35) == Some(mt),
        !is_session_msg_type(mt),
        first_value(f, 43) != Some(seq![89u8]),
    ensures
        spec_dispatch_message(m, f, false, now, ts).1 == (if m.state == SessionState::Active
            || m.state == SessionState::Resending {
            seq![StepModel::DeliverApplication]
        } else {
            Seq::<StepModel>::empty()
        }),
{
}

/// A message over the rate limit ends the session: a Logout saying "Rate
/// limit exceeded" is sent, then the connection ends, and the engine stops.
pub proof fn lemma_rate_limited_message_ends_session(
    m: SessionModel,
    f: Seq<(u32, Seq<u8>)>,
    now: MonoTime,
    ts: Seq<u8>,
)
    requires
        !m.message_received(now).rate_checked(now).1,
    ensures
        ({
            let (m1, steps, stop, dispatch) = spec_handle_message(m, f, now, ts);
            let checked = m.message_received(now).rate_checked(now).0;
            &&& m1 == checked
            &&& steps == seq![
                StepModel::Transmit {
                    bytes: logout_bytes(checked, ts, Some(rate_limit_text())),
                    numbered: true,
                    logout: true,
                },
                StepModel::Disconnect,
            ]
            &&& stop
            &&& dispatch is None
            &&& steps_done(m1, steps, now).state == SessionState::Disconnected
        }),
{
    let (m1, steps, stop, dispatch) = spec_handle_message(m, f, now, ts);
    reveal_with_fuel(steps_done, 3);
    assert(steps.drop_first().drop_first() =~= Seq::<StepModel>::empty());
}

/// A Logon that fails validation is answered by a Logout giving the reason,
/// then the connection ends and the engine stops; the application never
/// hears of it, and nothing changes before the Logout goes out.
pub proof fn lemma_refused_logon_ends_session(
    m: SessionModel,
    f: Seq<(u32, Seq<u8>)>,
    now: MonoTime,
    ts: Seq<u8>,
    reason: Seq<char>,
)
    requires
        acceptor_awaiting(m) || m.state == SessionState::LogonSent,
        m.logon_verdict(
            first_text(f, tags::BEGIN_STRING),
            first_text(f, tags::SENDER_COMP_ID),
            first_text(f, tags::TARGET_COMP_ID),
            first_value(f, tags::RESET_SEQ_NUM_FLAG),
        ) == Err::<bool, Seq<char>>(reason),
    ensures
        ({
            let (m1, steps, stop) = spec_logon_received(m, f, now, ts);
            &&& m1 == m
            &&& steps == seq![
                StepModel::Transmit {
                    bytes: logout_bytes(m, ts, Some(reason)),
                    numbered: true,
                    logout: true,
                },
                StepModel::Disconnect,
            ]
            &&& stop
            &&& steps_done(m1, steps, now).state == SessionState::Disconnected
        }),
{
    let (m1, steps, stop) = spec_logon_received(m, f, now, ts);
    reveal_with_fuel(steps_done, 3);
    assert(steps.drop_first().drop_first() =~= Seq::<StepModel>::empty());
}

/// A Logon that passes validation makes the session Active and tells the
/// application last; an acceptor answers first with its own Logon (with
/// ResetSeqNumFlag when the peer asked for a reset). Once the steps are
/// done the session is still Active.
pub proof fn lemma_accepted_logon_activates(
    m: SessionModel,
    f: Seq<(u32, Seq<u8>)>,
    now: MonoTime,
    ts: Seq<u8>,
    reset: bool,
)
    requires
        acceptor_awaiting(m) || m.state == SessionState::LogonSent,
        m.logon_verdict(
            first_text(f, tags::BEGIN_STRING),
            first_text(f, tags::SENDER_COMP_ID),
            first_text(f, tags::TARGET_COMP_ID),
            first_value(f, tags::RESET_SEQ_NUM_FLAG),
        ) == Ok::<bool, Seq<char>>(reset),
    ensures
        ({
            let (m1, steps, stop) = spec_logon_received(m, f, now, ts);
            &&& m1.state == SessionState::Active
            &&& !stop
            &&& steps.last() == StepModel::NotifyLogon
            &&& steps.len() == if acceptor_awaiting(m) { 2int } else { 1int }
            &&& reset && !acceptor_awaiting(m) ==> m1.outbound_seq_num == 1 && m1.inbound_seq_num
                == 1
            &&& steps_done(m1, steps, now).state == SessionState::Active
        }),
{
    let (m1, steps, stop) = spec_logon_received(m, f, now, ts);
    reveal_with_fuel(steps_done, 3);
    if acceptor_awaiting(m) {
        assert(steps.drop_first().drop_first() =~= Seq::<StepModel>::empty());
    } else {
        assert(steps.drop_first() =~= Seq::<StepModel>::empty());
    }
}

/// A Logout that could not be sent leaves the session as it was but for the
/// sequence number the message took: the session is not waiting for the
/// peer's Logout. Only once it is sent at `now` does the session wait, from
/// `now`.
pub proof fn lemma_unsent_logout_changes_nothing(m: SessionModel, bytes: Seq<u8>, now: MonoTime)
    requires
        m.outbound_seq_num < u64::MAX,
    ensures
        ({
            let s = StepModel::Transmit { bytes, numbered: true, logout: true };
            let begun = step_begun(m, s);
            &&& begun == taken(m)
            &&& begun.state == m.state
            &&& begun.logout_sent_time == m.logout_sent_time
            &&& begun.last_sent_time == m.last_sent_time
            &&& begun.outbound_seq_num == m.outbound_seq_num + 1
            &&& step_done(begun, s, now).state == SessionState::LogoutPending
            &&& step_done(begun, s, now).logout_sent_time == Some(now)
        }),
{
}

/// The Logon the engine sends reads back, through the parser, as our
/// BeginString, our CompIDs, the outbound sequence number it takes, the
/// SendingTime, EncryptMethod 0 and the heartbeat interval in seconds.
pub proof fn lemma_sent_logon_reads_back(m: SessionModel, ts: Seq<u8>)
    requires
        no_soh(version_bytes(m)),
        no_soh(sender_bytes(m)),
        no_soh(target_bytes(m)),
        no_soh(ts),
        (crate::serializer::field_bytes(35, seq![65u8]) + logon_body(
            sender_bytes(m),
            target_bytes(m),
            m.outbound_seq_num,
            ts,
            heartbeat_secs(m),
        )).len() < 1_000_000,
        logon_bytes(m, ts).len() <= usize::MAX,
    ensures
        parsed_message(logon_bytes(m, ts)) == Some(
            (
                written_fields(
                    version_bytes(m),
                    seq![65u8],
                    header_fields(sender_bytes(m), target_bytes(m), m.outbound_seq_num, ts) + seq![
                        (98u32, crate::serializer::i64_digits(0)),
                        (108u32, crate::serializer::i64_digits(heartbeat_secs(m))),
                    ],
                ),
                logon_bytes(m, ts).len(),
            ),
        ),
{
    let msg = logon_bytes(m, ts);
    lemma_logon_parses(
        version_bytes(m),
        sender_bytes(m),
        target_bytes(m),
        m.outbound_seq_num,
        ts,
        heartbeat_secs(m),
        Seq::empty(),
    );
    assert(msg + Seq::<u8>::empty() =~= msg);
}

} // verus!
