//! Aeron result codes, the errors built from them, and the decisions the
//! Aeron transport takes on them: which failures are worth retrying, what
//! kind of I/O failure each one is, and which streams an endpoint uses.
use vstd::prelude::*;

use crate::serializer::{dec_digits, i64_digits, i64_text};

verus! {

/// The client timed out waiting for the media driver.
pub const DRIVER_TIMEOUT_MS: i32 = -1000i32;
/// The client itself timed out.
pub const CLIENT_TIMEOUT_MS: i32 = -1001i32;
/// The conductor service timed out.
pub const CONDUCTOR_TIMEOUT_MS: i32 = -1002i32;
/// The client's command buffer is full.
pub const CLIENT_BUFFER_FULL: i32 = -1003i32;
/// An offer met back pressure.
pub const PUBLICATION_BACK_PRESSURED: i32 = -2i32;
/// An offer met an administrative action.
pub const PUBLICATION_ADMIN_ACTION: i32 = -3i32;
/// The publication is closed.
pub const PUBLICATION_CLOSED: i32 = -4i32;
/// The publication reached its maximum position.
pub const PUBLICATION_MAX_POSITION_EXCEEDED: i32 = -5i32;
/// The publication failed.
pub const PUBLICATION_ERROR: i32 = -6i32;
/// The code this crate gives to its own timeouts.
pub const SYNTHETIC_TIMEOUT: i32 = -234324i32;

/// What an Aeron result code means.
#[derive(Debug, Clone, Copy, PartialEq, Eq, Structural)]
pub enum AeronErrorKind {
    GenericError,
    ClientErrorDriverTimeout,
    ClientErrorClientTimeout,
    ClientErrorConductorServiceTimeout,
    ClientErrorBufferFull,
    PublicationBackPressured,
    PublicationAdminAction,
    PublicationClosed,
    PublicationMaxPositionExceeded,
    PublicationError,
    TimedOut,
    Unknown(i32),
}

/// The kind of the code `code`.
pub open spec fn spec_kind_of(code: i32) -> AeronErrorKind {
    if code == -1 {
        AeronErrorKind::GenericError
    } else if code == DRIVER_TIMEOUT_MS {
        AeronErrorKind::ClientErrorDriverTimeout
    } else if code == CLIENT_TIMEOUT_MS {
        AeronErrorKind::ClientErrorClientTimeout
    } else if code == CONDUCTOR_TIMEOUT_MS {
        AeronErrorKind::ClientErrorConductorServiceTimeout
    } else if code == CLIENT_BUFFER_FULL {
        AeronErrorKind::ClientErrorBufferFull
    } else if code == PUBLICATION_BACK_PRESSURED {
        AeronErrorKind::PublicationBackPressured
    } else if code == PUBLICATION_ADMIN_ACTION {
        AeronErrorKind::PublicationAdminAction
    } else if code == PUBLICATION_CLOSED {
        AeronErrorKind::PublicationClosed
    } else if code == PUBLICATION_MAX_POSITION_EXCEEDED {
        AeronErrorKind::PublicationMaxPositionExceeded
    } else if code == PUBLICATION_ERROR {
        AeronErrorKind::PublicationError
    } else if code == SYNTHETIC_TIMEOUT {
        AeronErrorKind::TimedOut
    } else {
        AeronErrorKind::Unknown(code)
    }
}

/// The code of a kind: the inverse of `spec_kind_of`.
pub open spec fn spec_code_of(kind: AeronErrorKind) -> i32 {
    match kind {
        AeronErrorKind::GenericError => -1i32,
        AeronErrorKind::ClientErrorDriverTimeout => DRIVER_TIMEOUT_MS,
        AeronErrorKind::ClientErrorClientTimeout => CLIENT_TIMEOUT_MS,
        AeronErrorKind::ClientErrorConductorServiceTimeout => CONDUCTOR_TIMEOUT_MS,
        AeronErrorKind::ClientErrorBufferFull => CLIENT_BUFFER_FULL,
        AeronErrorKind::PublicationBackPressured => PUBLICATION_BACK_PRESSURED,
        AeronErrorKind::PublicationAdminAction => PUBLICATION_ADMIN_ACTION,
        AeronErrorKind::PublicationClosed => PUBLICATION_CLOSED,
        AeronErrorKind::PublicationMaxPositionExceeded => PUBLICATION_MAX_POSITION_EXCEEDED,
        AeronErrorKind::PublicationError => PUBLICATION_ERROR,
        AeronErrorKind::TimedOut => SYNTHETIC_TIMEOUT,
        AeronErrorKind::Unknown(c) => c,
    }
}

/// The readable name of a kind.
pub open spec fn spec_label(kind: AeronErrorKind) -> Seq<char> {
    match kind {
        AeronErrorKind::GenericError => "Generic Error"@,
        AeronErrorKind::ClientErrorDriverTimeout => "Client Error Driver Timeout"@,
        AeronErrorKind::ClientErrorClientTimeout => "Client Error Client Timeout"@,
        AeronErrorKind::ClientErrorConductorServiceTimeout => "Client Error Conductor Service Timeout"@,
        AeronErrorKind::ClientErrorBufferFull => "Client Error Buffer Full"@,
        AeronErrorKind::PublicationBackPressured => "Publication Back Pressured"@,
        AeronErrorKind::PublicationAdminAction => "Publication Admin Action"@,
        AeronErrorKind::PublicationClosed => "Publication Closed"@,
        AeronErrorKind::PublicationMaxPositionExceeded => "Publication Max Position Exceeded"@,
        AeronErrorKind::PublicationError => "Publication Error"@,
        AeronErrorKind::TimedOut => "Timed Out"@,
        AeronErrorKind::Unknown(_) => "Unknown Error"@,
    }
}

impl AeronErrorKind {
    /// The kind of an Aeron result code.
    pub fn from_code(code: i32) -> (k: Self)
        ensures
            k == spec_kind_of(code),
    {
        if code == -1 {
            AeronErrorKind::GenericError
        } else if code == DRIVER_TIMEOUT_MS {
            AeronErrorKind::ClientErrorDriverTimeout
        } else if code == CLIENT_TIMEOUT_MS {
            AeronErrorKind::ClientErrorClientTimeout
        } else if code == CONDUCTOR_TIMEOUT_MS {
            AeronErrorKind::ClientErrorConductorServiceTimeout
        } else if code == CLIENT_BUFFER_FULL {
            AeronErrorKind::ClientErrorBufferFull
        } else if code == PUBLICATION_BACK_PRESSURED {
            AeronErrorKind::PublicationBackPressured
        } else if code == PUBLICATION_ADMIN_ACTION {
            AeronErrorKind::PublicationAdminAction
        } else if code == PUBLICATION_CLOSED {
            AeronErrorKind::PublicationClosed
        } else if code == PUBLICATION_MAX_POSITION_EXCEEDED {
            AeronErrorKind::PublicationMaxPositionExceeded
        } else if code == PUBLICATION_ERROR {
            AeronErrorKind::PublicationError
        } else if code == SYNTHETIC_TIMEOUT {
            AeronErrorKind::TimedOut
        } else {
            AeronErrorKind::Unknown(code)
        }
    }

    /// Whether an offer met back pressure.
    pub fn is_back_pressured(self) -> (b: bool)
        ensures
            b == (self == AeronErrorKind::PublicationBackPressured),
    {
        match self {
            AeronErrorKind::PublicationBackPressured => true,
            _ => false,
        }
    }

    /// Whether an offer met an administrative action.
    pub fn is_admin_action(self) -> (b: bool)
        ensures
            b == (self == AeronErrorKind::PublicationAdminAction),
    {
        match self {
            AeronErrorKind::PublicationAdminAction => true,
            _ => false,
        }
    }

    /// Whether an offer may succeed if tried again.
    pub fn is_back_pressured_or_admin_action(self) -> (b: bool)
        ensures
            b == (self == AeronErrorKind::PublicationBackPressured || self
                == AeronErrorKind::PublicationAdminAction),
    {
        self.is_back_pressured() || self.is_admin_action()
    }

    /// The readable name of the kind.
    pub fn label(self) -> (l: &'static str)
        ensures
            l@ == spec_label(self),
    {
        match self {
            AeronErrorKind::GenericError => "Generic Error",
            AeronErrorKind::ClientErrorDriverTimeout => "Client Error Driver Timeout",
            AeronErrorKind::ClientErrorClientTimeout => "Client Error Client Timeout",
            AeronErrorKind::ClientErrorConductorServiceTimeout => "Client Error Conductor Service Timeout",
            AeronErrorKind::ClientErrorBufferFull => "Client Error Buffer Full",
            AeronErrorKind::PublicationBackPressured => "Publication Back Pressured",
            AeronErrorKind::PublicationAdminAction => "Publication Admin Action",
            AeronErrorKind::PublicationClosed => "Publication Closed",
            AeronErrorKind::PublicationMaxPositionExceeded => "Publication Max Position Exceeded",
            AeronErrorKind::PublicationError => "Publication Error",
            AeronErrorKind::TimedOut => "Timed Out",
            AeronErrorKind::Unknown(_) => "Unknown Error",
        }
    }
}

/// Reading a code as a kind loses nothing: the kind's code is the code
/// read; and every named kind is what its own code reads as.
pub proof fn lemma_kind_code_roundtrip(code: i32, kind: AeronErrorKind)
    ensures
        spec_code_of(spec_kind_of(code)) == code,
        kind !is Unknown ==> spec_kind_of(spec_code_of(kind)) == kind,
{
}

/// An Aeron failure: its code, where it happened, and what it says.
#[derive(Debug, Clone)]
pub struct AeronError {
    pub code: i32,
    context: String,
    message: String,
}

/// What an error says: its code, context and message.
pub ghost struct AeronErrorModel {
    pub code: i32,
    pub context: Seq<char>,
    pub message: Seq<char>,
}

impl View for AeronError {
    type V = AeronErrorModel;

    closed spec fn view(&self) -> AeronErrorModel {
        AeronErrorModel { code: self.code, context: self.context@, message: self.message@ }
    }
}

/// `n` in decimal, as text.
pub open spec fn i64_chars(n: i64) -> Seq<char> {
    i64_digits(n).map_values(|b: u8| b as char)
}

/// The text of an error: `context: message (code)`.
pub open spec fn spec_describe(e: AeronErrorModel) -> Seq<char> {
    e.context + ": "@ + e.message + " ("@ + i64_chars(e.code as i64) + ")"@
}

/// ASCII bytes as text.
fn ascii_text(bytes: &[u8]) -> (s: String)
    requires
        forall|i: int| 0 <= i < bytes@.len() ==> 48 <= #[trigger] bytes@[i] <= 57 || bytes@[i]
            == 45,
    ensures
        s@ == bytes@.map_values(|b: u8| b as char),
{
    let mut s = String::new();
    let mut i: usize = 0;
    while i < bytes.len()
        invariant
            0 <= i <= bytes@.len(),
            forall|j: int| 0 <= j < bytes@.len() ==> 48 <= #[trigger] bytes@[j] <= 57 || bytes@[j]
                == 45,
            s@ == bytes@.take(i as int).map_values(|b: u8| b as char),
        decreases bytes@.len() - i,
    {
        let piece = ascii_char_text(bytes[i]);
        s.append(piece);
        assert(bytes@.take(i + 1).map_values(|b: u8| b as char) =~= bytes@.take(
            i as int,
        ).map_values(|b: u8| b as char).push(bytes@[i as int] as char));
        i = i + 1;
    }
    assert(bytes@.take(i as int) =~= bytes@);
    s
}

/// One digit or `-` as text.
fn ascii_char_text(b: u8) -> (s: &'static str)
    requires
        48 <= b <= 57 || b == 45,
    ensures
        s@ == seq![b as char],
{
    proof {
        reveal_strlit("0");
        reveal_strlit("1");
        reveal_strlit("2");
        reveal_strlit("3");
        reveal_strlit("4");
        reveal_strlit("5");
        reveal_strlit("6");
        reveal_strlit("7");
        reveal_strlit("8");
        reveal_strlit("9");
        reveal_strlit("-");
    }
    let s = if b == 48 {
        "0"
    } else if b == 49 {
        "1"
    } else if b == 50 {
        "2"
    } else if b == 51 {
        "3"
    } else if b == 52 {
        "4"
    } else if b == 53 {
        "5"
    } else if b == 54 {
        "6"
    } else if b == 55 {
        "7"
    } else if b == 56 {
        "8"
    } else if b == 57 {
        "9"
    } else {
        "-"
    };
    assert(s@ =~= seq![b as char]);
    s
}

/// The decimal digits of `n` are ASCII digits.
proof fn lemma_digits_ascii(n: nat)
    ensures
        forall|i: int| 0 <= i < dec_digits(n).len() ==> 48 <= #[trigger] dec_digits(n)[i] <= 57,
    decreases n,
{
    if n >= 10 {
        lemma_digits_ascii(n / 10);
        let p = dec_digits(n / 10);
        assert forall|i: int| 0 <= i < dec_digits(n).len() implies 48 <= #[trigger] dec_digits(n)[i]
            <= 57 by {
            if i < p.len() {
                assert(dec_digits(n)[i] == p[i]);
            }
        }
    }
}

/// `n` in decimal, as text.
fn i64_string(n: i64) -> (s: String)
    ensures
        s@ == i64_chars(n),
{
    let bytes = i64_text(n);
    proof {
        if n < 0 {
            lemma_digits_ascii((-n) as nat);
            assert forall|i: int| 0 <= i < bytes@.len() implies 48 <= #[trigger] bytes@[i] <= 57
                || bytes@[i] == 45 by {
                if i > 0 {
                    assert(bytes@[i] == dec_digits((-n) as nat)[i - 1]);
                }
            }
        } else {
            lemma_digits_ascii(n as nat);
        }
    }
    ascii_text(bytes.as_slice())
}

impl AeronError {
    /// The kind of this error.
    pub fn kind(&self) -> (k: AeronErrorKind)
        ensures
            k == spec_kind_of(self@.code),
    {
        AeronErrorKind::from_code(self.code)
    }

    /// The error with code `code` in `context`, saying what its kind is.
    pub fn from_code(context: &str, code: i32) -> (e: Self)
        ensures
            e@ == (AeronErrorModel {
                code,
                context: context@,
                message: spec_label(spec_kind_of(code)),
            }),
    {
        let kind = AeronErrorKind::from_code(code);
        AeronError {
            code,
            context: String::from_str(context),
            message: String::from_str(kind.label()),
        }
    }

    /// The error with code `code` in `context`, saying `message`.
    pub fn custom(context: &str, code: i32, message: &str) -> (e: Self)
        ensures
            e@ == (AeronErrorModel { code, context: context@, message: message@ }),
    {
        AeronError { code, context: String::from_str(context), message: String::from_str(message) }
    }

    /// The error Aeron reported last, from its code and message: a code of
    /// 0 counts as generic (-1), and without a message the kind speaks.
    pub fn from_last(context: &str, code: i32, message: &str) -> (e: Self)
        ensures
            ({
                let c = if code == 0 { -1i32 } else { code };
                e@ == (AeronErrorModel {
                    code: c,
                    context: context@,
                    message: if message@.len() == 0 {
                        spec_label(spec_kind_of(c))
                    } else {
                        message@
                    },
                })
            }),
    {
        let c = if code == 0 {
            -1i32
        } else {
            code
        };
        if message.is_empty() {
            AeronError::from_code(context, c)
        } else {
            AeronError::custom(context, c, message)
        }
    }

    /// The timeout error in `context`.
    pub fn timed_out(context: &str) -> (e: Self)
        ensures
            e@ == (AeronErrorModel {
                code: SYNTHETIC_TIMEOUT,
                context: context@,
                message: spec_label(AeronErrorKind::TimedOut),
            }),
    {
        AeronError::from_code(context, SYNTHETIC_TIMEOUT)
    }

    /// `context: message (code)`.
    pub fn describe(&self) -> (s: String)
        ensures
            s@ == spec_describe(self@),
    {
        let mut s = self.context.clone();
        s.append(": ");
        s.append(self.message.as_str());
        s.append(" (");
        let code = i64_string(self.code as i64);
        s.append(code.as_str());
        s.append(")");
        s
    }
}

// ---------------------------------------------------------------------------
// Transport decisions
// ---------------------------------------------------------------------------

/// How a failed Aeron call surfaces as I/O.
#[derive(Debug, Clone, Copy, PartialEq, Eq, Structural)]
pub enum IoFailure {
    TimedOut,
    WouldBlock,
    BrokenPipe,
    Other,
}

/// How a failure to set up or poll Aeron surfaces: timeouts as timeouts,
/// a full buffer or a refused offer as "would block", a closed publication
/// as a broken pipe.
pub open spec fn spec_context_failure(kind: AeronErrorKind) -> IoFailure {
    match kind {
        AeronErrorKind::ClientErrorDriverTimeout | AeronErrorKind::ClientErrorClientTimeout
        | AeronErrorKind::ClientErrorConductorServiceTimeout
        | AeronErrorKind::TimedOut => IoFailure::TimedOut,
        AeronErrorKind::ClientErrorBufferFull | AeronErrorKind::PublicationBackPressured
        | AeronErrorKind::PublicationAdminAction => IoFailure::WouldBlock,
        AeronErrorKind::PublicationClosed => IoFailure::BrokenPipe,
        _ => IoFailure::Other,
    }
}

/// How a failed offer surfaces.
pub open spec fn spec_offer_failure(kind: AeronErrorKind) -> IoFailure {
    match kind {
        AeronErrorKind::PublicationBackPressured | AeronErrorKind::PublicationAdminAction
        | AeronErrorKind::ClientErrorBufferFull => IoFailure::WouldBlock,
        AeronErrorKind::PublicationClosed => IoFailure::BrokenPipe,
        AeronErrorKind::TimedOut => IoFailure::TimedOut,
        _ => IoFailure::Other,
    }
}

/// How a failure to set up or poll Aeron surfaces as I/O.
pub fn context_failure(kind: AeronErrorKind) -> (f: IoFailure)
    ensures
        f == spec_context_failure(kind),
{
    match kind {
        AeronErrorKind::ClientErrorDriverTimeout | AeronErrorKind::ClientErrorClientTimeout
        | AeronErrorKind::ClientErrorConductorServiceTimeout
        | AeronErrorKind::TimedOut => IoFailure::TimedOut,
        AeronErrorKind::ClientErrorBufferFull | AeronErrorKind::PublicationBackPressured
        | AeronErrorKind::PublicationAdminAction => IoFailure::WouldBlock,
        AeronErrorKind::PublicationClosed => IoFailure::BrokenPipe,
        _ => IoFailure::Other,
    }
}

/// How a failed offer with result `code` surfaces as I/O.
pub fn offer_failure(code: i32) -> (f: IoFailure)
    ensures
        f == spec_offer_failure(spec_kind_of(code)),
{
    match AeronErrorKind::from_code(code) {
        AeronErrorKind::PublicationBackPressured | AeronErrorKind::PublicationAdminAction
        | AeronErrorKind::ClientErrorBufferFull => IoFailure::WouldBlock,
        AeronErrorKind::PublicationClosed => IoFailure::BrokenPipe,
        AeronErrorKind::TimedOut => IoFailure::TimedOut,
        _ => IoFailure::Other,
    }
}

/// How a failure to start the media driver surfaces: timeouts as
/// timeouts, anything else as other.
pub open spec fn spec_driver_failure(kind: AeronErrorKind) -> IoFailure {
    match kind {
        AeronErrorKind::TimedOut | AeronErrorKind::ClientErrorDriverTimeout
        | AeronErrorKind::ClientErrorClientTimeout
        | AeronErrorKind::ClientErrorConductorServiceTimeout => IoFailure::TimedOut,
        _ => IoFailure::Other,
    }
}

/// How a failure to start the media driver surfaces as I/O.
pub fn driver_failure(kind: AeronErrorKind) -> (f: IoFailure)
    ensures
        f == spec_driver_failure(kind),
{
    match kind {
        AeronErrorKind::TimedOut | AeronErrorKind::ClientErrorDriverTimeout
        | AeronErrorKind::ClientErrorClientTimeout
        | AeronErrorKind::ClientErrorConductorServiceTimeout => IoFailure::TimedOut,
        _ => IoFailure::Other,
    }
}

/// One second: how long a refused offer is retried.
pub const SEND_RETRY_TIMEOUT_NANOS: u128 = 1_000_000_000u128;

/// Whether an offer that returned `result`, `elapsed_nanos` after the first
/// try, is tried again: only back pressure and administrative actions are,
/// and only within the retry timeout.
pub fn offer_should_retry(result: i64, elapsed_nanos: u128) -> (b: bool)
    requires
        result < 0,
        i32::MIN <= result,
    ensures
        b == ((spec_kind_of(result as i32) == AeronErrorKind::PublicationBackPressured
            || spec_kind_of(result as i32) == AeronErrorKind::PublicationAdminAction)
            && elapsed_nanos < SEND_RETRY_TIMEOUT_NANOS),
{
    AeronErrorKind::from_code(result as i32).is_back_pressured_or_admin_action() && elapsed_nanos
        < SEND_RETRY_TIMEOUT_NANOS
}

/// Which side of an Aeron session an endpoint is.
#[derive(Debug, Clone, Copy, PartialEq, Eq, Structural)]
pub enum AeronEndpointRole {
    Initiator,
    Acceptor,
}

/// The streams an endpoint publishes and subscribes on: the initiator
/// publishes on the base stream and hears on the next one, the acceptor the
/// other way round. `None` when there is no next stream id.
pub fn stream_pair(base_stream: i32, role: AeronEndpointRole) -> (r: Option<(i32, i32)>)
    ensures
        base_stream == i32::MAX ==> r is None,
        base_stream < i32::MAX ==> r == Some(
            match role {
                AeronEndpointRole::Initiator => (base_stream, (base_stream + 1) as i32),
                AeronEndpointRole::Acceptor => ((base_stream + 1) as i32, base_stream),
            },
        ),
{
    match base_stream.checked_add(1) {
        None => None,
        Some(reply) => Some(
            match role {
                AeronEndpointRole::Initiator => (base_stream, reply),
                AeronEndpointRole::Acceptor => (reply, base_stream),
            },
        ),
    }
}

/// An initiator and an acceptor on the same base stream each hear what the
/// other publishes, and neither hears itself.
pub proof fn lemma_stream_pairs_mirror(base_stream: i32)
    requires
        base_stream < i32::MAX,
    ensures
        ({
            let i = (base_stream, (base_stream + 1) as i32);
            let a = ((base_stream + 1) as i32, base_stream);
            &&& i.0 == a.1 && a.0 == i.1
            &&& i.0 != i.1 && a.0 != a.1
        }),
{
}

/// The channel of an endpoint: the configured one, or UDP to
/// `address:port`.
pub open spec fn spec_channel(configured: Option<Seq<char>>, address: Seq<char>, port: u16) -> Seq<
    char,
> {
    match configured {
        Some(c) => c,
        None => "aeron:udp?endpoint="@ + address + ":"@ + i64_chars(port as i64),
    }
}

/// The channel of an endpoint.
pub fn resolve_channel(configured: Option<&str>, address: &str, port: u16) -> (s: String)
    ensures
        s@ == spec_channel(
            match configured {
                Some(c) => Some(c@),
                None => None,
            },
            address@,
            port,
        ),
{
    match configured {
        Some(c) => String::from_str(c),
        None => {
            let mut s = String::from_str("aeron:udp?endpoint=");
            s.append(address);
            s.append(":");
            let p = i64_string(port as i64);
            s.append(p.as_str());
            s
        },
    }
}

} // verus!
