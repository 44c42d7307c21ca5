use velocitas_fix::aeron::{
    context_failure, driver_failure, offer_failure, offer_should_retry, resolve_channel, stream_pair, AeronEndpointRole,
    AeronError, AeronErrorKind, IoFailure,
};

#[test]
fn codes_map_to_kinds() {
    let cases = [
        (-1, AeronErrorKind::GenericError),
        (-1000, AeronErrorKind::ClientErrorDriverTimeout),
        (-1001, AeronErrorKind::ClientErrorClientTimeout),
        (-1002, AeronErrorKind::ClientErrorConductorServiceTimeout),
        (-1003, AeronErrorKind::ClientErrorBufferFull),
        (-2, AeronErrorKind::PublicationBackPressured),
        (-3, AeronErrorKind::PublicationAdminAction),
        (-4, AeronErrorKind::PublicationClosed),
        (-5, AeronErrorKind::PublicationMaxPositionExceeded),
        (-6, AeronErrorKind::PublicationError),
        (-234324, AeronErrorKind::TimedOut),
        (-77, AeronErrorKind::Unknown(-77)),
    ];
    for (code, kind) in cases {
        assert_eq!(AeronErrorKind::from_code(code), kind);
    }
    assert!(AeronErrorKind::PublicationBackPressured.is_back_pressured());
    assert!(AeronErrorKind::PublicationAdminAction.is_admin_action());
    assert!(AeronErrorKind::PublicationAdminAction.is_back_pressured_or_admin_action());
    assert!(!AeronErrorKind::PublicationClosed.is_back_pressured_or_admin_action());
    assert_eq!(AeronErrorKind::Unknown(3).label(), "Unknown Error");
    assert_eq!(AeronErrorKind::ClientErrorBufferFull.label(), "Client Error Buffer Full");
}

#[test]
fn errors_describe_themselves() {
    let e = AeronError::from_code("offer failed", -4);
    assert_eq!(e.code, -4);
    assert_eq!(e.kind(), AeronErrorKind::PublicationClosed);
    assert_eq!(e.describe(), "offer failed: Publication Closed (-4)");
    let t = AeronError::timed_out("waiting");
    assert_eq!(t.kind(), AeronErrorKind::TimedOut);
    assert_eq!(t.describe(), "waiting: Timed Out (-234324)");
    let c = AeronError::custom("ctx", 7, "odd");
    assert_eq!(c.describe(), "ctx: odd (7)");
    let l = AeronError::from_last("start", 0, "");
    assert_eq!(l.describe(), "start: Generic Error (-1)");
    let l = AeronError::from_last("start", -1000, "driver gone");
    assert_eq!(l.describe(), "start: driver gone (-1000)");
}

#[test]
fn transport_decisions() {
    assert_eq!(stream_pair(10, AeronEndpointRole::Initiator), Some((10, 11)));
    assert_eq!(stream_pair(10, AeronEndpointRole::Acceptor), Some((11, 10)));
    assert_eq!(stream_pair(i32::MAX, AeronEndpointRole::Initiator), None);
    assert_eq!(resolve_channel(None, "127.0.0.1", 40123), "aeron:udp?endpoint=127.0.0.1:40123");
    assert_eq!(resolve_channel(Some("aeron:ipc"), "h", 1), "aeron:ipc");
    assert!(offer_should_retry(-2, 0));
    assert!(offer_should_retry(-3, 999_999_999));
    assert!(!offer_should_retry(-3, 1_000_000_000));
    assert!(!offer_should_retry(-4, 0));
    assert_eq!(offer_failure(-2), IoFailure::WouldBlock);
    assert_eq!(offer_failure(-4), IoFailure::BrokenPipe);
    assert_eq!(offer_failure(-234324), IoFailure::TimedOut);
    assert_eq!(offer_failure(-6), IoFailure::Other);
    assert_eq!(context_failure(AeronErrorKind::ClientErrorDriverTimeout), IoFailure::TimedOut);
    assert_eq!(context_failure(AeronErrorKind::PublicationAdminAction), IoFailure::WouldBlock);
    assert_eq!(context_failure(AeronErrorKind::GenericError), IoFailure::Other);
    assert_eq!(driver_failure(AeronErrorKind::ClientErrorClientTimeout), IoFailure::TimedOut);
    assert_eq!(driver_failure(AeronErrorKind::PublicationClosed), IoFailure::Other);
}
