use velocitas_fix::parser::{FixParser, ParseError};
use velocitas_fix::serializer::{
    build_execution_report, build_execution_report_with_orig_cl_ord_id, build_heartbeat,
    build_heartbeat_with_test_req_id, build_logon, build_logon_with_reset, build_logout,
    build_logout_with_text, build_new_order_single, build_order_cancel_reject,
    build_order_cancel_replace_request, build_order_cancel_request, build_order_status_request,
    build_reject, build_resend_request, build_sequence_reset_gap_fill, build_test_request,
    FixSerializer,
};
use velocitas_fix::tags;

#[test]
fn test_serialize_heartbeat() {
    let mut buf = [0u8; 1024];
    let len = build_heartbeat(&mut buf, b"FIX.4.4", b"SENDER", b"TARGET", 1, b"20260321-10:00:00");

    let msg = &buf[..len];
    let parser = FixParser::new();
    let (view, consumed) = parser.parse(msg).expect("should parse serialized heartbeat");
    assert_eq!(consumed, len);
    assert_eq!(view.msg_type(), Some(b"0".as_slice()));
    assert_eq!(view.sender_comp_id(), Some("SENDER"));
    assert_eq!(view.target_comp_id(), Some("TARGET"));
    assert_eq!(view.msg_seq_num(), Some(1));
}

#[test]
fn test_serialize_new_order_single() {
    let mut buf = [0u8; 1024];
    let len = build_new_order_single(
        &mut buf,
        b"FIX.4.4",
        b"BANK_OMS",
        b"NYSE",
        42,
        b"20260321-10:00:00.123",
        b"ORD-00001",
        b"AAPL",
        b'1',
        1000,
        b'2',
        b"150.50",
    );

    let msg = &buf[..len];
    let parser = FixParser::new();
    let (view, _) = parser.parse(msg).expect("should parse serialized NOS");
    assert_eq!(view.msg_type(), Some(b"D".as_slice()));
    assert_eq!(view.get_field_str(tags::CL_ORD_ID), Some("ORD-00001"));
    assert_eq!(view.get_field_str(tags::SYMBOL), Some("AAPL"));
    assert_eq!(view.get_field_i64(tags::ORDER_QTY), Some(1000));
}

#[test]
fn test_serialize_execution_report() {
    let mut buf = [0u8; 2048];
    let len = build_execution_report(
        &mut buf,
        b"FIX.4.4",
        b"NYSE",
        b"BANK_OMS",
        100,
        b"20260321-10:00:00.456",
        b"NYSE-ORD-001",
        b"NYSE-EXEC-001",
        b"ORD-00001",
        b"AAPL",
        b'1',
        1000,
        500,
        b"150.50",
        500,
        500,
        b"150.50",
        b'F',
        b'1',
    );

    let msg = &buf[..len];
    let parser = FixParser::new();
    let (view, _) = parser.parse(msg).expect("should parse serialized ExecRpt");
    assert_eq!(view.msg_type(), Some(b"8".as_slice()));
    assert_eq!(view.get_field_str(tags::ORDER_ID), Some("NYSE-ORD-001"));
    assert_eq!(view.get_field_i64(tags::LAST_QTY), Some(500));
}

#[test]
fn test_serialize_order_lifecycle_requests() {
    let parser = FixParser::new();
    let mut buf = [0u8; 1024];

    let len = build_order_cancel_request(
        &mut buf,
        b"FIX.4.4",
        b"BANK_OMS",
        b"NYSE",
        43,
        b"20260321-10:00:00.123",
        b"ORD-00001",
        b"CXL-00001",
        b"AAPL",
        b'1',
        1000,
    );
    let (view, _) = parser.parse(&buf[..len]).expect("should parse cancel req");
    assert_eq!(view.msg_type(), Some(b"F".as_slice()));
    assert_eq!(view.get_field_str(tags::ORIG_CL_ORD_ID), Some("ORD-00001"));
    assert_eq!(view.get_field_str(tags::CL_ORD_ID), Some("CXL-00001"));

    let len = build_order_cancel_replace_request(
        &mut buf,
        b"FIX.4.4",
        b"BANK_OMS",
        b"NYSE",
        44,
        b"20260321-10:00:00.124",
        b"ORD-00001",
        b"RPL-00001",
        b"AAPL",
        b'1',
        1200,
        b'2',
        b"150.75",
    );
    let (view, _) = parser.parse(&buf[..len]).expect("should parse replace req");
    assert_eq!(view.msg_type(), Some(b"G".as_slice()));
    assert_eq!(view.get_field_str(tags::ORIG_CL_ORD_ID), Some("ORD-00001"));
    assert_eq!(view.get_field_str(tags::CL_ORD_ID), Some("RPL-00001"));
    assert_eq!(view.get_field_str(tags::PRICE), Some("150.75"));

    let len = build_order_status_request(
        &mut buf,
        b"FIX.4.4",
        b"BANK_OMS",
        b"NYSE",
        45,
        b"20260321-10:00:00.125",
        b"RPL-00001",
        b"AAPL",
        b'1',
    );
    let (view, _) = parser.parse(&buf[..len]).expect("should parse status req");
    assert_eq!(view.msg_type(), Some(b"H".as_slice()));
    assert_eq!(view.get_field_str(tags::CL_ORD_ID), Some("RPL-00001"));
    assert_eq!(view.get_field_str(tags::SYMBOL), Some("AAPL"));
}

#[test]
fn test_serialize_order_cancel_reject_and_execution_report_with_orig_cl_ord_id() {
    let parser = FixParser::new();
    let mut buf = [0u8; 2048];

    let len = build_execution_report_with_orig_cl_ord_id(
        &mut buf,
        b"FIX.4.4",
        b"NYSE",
        b"BANK_OMS",
        101,
        b"20260321-10:00:00.457",
        b"NYSE-ORD-001",
        b"NYSE-EXEC-002",
        b"RPL-00001",
        Some(b"ORD-00001"),
        b"AAPL",
        b'1',
        1200,
        0,
        b"0",
        1200,
        0,
        b"0",
        b'5',
        b'5',
    );
    let (view, _) = parser.parse(&buf[..len]).expect("should parse replace execution report");
    assert_eq!(view.msg_type(), Some(b"8".as_slice()));
    assert_eq!(view.get_field_str(tags::ORIG_CL_ORD_ID), Some("ORD-00001"));

    let len = build_order_cancel_reject(
        &mut buf,
        b"FIX.4.4",
        b"NYSE",
        b"BANK_OMS",
        102,
        b"20260321-10:00:00.458",
        b"NYSE-ORD-001",
        b"CXL-00002",
        b"RPL-00001",
        b'4',
        b'1',
        Some(1),
        Some(b"order already canceled"),
    );
    let (view, _) = parser.parse(&buf[..len]).expect("should parse cancel reject");
    assert_eq!(view.msg_type(), Some(b"9".as_slice()));
    assert_eq!(view.get_field_str(tags::ORDER_ID), Some("NYSE-ORD-001"));
    assert_eq!(view.get_field_str(tags::CL_ORD_ID), Some("CXL-00002"));
    assert_eq!(view.get_field_str(tags::ORIG_CL_ORD_ID), Some("RPL-00001"));
    assert_eq!(view.get_field_str(tags::TEXT), Some("order already canceled"));
}

#[test]
fn test_roundtrip_large_seq_num() {
    let mut buf = [0u8; 1024];
    let len = build_heartbeat(&mut buf, b"FIX.4.4", b"S", b"T", 999_999, b"20260321-10:00:00");

    let parser = FixParser::new();
    let (view, _) = parser.parse(&buf[..len]).expect("should parse");
    assert_eq!(view.msg_seq_num(), Some(999_999));
}

#[test]
fn test_serialize_logon() {
    let mut buf = [0u8; 1024];
    let len =
        build_logon(&mut buf, b"FIX.4.4", b"CLIENT", b"SERVER", 1, b"20260321-10:00:00", 30);

    let parser = FixParser::new();
    let (view, _) = parser.parse(&buf[..len]).expect("should parse logon");
    assert_eq!(view.msg_type(), Some(b"A".as_slice()));
    assert_eq!(view.get_field_i64(tags::HEARTBT_INT), Some(30));
}

// ---------------------------------------------------------------------------
// Exact wire bytes
// ---------------------------------------------------------------------------

fn checksum_of(bytes: &[u8]) -> u8 {
    bytes.iter().fold(0u8, |acc, b| acc.wrapping_add(*b))
}

#[test]
fn heartbeat_exact_bytes() {
    let mut buf = [0u8; 256];
    let len = build_heartbeat(&mut buf, b"FIX.4.4", b"S", b"T", 7, b"X");
    let body = b"35=0\x0149=S\x0156=T\x0134=7\x0152=X\x01";
    let mut expected = Vec::new();
    expected.extend_from_slice(b"8=FIX.4.4\x019=");
    expected.extend_from_slice(format!("{:06}", body.len()).as_bytes());
    expected.push(1);
    expected.extend_from_slice(body);
    let cs = checksum_of(&expected);
    expected.extend_from_slice(format!("10={:03}\x01", cs).as_bytes());
    assert_eq!(&buf[..len], &expected[..]);
    // The rest of the buffer is left alone.
    assert!(buf[len..].iter().all(|b| *b == 0));
}

#[test]
fn negative_and_extreme_integers() {
    let mut buf = [0u8; 512];
    let len = build_new_order_single(
        &mut buf, b"FIX.4.4", b"A", b"B", u64::MAX, b"T", b"C", b"S", b'2', i64::MIN, b'1', b"1",
    );
    let parser = FixParser::new();
    let (view, _) = parser.parse(&buf[..len]).unwrap();
    assert_eq!(view.msg_seq_num(), Some(u64::MAX));
    assert_eq!(view.get_field_i64(tags::ORDER_QTY), Some(i64::MIN));
    assert_eq!(view.get_field(tags::ORDER_QTY), Some(b"-9223372036854775808".as_slice()));

    let len = build_logon(&mut buf, b"FIX.4.4", b"A", b"B", 1, b"T", -30);
    let (view, _) = parser.parse(&buf[..len]).unwrap();
    assert_eq!(view.get_field_i64(tags::HEARTBT_INT), Some(-30));
    assert_eq!(view.get_field_i64(tags::ENCRYPT_METHOD), Some(0));
}

#[test]
fn session_messages_carry_their_fields() {
    let parser = FixParser::new();
    let mut buf = [0u8; 512];

    let len = build_logon_with_reset(&mut buf, b"FIX.4.4", b"A", b"B", 1, b"T", 30);
    let (view, _) = parser.parse(&buf[..len]).unwrap();
    assert_eq!(view.get_field(tags::RESET_SEQ_NUM_FLAG), Some(b"Y".as_slice()));

    let len = build_logout(&mut buf, b"FIX.4.4", b"A", b"B", 2, b"T");
    let (view, _) = parser.parse(&buf[..len]).unwrap();
    assert_eq!(view.msg_type(), Some(b"5".as_slice()));
    assert_eq!(view.get_field(tags::TEXT), None);

    let len = build_logout_with_text(&mut buf, b"FIX.4.4", b"A", b"B", 3, b"T", Some(b"bye"));
    let (view, _) = parser.parse(&buf[..len]).unwrap();
    assert_eq!(view.get_field_str(tags::TEXT), Some("bye"));

    let len = build_sequence_reset_gap_fill(&mut buf, b"FIX.4.4", b"A", b"B", 4, b"T", 10);
    let (view, _) = parser.parse(&buf[..len]).unwrap();
    assert_eq!(view.msg_type(), Some(b"4".as_slice()));
    assert_eq!(view.get_field(tags::GAP_FILL_FLAG), Some(b"Y".as_slice()));
    assert_eq!(view.get_field_u64(tags::NEW_SEQ_NO), Some(10));
    assert_eq!(view.get_field(tags::POSS_DUP_FLAG), Some(b"Y".as_slice()));

    let len = build_heartbeat_with_test_req_id(&mut buf, b"FIX.4.4", b"A", b"B", 5, b"T", Some(b"TR-1"));
    let (view, _) = parser.parse(&buf[..len]).unwrap();
    assert_eq!(view.get_field(tags::TEST_REQ_ID), Some(b"TR-1".as_slice()));

    let len = build_resend_request(&mut buf, b"FIX.4.4", b"A", b"B", 6, b"T", 2, 0);
    let (view, _) = parser.parse(&buf[..len]).unwrap();
    assert_eq!(view.get_field_u64(tags::BEGIN_SEQ_NO), Some(2));
    assert_eq!(view.get_field_u64(tags::END_SEQ_NO), Some(0));

    let len = build_reject(&mut buf, b"FIX.4.4", b"A", b"B", 7, b"T", 3, 5, Some(b"bad"));
    let (view, _) = parser.parse(&buf[..len]).unwrap();
    assert_eq!(view.msg_type(), Some(b"3".as_slice()));
    assert_eq!(view.get_field_u64(tags::REF_SEQ_NUM), Some(3));
    assert_eq!(view.get_field_u64(tags::SESSION_REJECT_REASON), Some(5));
    assert_eq!(view.get_field_str(tags::TEXT), Some("bad"));

    let len = build_test_request(&mut buf, b"FIX.4.4", b"A", b"B", 8, b"T", b"PING");
    let (view, _) = parser.parse(&buf[..len]).unwrap();
    assert_eq!(view.msg_type(), Some(b"1".as_slice()));
    assert_eq!(view.get_field_str(tags::TEST_REQ_ID), Some("PING"));
}

#[test]
fn serializer_step_by_step() {
    let mut ser = FixSerializer::new(vec![0u8; 128]);
    ser.begin(b"FIX.4.4", b"0")
        .add_str(tags::SENDER_COMP_ID, b"S")
        .add_int(tags::HEARTBT_INT, -5)
        .add_u64(tags::MSG_SEQ_NUM, 12);
    let before = ser.position();
    let n = ser.finalize();
    assert_eq!(n, before + 7);
    assert_eq!(ser.position(), n);
    let parser = FixParser::new();
    let (view, consumed) = parser.parse(ser.as_bytes()).unwrap();
    assert_eq!(consumed, n);
    assert_eq!(view.get_field_i64(tags::HEARTBT_INT), Some(-5));
    assert_eq!(view.msg_seq_num(), Some(12));
}

// ---------------------------------------------------------------------------
// Parser errors
// ---------------------------------------------------------------------------

#[test]
fn parser_reports_each_error() {
    let parser = FixParser::new();
    let mut buf = [0u8; 256];
    let len = build_heartbeat(&mut buf, b"FIX.4.4", b"S", b"T", 1, b"X");
    let msg = buf[..len].to_vec();

    // Every proper prefix is incomplete.
    for cut in 0..len {
        assert_eq!(parser.parse(&msg[..cut]).unwrap_err(), ParseError::Incomplete, "cut {cut}");
        assert!(parser.try_parse_prefix(&msg[..cut]).unwrap().is_none());
    }
    // Trailing bytes are left for the next message.
    let mut two = msg.clone();
    two.extend_from_slice(&msg);
    let (_, consumed) = parser.try_parse_prefix(&two).unwrap().unwrap();
    assert_eq!(consumed, len);

    assert_eq!(parser.parse(b"9=5\x01").unwrap_err(), ParseError::MissingBeginString);
    assert_eq!(parser.parse(b"8=FIX.4.4\x0135=0\x01").unwrap_err(), ParseError::MissingBodyLength);
    assert_eq!(parser.parse(b"8=FIX.4.4\x019=x\x01").unwrap_err(), ParseError::InvalidBodyLength);
    assert_eq!(parser.parse(b"junk\x01").unwrap_err(), ParseError::MalformedField);

    let mut bad_cs = msg.clone();
    bad_cs[len - 2] = if bad_cs[len - 2] == b'9' { b'8' } else { b'9' };
    assert!(matches!(parser.parse(&bad_cs).unwrap_err(), ParseError::ChecksumMismatch { .. }));

    let mut bad_trailer = msg.clone();
    bad_trailer[len - 7] = b'2';
    assert_eq!(parser.parse(&bad_trailer).unwrap_err(), ParseError::InvalidChecksumField);
    assert_eq!(parser.try_parse_prefix(&bad_trailer).unwrap_err(), ParseError::InvalidChecksumField);

    // A body of "35=0" without its SOH: the body does not end on a field.
    let mut mis = b"8=FIX.4.4\x019=4\x0135=0".to_vec();
    let cs = mis.iter().fold(0u8, |a, b| a.wrapping_add(*b));
    mis.extend_from_slice(format!("10={:03}\x01", cs).as_bytes());
    assert_eq!(parser.parse(&mis).unwrap_err(), ParseError::BodyLengthMismatch);
}

#[test]
fn body_length_keeps_six_low_digits() {
    // A body of 1,000,000 bytes or more: BodyLength keeps its six low digits.
    let id = vec![b'x'; 1_000_000];
    let mut buf = vec![0u8; 1_100_000];
    let n = build_test_request(&mut buf, b"FIX.4.4", b"A", b"B", 1, b"T", &id);
    let head = b"8=FIX.4.4\x01".len() + 9;
    let body_len = n - head - 7;
    assert!(body_len >= 1_000_000);
    let field = format!("9={:06}\x01", body_len % 1_000_000);
    assert_eq!(&buf[10..head], field.as_bytes());
}

#[test]
fn builder_leaves_the_rest_of_the_buffer() {
    let mut buf = [0xAAu8; 256];
    let n = build_heartbeat(&mut buf, b"FIX.4.4", b"S", b"T", 7, b"20260321-10:00:00.000");
    assert!(buf[n..].iter().all(|&b| b == 0xAA));
    assert!(buf[..n].ends_with(b"\x01"));
}
