use velocitas_fix::normalized_sbe::{
    decode_normalized_cancel_reject_from_sbe, decode_normalized_cancel_request_from_sbe,
    decode_normalized_execution_report_from_sbe, decode_normalized_order_from_sbe,
    decode_normalized_order_lifecycle_request_from_sbe, decode_normalized_order_status_request_from_sbe,
    decode_normalized_order_view_from_sbe, decode_normalized_replace_request_from_sbe,
    encode_filled_execution_report_from_order_view_as_sbe, encode_normalized_cancel_reject_as_sbe,
    encode_normalized_cancel_request_as_sbe, encode_normalized_execution_report_as_sbe,
    encode_normalized_order_as_sbe, encode_normalized_order_lifecycle_request_as_sbe,
    encode_normalized_order_status_request_as_sbe, encode_normalized_order_view_as_sbe,
    encode_normalized_replace_request_as_sbe, peek_sbe_template_id, NormalizedCancelReject,
    NormalizedCancelRequest, NormalizedExecutionReport, NormalizedExecutionReportScratch,
    NormalizedOrder, NormalizedOrderLifecycleRequest, NormalizedOrderLifecycleRequestView,
    NormalizedOrderStatusRequest, NormalizedOrderView, NormalizedReplaceRequest,
    OrderLifecycleAction, NORMALIZED_CANCEL_REJECT_TEMPLATE_ID,
    NORMALIZED_CANCEL_REQUEST_TEMPLATE_ID, NORMALIZED_ORDER_STATUS_REQUEST_TEMPLATE_ID,
    NORMALIZED_REPLACE_REQUEST_TEMPLATE_ID,
};
use velocitas_fix::parser::FixParser;
use velocitas_fix::sbe::CodecError;
use velocitas_fix::serializer::{build_new_order_single, build_order_cancel_request, build_heartbeat};

fn sample_order() -> NormalizedOrder {
    NormalizedOrder {
        cl_ord_id: "BPIPE-ORD-0001".into(),
        symbol: "EUR/USD".into(),
        side: b'1',
        qty: 5_000_000,
        price: "1.08255".into(),
        sender_comp_id: "BLOOMBERG_FX".into(),
        target_comp_id: "VELOCITAS_GATEWAY".into(),
    }
}

#[test]
fn normalized_order_sbe_round_trip() {
    let order = sample_order();

    let mut buffer = Vec::new();
    let len = encode_normalized_order_as_sbe(&mut buffer, &order).unwrap();
    let decoded = decode_normalized_order_from_sbe(&buffer[..len]).unwrap();

    assert_eq!(decoded, order);
}

#[test]
fn normalized_execution_report_sbe_round_trip() {
    let report = NormalizedExecutionReport {
        cl_ord_id: "BPIPE-ORD-0001".into(),
        symbol: "EUR/USD".into(),
        side: b'1',
        order_qty: 5_000_000,
        last_qty: 5_000_000,
        last_px: "1.08255".into(),
        leaves_qty: 0,
        cum_qty: 5_000_000,
        avg_px: "1.08255".into(),
        order_id: "VENUE-BPIPE-ORD-0001".into(),
        exec_id: "EXEC-BPIPE-ORD-0001".into(),
        exec_type: b'F',
        ord_status: b'2',
    };

    let mut buffer = Vec::new();
    let len = encode_normalized_execution_report_as_sbe(&mut buffer, &report).unwrap();
    let decoded = decode_normalized_execution_report_from_sbe(&buffer[..len]).unwrap();

    assert_eq!(decoded, report);
}

#[test]
fn normalized_order_view_sbe_round_trip() {
    let order = sample_order();

    let mut buffer = Vec::new();
    let view: NormalizedOrderView<'_> = NormalizedOrderView::of(&order);
    let len = encode_normalized_order_view_as_sbe(&mut buffer, &view).unwrap();
    let decoded = decode_normalized_order_view_from_sbe(&buffer[..len]).unwrap();

    assert_eq!(decoded.cl_ord_id, order.cl_ord_id);
    assert_eq!(decoded.symbol, order.symbol);
    assert_eq!(decoded.side, order.side);
    assert_eq!(decoded.qty, order.qty);
    assert_eq!(decoded.price, order.price);
    assert_eq!(decoded.sender_comp_id, order.sender_comp_id);
    assert_eq!(decoded.target_comp_id, order.target_comp_id);
}

#[test]
fn filled_execution_report_from_order_view_round_trip() {
    let order = sample_order();

    let mut scratch = NormalizedExecutionReportScratch::default();
    let mut buffer = Vec::new();
    let order_view: NormalizedOrderView<'_> = NormalizedOrderView::of(&order);
    let len =
        encode_filled_execution_report_from_order_view_as_sbe(&mut buffer, &mut scratch, &order_view)
            .unwrap();
    let decoded = decode_normalized_execution_report_from_sbe(&buffer[..len]).unwrap();

    assert_eq!(decoded.cl_ord_id, order.cl_ord_id);
    assert_eq!(decoded.symbol, order.symbol);
    assert_eq!(decoded.side, order.side);
    assert_eq!(decoded.order_qty, order.qty);
    assert_eq!(decoded.last_qty, order.qty);
    assert_eq!(decoded.last_px, order.price);
    assert_eq!(decoded.avg_px, order.price);
    assert_eq!(decoded.order_id, format!("VENUE-{}", order.cl_ord_id));
    assert_eq!(decoded.exec_id, format!("EXEC-{}", order.cl_ord_id));
    assert_eq!(decoded.exec_type, b'F');
    assert_eq!(decoded.ord_status, b'2');
}

#[test]
fn lifecycle_request_sbe_round_trips_and_template_ids() {
    let cancel_request = NormalizedCancelRequest {
        cl_ord_id: "BPIPE-CXL-0001".into(),
        orig_cl_ord_id: "BPIPE-ORD-0002".into(),
        symbol: "EUR/USD".into(),
        side: b'1',
        qty: 6_000_000,
        sender_comp_id: "BLOOMBERG_FX".into(),
        target_comp_id: "VELOCITAS_GATEWAY".into(),
    };
    let replace_request = NormalizedReplaceRequest {
        cl_ord_id: "BPIPE-ORD-0002".into(),
        orig_cl_ord_id: "BPIPE-ORD-0001".into(),
        symbol: "EUR/USD".into(),
        side: b'1',
        qty: 6_000_000,
        price: "1.08260".into(),
        sender_comp_id: "BLOOMBERG_FX".into(),
        target_comp_id: "VELOCITAS_GATEWAY".into(),
    };
    let status_request = NormalizedOrderStatusRequest {
        cl_ord_id: "BPIPE-ORD-0002".into(),
        order_id: "VENUE-BPIPE-ORD-0001".into(),
        symbol: "EUR/USD".into(),
        side: b'1',
        sender_comp_id: "BLOOMBERG_FX".into(),
        target_comp_id: "VELOCITAS_GATEWAY".into(),
    };

    let mut buffer = Vec::new();
    let len = encode_normalized_cancel_request_as_sbe(&mut buffer, &cancel_request).unwrap();
    assert_eq!(peek_sbe_template_id(&buffer[..len]).unwrap(), NORMALIZED_CANCEL_REQUEST_TEMPLATE_ID);
    assert_eq!(decode_normalized_cancel_request_from_sbe(&buffer[..len]).unwrap(), cancel_request);

    let len = encode_normalized_replace_request_as_sbe(&mut buffer, &replace_request).unwrap();
    assert_eq!(peek_sbe_template_id(&buffer[..len]).unwrap(), NORMALIZED_REPLACE_REQUEST_TEMPLATE_ID);
    assert_eq!(decode_normalized_replace_request_from_sbe(&buffer[..len]).unwrap(), replace_request);

    let len = encode_normalized_order_status_request_as_sbe(&mut buffer, &status_request).unwrap();
    assert_eq!(
        peek_sbe_template_id(&buffer[..len]).unwrap(),
        NORMALIZED_ORDER_STATUS_REQUEST_TEMPLATE_ID
    );
    assert_eq!(
        decode_normalized_order_status_request_from_sbe(&buffer[..len]).unwrap(),
        status_request
    );
}

#[test]
fn normalized_cancel_reject_sbe_round_trip() {
    let reject = NormalizedCancelReject {
        order_id: "VENUE-BPIPE-ORD-0001".into(),
        cl_ord_id: "BPIPE-CXL-0002".into(),
        orig_cl_ord_id: "BPIPE-ORD-0002".into(),
        ord_status: b'4',
        cxl_rej_response_to: b'1',
        cxl_rej_reason: 1,
        text: "order already canceled".into(),
    };

    let mut buffer = Vec::new();
    let len = encode_normalized_cancel_reject_as_sbe(&mut buffer, &reject).unwrap();
    assert_eq!(peek_sbe_template_id(&buffer[..len]).unwrap(), NORMALIZED_CANCEL_REJECT_TEMPLATE_ID);

    let decoded = decode_normalized_cancel_reject_from_sbe(&buffer[..len]).unwrap();
    assert_eq!(decoded, reject);
}

#[test]
fn canonical_lifecycle_request_dispatch_round_trip() {
    let requests = [
        NormalizedOrderLifecycleRequest::Cancel(NormalizedCancelRequest {
            cl_ord_id: "BPIPE-CXL-0001".into(),
            orig_cl_ord_id: "BPIPE-ORD-0002".into(),
            symbol: "EUR/USD".into(),
            side: b'1',
            qty: 6_000_000,
            sender_comp_id: "BLOOMBERG_FX".into(),
            target_comp_id: "VELOCITAS_GATEWAY".into(),
        }),
        NormalizedOrderLifecycleRequest::Replace(NormalizedReplaceRequest {
            cl_ord_id: "BPIPE-ORD-0002".into(),
            orig_cl_ord_id: "BPIPE-ORD-0001".into(),
            symbol: "EUR/USD".into(),
            side: b'1',
            qty: 6_000_000,
            price: "1.08260".into(),
            sender_comp_id: "BLOOMBERG_FX".into(),
            target_comp_id: "VELOCITAS_GATEWAY".into(),
        }),
        NormalizedOrderLifecycleRequest::Status(NormalizedOrderStatusRequest {
            cl_ord_id: "BPIPE-ORD-0002".into(),
            order_id: "VENUE-BPIPE-ORD-0001".into(),
            symbol: "EUR/USD".into(),
            side: b'1',
            sender_comp_id: "BLOOMBERG_FX".into(),
            target_comp_id: "VELOCITAS_GATEWAY".into(),
        }),
    ];

    let mut buffer = Vec::new();
    for request in requests {
        let len = encode_normalized_order_lifecycle_request_as_sbe(&mut buffer, &request).unwrap();
        let decoded = decode_normalized_order_lifecycle_request_from_sbe(&buffer[..len]).unwrap();
        assert_eq!(decoded, request);
    }
}

// ---------------------------------------------------------------------------
// Further behaviour
// ---------------------------------------------------------------------------

#[test]
fn order_from_fix_new_order_single() {
    let mut buf = [0u8; 512];
    let len = build_new_order_single(
        &mut buf, b"FIX.4.4", b"BANK_OMS", b"NYSE", 42, b"T", b"ORD-1", b"AAPL", b'1', 1000, b'2',
        b"150.50",
    );
    let parser = FixParser::new();
    let (view, _) = parser.parse(&buf[..len]).unwrap();
    let order = NormalizedOrder::from_fix(&view).unwrap();
    assert_eq!(
        order,
        NormalizedOrder {
            cl_ord_id: "ORD-1".into(),
            symbol: "AAPL".into(),
            side: b'1',
            qty: 1000,
            price: "150.50".into(),
            sender_comp_id: "BANK_OMS".into(),
            target_comp_id: "NYSE".into(),
        }
    );
}

#[test]
fn order_from_fix_fills_missing_fields() {
    let mut buf = [0u8; 512];
    let len = build_heartbeat(&mut buf, b"FIX.4.4", b"S", b"T", 1, b"X");
    let parser = FixParser::new();
    let (view, _) = parser.parse(&buf[..len]).unwrap();
    let order = NormalizedOrderView::from_fix(&view);
    assert_eq!(order.cl_ord_id, "?");
    assert_eq!(order.symbol, "?");
    assert_eq!(order.side, b'?');
    assert_eq!(order.qty, 0);
    assert_eq!(order.price, "0");
    assert_eq!(order.sender_comp_id, "S");
    assert_eq!(order.target_comp_id, "T");
    assert_eq!(
        NormalizedOrderLifecycleRequest::from_fix(&view).unwrap_err(),
        CodecError::UnsupportedMsgType { msg_type: b"0".to_vec() }
    );
}

#[test]
fn lifecycle_from_fix_cancel() {
    let mut buf = [0u8; 512];
    let len = build_order_cancel_request(
        &mut buf, b"FIX.4.4", b"OMS", b"VENUE", 43, b"T", b"ORD-1", b"CXL-1", b"AAPL", b'2', 300,
    );
    let parser = FixParser::new();
    let (view, _) = parser.parse(&buf[..len]).unwrap();
    let request = NormalizedOrderLifecycleRequestView::from_fix(&view).unwrap();
    assert_eq!(request.action(), OrderLifecycleAction::Cancel);
    let owned = NormalizedOrderLifecycleRequest::from_fix(&view).unwrap();
    assert_eq!(
        owned,
        NormalizedOrderLifecycleRequest::Cancel(NormalizedCancelRequest {
            cl_ord_id: "CXL-1".into(),
            orig_cl_ord_id: "ORD-1".into(),
            symbol: "AAPL".into(),
            side: b'2',
            qty: 300,
            sender_comp_id: "OMS".into(),
            target_comp_id: "VENUE".into(),
        })
    );
}

#[test]
fn lifecycle_action_labels_and_response_targets() {
    assert_eq!(OrderLifecycleAction::Cancel.label(), "cancel");
    assert_eq!(OrderLifecycleAction::Replace.label(), "replace");
    assert_eq!(OrderLifecycleAction::Status.label(), "status");
    assert_eq!(OrderLifecycleAction::from_fix_msg_type(b"F"), Ok(OrderLifecycleAction::Cancel));
    assert_eq!(OrderLifecycleAction::from_fix_msg_type(b"G"), Ok(OrderLifecycleAction::Replace));
    assert_eq!(OrderLifecycleAction::from_fix_msg_type(b"H"), Ok(OrderLifecycleAction::Status));
    assert!(OrderLifecycleAction::from_fix_msg_type(b"D").is_err());
    assert_eq!(OrderLifecycleAction::from_cancel_reject_response_to(b'1'), Ok(OrderLifecycleAction::Cancel));
    assert_eq!(OrderLifecycleAction::from_cancel_reject_response_to(b'2'), Ok(OrderLifecycleAction::Replace));
    assert_eq!(
        OrderLifecycleAction::from_cancel_reject_response_to(b'3'),
        Err(CodecError::UnsupportedResponseTarget { value: b'3' })
    );
    assert_eq!(OrderLifecycleAction::Cancel.to_fix_cancel_reject_response_to(), Ok(b'1'));
    assert_eq!(OrderLifecycleAction::Replace.to_fix_cancel_reject_response_to(), Ok(b'2'));
    assert_eq!(
        OrderLifecycleAction::Status.to_fix_cancel_reject_response_to(),
        Err(CodecError::StatusNotRejectTarget)
    );
}

#[test]
fn decoders_reject_malformed_frames() {
    let order = sample_order();
    let mut buffer = Vec::new();
    let len = encode_normalized_order_as_sbe(&mut buffer, &order).unwrap();
    assert_eq!(decode_normalized_order_from_sbe(&buffer[..4]).unwrap_err(), CodecError::FrameTooShort);
    assert!(matches!(
        decode_normalized_execution_report_from_sbe(&buffer[..len]).unwrap_err(),
        CodecError::TemplateMismatch { template_id: 2 }
    ));
    assert_eq!(
        decode_normalized_order_from_sbe(&buffer[..len - 1]).unwrap_err(),
        CodecError::VarDataOutOfBounds
    );
    let mut wrong_schema = buffer[..len].to_vec();
    wrong_schema[4] = 9;
    assert_eq!(
        decode_normalized_order_from_sbe(&wrong_schema).unwrap_err(),
        CodecError::SchemaMismatch { schema_id: 9 }
    );
    let mut bad_utf8 = buffer[..len].to_vec();
    bad_utf8[8 + 9 + 4] = 0xff;
    assert_eq!(decode_normalized_order_from_sbe(&bad_utf8).unwrap_err(), CodecError::InvalidUtf8);
}
