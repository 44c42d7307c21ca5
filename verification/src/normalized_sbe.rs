//! SBE codecs for the normalized order-flow messages exchanged between the
//! FIX gateway and internal services: orders, lifecycle requests, execution
//! reports and cancel rejects.
//!
//! Every message is a frame of the schema in `sbe`: the header, a fixed
//! block of scalar fields, then the text fields as length-prefixed UTF-8.
//! Each message type comes as an owned struct and as a view borrowing its
//! text; both have the same ghost model, which the contracts speak of.
use vstd::prelude::*;
use vstd::string::StringExecFns;

use crate::message::{first_i64, first_text, first_value, MessageView};
use crate::tags;
use crate::sbe::{
    ensure_texts_fit, frame_len, frame_written, get_le32, get_le64, le_i32, le_i64,
    lemma_frame_layout, lemma_read_i32_at, lemma_read_i64_at, push_header, push_u32_le,
    push_u64_le,
    push_var_texts, read_header, read_text_fields, read_u32_le, read_u64_le,
    spec_encode_outcome, spec_frame, spec_peek_template_id, spec_read_header, spec_read_texts,
    spec_header, spec_validate_header, str_views, texts_fit, validate_header, var_text,
    var_texts, write_frame, CodecError, SBE_HEADER_LENGTH,
};

verus! {

// ---------------------------------------------------------------------------
// Templates
// ---------------------------------------------------------------------------

/// Template id of a normalized order.
pub const NORMALIZED_ORDER_TEMPLATE_ID: u16 = 2u16;
/// Template id of a normalized execution report.
pub const NORMALIZED_EXECUTION_REPORT_TEMPLATE_ID: u16 = 3u16;
/// Template id of a normalized cancel request.
pub const NORMALIZED_CANCEL_REQUEST_TEMPLATE_ID: u16 = 4u16;
/// Template id of a normalized cancel/replace request.
pub const NORMALIZED_REPLACE_REQUEST_TEMPLATE_ID: u16 = 5u16;
/// Template id of a normalized order status request.
pub const NORMALIZED_ORDER_STATUS_REQUEST_TEMPLATE_ID: u16 = 6u16;
/// Template id of a normalized cancel reject.
pub const NORMALIZED_CANCEL_REJECT_TEMPLATE_ID: u16 = 7u16;

/// Fixed block of an order: side (u8), qty (i64).
pub const NORMALIZED_ORDER_BLOCK_LENGTH: u16 = 9u16;
/// Fixed block of an execution report: side, order/last/leaves/cum qty,
/// exec type, order status.
pub const NORMALIZED_EXECUTION_REPORT_BLOCK_LENGTH: u16 = 35u16;
/// Fixed block of a cancel request: side, qty.
pub const NORMALIZED_CANCEL_REQUEST_BLOCK_LENGTH: u16 = 9u16;
/// Fixed block of a replace request: side, qty.
pub const NORMALIZED_REPLACE_REQUEST_BLOCK_LENGTH: u16 = 9u16;
/// Fixed block of an order status request: side.
pub const NORMALIZED_ORDER_STATUS_REQUEST_BLOCK_LENGTH: u16 = 1u16;
/// Fixed block of a cancel reject: order status, response target, reason (i32).
pub const NORMALIZED_CANCEL_REJECT_BLOCK_LENGTH: u16 = 6u16;

/// Bytes of an order frame besides its text.
pub const NORMALIZED_ORDER_SBE_OVERHEAD: usize = 37usize;
/// Bytes of an execution report frame besides its text.
pub const NORMALIZED_EXECUTION_REPORT_SBE_OVERHEAD: usize = 67usize;
/// Bytes of a cancel request frame besides its text.
pub const NORMALIZED_CANCEL_REQUEST_SBE_OVERHEAD: usize = 37usize;
/// Bytes of a replace request frame besides its text.
pub const NORMALIZED_REPLACE_REQUEST_SBE_OVERHEAD: usize = 41usize;
/// Bytes of an order status request frame besides its text.
pub const NORMALIZED_ORDER_STATUS_REQUEST_SBE_OVERHEAD: usize = 29usize;
/// Bytes of a cancel reject frame besides its text.
pub const NORMALIZED_CANCEL_REJECT_SBE_OVERHEAD: usize = 30usize;

/// The template id of an SBE frame of this crate's schema.
pub fn peek_sbe_template_id(frame: &[u8]) -> (r: Result<u16, CodecError>)
    ensures
        r == spec_peek_template_id(frame@),
{
    let (_, template_id) = read_header(frame)?;
    Ok(template_id)
}

// ---------------------------------------------------------------------------
// Orders
// ---------------------------------------------------------------------------

/// A normalized order.
#[derive(Debug, Clone, PartialEq, Eq)]
pub struct NormalizedOrder {
    pub cl_ord_id: String,
    pub symbol: String,
    pub side: u8,
    pub qty: i64,
    pub price: String,
    pub sender_comp_id: String,
    pub target_comp_id: String,
}

/// A normalized order borrowing its text.
#[derive(Debug, Clone, Copy, PartialEq, Eq)]
pub struct NormalizedOrderView<'a> {
    pub cl_ord_id: &'a str,
    pub symbol: &'a str,
    pub side: u8,
    pub qty: i64,
    pub price: &'a str,
    pub sender_comp_id: &'a str,
    pub target_comp_id: &'a str,
}

/// What an order says.
pub ghost struct OrderModel {
    pub cl_ord_id: Seq<char>,
    pub symbol: Seq<char>,
    pub side: u8,
    pub qty: i64,
    pub price: Seq<char>,
    pub sender_comp_id: Seq<char>,
    pub target_comp_id: Seq<char>,
}

impl View for NormalizedOrder {
    type V = OrderModel;

    open spec fn view(&self) -> OrderModel {
        OrderModel {
            cl_ord_id: self.cl_ord_id@,
            symbol: self.symbol@,
            side: self.side,
            qty: self.qty,
            price: self.price@,
            sender_comp_id: self.sender_comp_id@,
            target_comp_id: self.target_comp_id@,
        }
    }
}

impl<'a> View for NormalizedOrderView<'a> {
    type V = OrderModel;

    open spec fn view(&self) -> OrderModel {
        OrderModel {
            cl_ord_id: self.cl_ord_id@,
            symbol: self.symbol@,
            side: self.side,
            qty: self.qty,
            price: self.price@,
            sender_comp_id: self.sender_comp_id@,
            target_comp_id: self.target_comp_id@,
        }
    }
}

/// The text fields of an order, in frame order.
pub open spec fn order_texts(m: OrderModel) -> Seq<Seq<char>> {
    seq![m.cl_ord_id, m.symbol, m.price, m.sender_comp_id, m.target_comp_id]
}

/// The fixed block of an order.
pub open spec fn order_block(m: OrderModel) -> Seq<u8> {
    seq![m.side] + le_i64(m.qty)
}

/// The SBE frame of an order.
pub open spec fn spec_order_frame(m: OrderModel) -> Seq<u8> {
    spec_frame(NORMALIZED_ORDER_BLOCK_LENGTH, NORMALIZED_ORDER_TEMPLATE_ID, order_block(m), order_texts(m))
}

/// What decoding `frame` as an order gives.
pub open spec fn spec_decode_order(frame: Seq<u8>) -> Result<OrderModel, CodecError> {
    match spec_validate_header(frame, NORMALIZED_ORDER_TEMPLATE_ID) {
        Err(e) => Err(e),
        Ok(bl) => if frame.len() < SBE_HEADER_LENGTH + NORMALIZED_ORDER_BLOCK_LENGTH {
            Err(CodecError::BlockTruncated)
        } else {
            match spec_read_texts(frame, SBE_HEADER_LENGTH + bl, 5) {
                Err(e) => Err(e),
                Ok((ts, _)) => Ok(
                    OrderModel {
                        cl_ord_id: ts[0],
                        symbol: ts[1],
                        side: frame[8],
                        qty: get_le64(frame, 9) as i64,
                        price: ts[2],
                        sender_comp_id: ts[3],
                        target_comp_id: ts[4],
                    },
                ),
            }
        },
    }
}

impl<'a> NormalizedOrderView<'a> {
    /// A view borrowing the text of `value`.
    pub fn of(value: &'a NormalizedOrder) -> (v: Self)
        ensures
            v@ == value@,
    {
        NormalizedOrderView {
            cl_ord_id: value.cl_ord_id.as_str(),
            symbol: value.symbol.as_str(),
            side: value.side,
            qty: value.qty,
            price: value.price.as_str(),
            sender_comp_id: value.sender_comp_id.as_str(),
            target_comp_id: value.target_comp_id.as_str(),
        }
    }

    /// The text fields, in frame order.
    fn texts(&self) -> (v: Vec<&'a str>)
        ensures
            str_views(v@) == order_texts(self@),
    {
        let v = vec![self.cl_ord_id, self.symbol, self.price, self.sender_comp_id, self.target_comp_id];
        assert(str_views(v@) =~= order_texts(self@));
        v
    }
}

impl NormalizedOrder {
    /// An owned copy of `view`.
    pub fn from_view(view: &NormalizedOrderView<'_>) -> (v: Self)
        ensures
            v@ == view@,
    {
        NormalizedOrder {
            cl_ord_id: view.cl_ord_id.to_owned(),
            symbol: view.symbol.to_owned(),
            side: view.side,
            qty: view.qty,
            price: view.price.to_owned(),
            sender_comp_id: view.sender_comp_id.to_owned(),
            target_comp_id: view.target_comp_id.to_owned(),
        }
    }
}

/// The length of the SBE frame of `value`.
pub fn encoded_normalized_order_len(value: &NormalizedOrder) -> (r: Result<usize, CodecError>)
    ensures
        r == spec_encode_outcome(order_texts(value@), spec_order_frame(value@)),
{
    let view = NormalizedOrderView::of(value);
    let texts = view.texts();
    ensure_texts_fit(&texts)?;
    match frame_len(NORMALIZED_ORDER_BLOCK_LENGTH, &texts) {
        Some(n) => Ok(n),
        None => Err(CodecError::FrameTooLarge),
    }
}

/// Encodes `value` at the front of `frame_buf`, growing it when it is too
/// short; the length of the frame.
pub fn encode_normalized_order_as_sbe(frame_buf: &mut Vec<u8>, value: &NormalizedOrder) -> (r: Result<
    usize,
    CodecError,
>)
    ensures
        r == spec_encode_outcome(order_texts(value@), spec_order_frame(value@)),
        r is Ok ==> frame_written(old(frame_buf)@, final(frame_buf)@, spec_order_frame(value@)),
        r is Err ==> final(frame_buf)@ == old(frame_buf)@,
{
    let view = NormalizedOrderView::of(value);
    encode_normalized_order_view_as_sbe(frame_buf, &view)
}

/// Encodes `value` at the front of `frame_buf`, growing it when it is too
/// short; the length of the frame.
pub fn encode_normalized_order_view_as_sbe(frame_buf: &mut Vec<u8>, value: &NormalizedOrderView<'_>) -> (r: Result<
    usize,
    CodecError,
>)
    ensures
        r == spec_encode_outcome(order_texts(value@), spec_order_frame(value@)),
        r is Ok ==> frame_written(old(frame_buf)@, final(frame_buf)@, spec_order_frame(value@)),
        r is Err ==> final(frame_buf)@ == old(frame_buf)@,
{
    let texts = value.texts();
    ensure_texts_fit(&texts)?;
    let n = match frame_len(NORMALIZED_ORDER_BLOCK_LENGTH, &texts) {
        Some(n) => n,
        None => return Err(CodecError::FrameTooLarge),
    };
    let mut content: Vec<u8> = Vec::new();
    push_header(&mut content, NORMALIZED_ORDER_BLOCK_LENGTH, NORMALIZED_ORDER_TEMPLATE_ID);
    content.push(value.side);
    push_u64_le(&mut content, value.qty as u64);
    push_var_texts(&mut content, &texts);
    assert(content@ =~= spec_order_frame(value@));
    write_frame(frame_buf, &content);
    Ok(n)
}

/// Decodes an order frame, borrowing its text from `frame`.
pub fn decode_normalized_order_view_from_sbe(frame: &[u8]) -> (r: Result<NormalizedOrderView<'_>, CodecError>)
    ensures
        match spec_decode_order(frame@) {
            Ok(m) => r matches Ok(v) && v@ == m,
            Err(e) => r == Err::<NormalizedOrderView<'_>, CodecError>(e),
        },
{
    let bl = validate_header(frame, NORMALIZED_ORDER_TEMPLATE_ID)?;
    if frame.len() < SBE_HEADER_LENGTH + NORMALIZED_ORDER_BLOCK_LENGTH as usize {
        return Err(CodecError::BlockTruncated);
    }
    let side = frame[8];
    let qty = read_u64_le(frame, 9) as i64;
    let t = read_text_fields(frame, SBE_HEADER_LENGTH + bl as usize, 5)?;
    Ok(
        NormalizedOrderView {
            cl_ord_id: t[0],
            symbol: t[1],
            side,
            qty,
            price: t[2],
            sender_comp_id: t[3],
            target_comp_id: t[4],
        },
    )
}

/// Decodes an order frame into an owned value.
pub fn decode_normalized_order_from_sbe(frame: &[u8]) -> (r: Result<NormalizedOrder, CodecError>)
    ensures
        match spec_decode_order(frame@) {
            Ok(m) => r matches Ok(v) && v@ == m,
            Err(e) => r == Err::<NormalizedOrder, CodecError>(e),
        },
{
    let view = decode_normalized_order_view_from_sbe(frame)?;
    Ok(NormalizedOrder::from_view(&view))
}

/// Decoding the frame of an order, followed by any bytes, gives it back;
/// the frame carries the order template.
pub proof fn lemma_order_roundtrip(m: OrderModel, rest: Seq<u8>)
    requires
        texts_fit(order_texts(m)),
    ensures
        spec_decode_order(spec_order_frame(m) + rest) == Ok::<OrderModel, CodecError>(m),
        spec_peek_template_id(spec_order_frame(m) + rest) == Ok::<u16, CodecError>(NORMALIZED_ORDER_TEMPLATE_ID),
{
    lemma_frame_layout(NORMALIZED_ORDER_BLOCK_LENGTH, NORMALIZED_ORDER_TEMPLATE_ID, order_block(m), order_texts(m), rest);
    lemma_order_from_layout(spec_order_frame(m) + rest, m);
}

/// A frame laid out with the header, block and text fields of `m` decodes
/// to `m`.
proof fn lemma_order_from_layout(f: Seq<u8>, m: OrderModel)
    requires
        spec_read_header(f) == Ok::<(u16, u16), CodecError>((NORMALIZED_ORDER_BLOCK_LENGTH, NORMALIZED_ORDER_TEMPLATE_ID)),
        f.len() >= 17,
        f.subrange(8, 17) == order_block(m),
        spec_read_texts(f, 17, 5) matches Ok((t, _)) && t == order_texts(m),
    ensures
        spec_decode_order(f) == Ok::<OrderModel, CodecError>(m),
        spec_peek_template_id(f) == Ok::<u16, CodecError>(NORMALIZED_ORDER_TEMPLATE_ID),
{
    lemma_order_block_read(f, m);
    lemma_order_decode_of(f, m);
}

/// Decoding a frame whose header, block and text fields hold those of `m`
/// gives `m`.
proof fn lemma_order_decode_of(f: Seq<u8>, m: OrderModel)
    requires
        spec_validate_header(f, NORMALIZED_ORDER_TEMPLATE_ID) == Ok::<u16, CodecError>(NORMALIZED_ORDER_BLOCK_LENGTH),
        f.len() >= 17,
        f[8] == m.side,
        get_le64(f, 9) as i64 == m.qty,
        spec_read_texts(f, 17, 5) matches Ok((t, _)) && t == order_texts(m),
    ensures
        spec_decode_order(f) == Ok::<OrderModel, CodecError>(m),
{
}

/// The scalar fields of an order read back from its fixed block.
proof fn lemma_order_block_read(f: Seq<u8>, m: OrderModel)
    requires
        f.len() >= 17,
        f.subrange(8, 17) == order_block(m),
    ensures
        f[8] == m.side,
        get_le64(f, 9) as i64 == m.qty,
{
    let w = f.subrange(8, 17);
    assert(f[8] == w[0]);
    assert(f.subrange(9, 17) =~= w.subrange(1, 9));
    assert(w.subrange(1, 9) =~= le_i64(m.qty));
    lemma_read_i64_at(f, 9, m.qty);
}

// ---------------------------------------------------------------------------
// Cancel requests
// ---------------------------------------------------------------------------

/// A normalized cancel request.
#[derive(Debug, Clone, PartialEq, Eq)]
pub struct NormalizedCancelRequest {
    pub cl_ord_id: String,
    pub orig_cl_ord_id: String,
    pub symbol: String,
    pub side: u8,
    pub qty: i64,
    pub sender_comp_id: String,
    pub target_comp_id: String,
}

/// A normalized cancel request borrowing its text.
#[derive(Debug, Clone, Copy, PartialEq, Eq)]
pub struct NormalizedCancelRequestView<'a> {
    pub cl_ord_id: &'a str,
    pub orig_cl_ord_id: &'a str,
    pub symbol: &'a str,
    pub side: u8,
    pub qty: i64,
    pub sender_comp_id: &'a str,
    pub target_comp_id: &'a str,
}

/// What a cancel request says.
pub ghost struct CancelRequestModel {
    pub cl_ord_id: Seq<char>,
    pub orig_cl_ord_id: Seq<char>,
    pub symbol: Seq<char>,
    pub side: u8,
    pub qty: i64,
    pub sender_comp_id: Seq<char>,
    pub target_comp_id: Seq<char>,
}

impl View for NormalizedCancelRequest {
    type V = CancelRequestModel;

    open spec fn view(&self) -> CancelRequestModel {
        CancelRequestModel {
            cl_ord_id: self.cl_ord_id@,
            orig_cl_ord_id: self.orig_cl_ord_id@,
            symbol: self.symbol@,
            side: self.side,
            qty: self.qty,
            sender_comp_id: self.sender_comp_id@,
            target_comp_id: self.target_comp_id@,
        }
    }
}

impl<'a> View for NormalizedCancelRequestView<'a> {
    type V = CancelRequestModel;

    open spec fn view(&self) -> CancelRequestModel {
        CancelRequestModel {
            cl_ord_id: self.cl_ord_id@,
            orig_cl_ord_id: self.orig_cl_ord_id@,
            symbol: self.symbol@,
            side: self.side,
            qty: self.qty,
            sender_comp_id: self.sender_comp_id@,
            target_comp_id: self.target_comp_id@,
        }
    }
}

/// The text fields of a cancel request, in frame order.
pub open spec fn cancel_request_texts(m: CancelRequestModel) -> Seq<Seq<char>> {
    seq![m.cl_ord_id, m.orig_cl_ord_id, m.symbol, m.sender_comp_id, m.target_comp_id]
}

/// The fixed block of a cancel request.
pub open spec fn cancel_request_block(m: CancelRequestModel) -> Seq<u8> {
    seq![m.side] + le_i64(m.qty)
}

/// The SBE frame of a cancel request.
pub open spec fn spec_cancel_request_frame(m: CancelRequestModel) -> Seq<u8> {
    spec_frame(NORMALIZED_CANCEL_REQUEST_BLOCK_LENGTH, NORMALIZED_CANCEL_REQUEST_TEMPLATE_ID, cancel_request_block(m), cancel_request_texts(m))
}

/// What decoding `frame` as a cancel request gives.
pub open spec fn spec_decode_cancel_request(frame: Seq<u8>) -> Result<CancelRequestModel, CodecError> {
    match spec_validate_header(frame, NORMALIZED_CANCEL_REQUEST_TEMPLATE_ID) {
        Err(e) => Err(e),
        Ok(bl) => if frame.len() < SBE_HEADER_LENGTH + NORMALIZED_CANCEL_REQUEST_BLOCK_LENGTH {
            Err(CodecError::BlockTruncated)
        } else {
            match spec_read_texts(frame, SBE_HEADER_LENGTH + bl, 5) {
                Err(e) => Err(e),
                Ok((ts, _)) => Ok(
                    CancelRequestModel {
                        cl_ord_id: ts[0],
                        orig_cl_ord_id: ts[1],
                        symbol: ts[2],
                        side: frame[8],
                        qty: get_le64(frame, 9) as i64,
                        sender_comp_id: ts[3],
                        target_comp_id: ts[4],
                    },
                ),
            }
        },
    }
}

impl<'a> NormalizedCancelRequestView<'a> {
    /// A view borrowing the text of `value`.
    pub fn of(value: &'a NormalizedCancelRequest) -> (v: Self)
        ensures
            v@ == value@,
    {
        NormalizedCancelRequestView {
            cl_ord_id: value.cl_ord_id.as_str(),
            orig_cl_ord_id: value.orig_cl_ord_id.as_str(),
            symbol: value.symbol.as_str(),
            side: value.side,
            qty: value.qty,
            sender_comp_id: value.sender_comp_id.as_str(),
            target_comp_id: value.target_comp_id.as_str(),
        }
    }

    /// The text fields, in frame order.
    fn texts(&self) -> (v: Vec<&'a str>)
        ensures
            str_views(v@) == cancel_request_texts(self@),
    {
        let v = vec![self.cl_ord_id, self.orig_cl_ord_id, self.symbol, self.sender_comp_id, self.target_comp_id];
        assert(str_views(v@) =~= cancel_request_texts(self@));
        v
    }
}

impl NormalizedCancelRequest {
    /// An owned copy of `view`.
    pub fn from_view(view: &NormalizedCancelRequestView<'_>) -> (v: Self)
        ensures
            v@ == view@,
    {
        NormalizedCancelRequest {
            cl_ord_id: view.cl_ord_id.to_owned(),
            orig_cl_ord_id: view.orig_cl_ord_id.to_owned(),
            symbol: view.symbol.to_owned(),
            side: view.side,
            qty: view.qty,
            sender_comp_id: view.sender_comp_id.to_owned(),
            target_comp_id: view.target_comp_id.to_owned(),
        }
    }
}

/// The length of the SBE frame of `value`.
pub fn encoded_normalized_cancel_request_len(value: &NormalizedCancelRequest) -> (r: Result<usize, CodecError>)
    ensures
        r == spec_encode_outcome(cancel_request_texts(value@), spec_cancel_request_frame(value@)),
{
    let view = NormalizedCancelRequestView::of(value);
    let texts = view.texts();
    ensure_texts_fit(&texts)?;
    match frame_len(NORMALIZED_CANCEL_REQUEST_BLOCK_LENGTH, &texts) {
        Some(n) => Ok(n),
        None => Err(CodecError::FrameTooLarge),
    }
}

/// Encodes `value` at the front of `frame_buf`, growing it when it is too
/// short; the length of the frame.
pub fn encode_normalized_cancel_request_as_sbe(frame_buf: &mut Vec<u8>, value: &NormalizedCancelRequest) -> (r: Result<
    usize,
    CodecError,
>)
    ensures
        r == spec_encode_outcome(cancel_request_texts(value@), spec_cancel_request_frame(value@)),
        r is Ok ==> frame_written(old(frame_buf)@, final(frame_buf)@, spec_cancel_request_frame(value@)),
        r is Err ==> final(frame_buf)@ == old(frame_buf)@,
{
    let view = NormalizedCancelRequestView::of(value);
    encode_normalized_cancel_request_view_as_sbe(frame_buf, &view)
}

/// Encodes `value` at the front of `frame_buf`, growing it when it is too
/// short; the length of the frame.
pub fn encode_normalized_cancel_request_view_as_sbe(frame_buf: &mut Vec<u8>, value: &NormalizedCancelRequestView<'_>) -> (r: Result<
    usize,
    CodecError,
>)
    ensures
        r == spec_encode_outcome(cancel_request_texts(value@), spec_cancel_request_frame(value@)),
        r is Ok ==> frame_written(old(frame_buf)@, final(frame_buf)@, spec_cancel_request_frame(value@)),
        r is Err ==> final(frame_buf)@ == old(frame_buf)@,
{
    let texts = value.texts();
    ensure_texts_fit(&texts)?;
    let n = match frame_len(NORMALIZED_CANCEL_REQUEST_BLOCK_LENGTH, &texts) {
        Some(n) => n,
        None => return Err(CodecError::FrameTooLarge),
    };
    let mut content: Vec<u8> = Vec::new();
    push_header(&mut content, NORMALIZED_CANCEL_REQUEST_BLOCK_LENGTH, NORMALIZED_CANCEL_REQUEST_TEMPLATE_ID);
    content.push(value.side);
    push_u64_le(&mut content, value.qty as u64);
    push_var_texts(&mut content, &texts);
    assert(content@ =~= spec_cancel_request_frame(value@));
    write_frame(frame_buf, &content);
    Ok(n)
}

/// Decodes a cancel request frame, borrowing its text from `frame`.
pub fn decode_normalized_cancel_request_view_from_sbe(frame: &[u8]) -> (r: Result<NormalizedCancelRequestView<'_>, CodecError>)
    ensures
        match spec_decode_cancel_request(frame@) {
            Ok(m) => r matches Ok(v) && v@ == m,
            Err(e) => r == Err::<NormalizedCancelRequestView<'_>, CodecError>(e),
        },
{
    let bl = validate_header(frame, NORMALIZED_CANCEL_REQUEST_TEMPLATE_ID)?;
    if frame.len() < SBE_HEADER_LENGTH + NORMALIZED_CANCEL_REQUEST_BLOCK_LENGTH as usize {
        return Err(CodecError::BlockTruncated);
    }
    let side = frame[8];
    let qty = read_u64_le(frame, 9) as i64;
    let t = read_text_fields(frame, SBE_HEADER_LENGTH + bl as usize, 5)?;
    Ok(
        NormalizedCancelRequestView {
            cl_ord_id: t[0],
            orig_cl_ord_id: t[1],
            symbol: t[2],
            side,
            qty,
            sender_comp_id: t[3],
            target_comp_id: t[4],
        },
    )
}

/// Decodes a cancel request frame into an owned value.
pub fn decode_normalized_cancel_request_from_sbe(frame: &[u8]) -> (r: Result<NormalizedCancelRequest, CodecError>)
    ensures
        match spec_decode_cancel_request(frame@) {
            Ok(m) => r matches Ok(v) && v@ == m,
            Err(e) => r == Err::<NormalizedCancelRequest, CodecError>(e),
        },
{
    let view = decode_normalized_cancel_request_view_from_sbe(frame)?;
    Ok(NormalizedCancelRequest::from_view(&view))
}

/// Decoding the frame of a cancel request, followed by any bytes, gives it back;
/// the frame carries the cancel request template.
pub proof fn lemma_cancel_request_roundtrip(m: CancelRequestModel, rest: Seq<u8>)
    requires
        texts_fit(cancel_request_texts(m)),
    ensures
        spec_decode_cancel_request(spec_cancel_request_frame(m) + rest) == Ok::<CancelRequestModel, CodecError>(m),
        spec_peek_template_id(spec_cancel_request_frame(m) + rest) == Ok::<u16, CodecError>(NORMALIZED_CANCEL_REQUEST_TEMPLATE_ID),
{
    lemma_frame_layout(NORMALIZED_CANCEL_REQUEST_BLOCK_LENGTH, NORMALIZED_CANCEL_REQUEST_TEMPLATE_ID, cancel_request_block(m), cancel_request_texts(m), rest);
    lemma_cancel_request_from_layout(spec_cancel_request_frame(m) + rest, m);
}

/// A frame laid out with the header, block and text fields of `m` decodes
/// to `m`.
proof fn lemma_cancel_request_from_layout(f: Seq<u8>, m: CancelRequestModel)
    requires
        spec_read_header(f) == Ok::<(u16, u16), CodecError>((NORMALIZED_CANCEL_REQUEST_BLOCK_LENGTH, NORMALIZED_CANCEL_REQUEST_TEMPLATE_ID)),
        f.len() >= 17,
        f.subrange(8, 17) == cancel_request_block(m),
        spec_read_texts(f, 17, 5) matches Ok((t, _)) && t == cancel_request_texts(m),
    ensures
        spec_decode_cancel_request(f) == Ok::<CancelRequestModel, CodecError>(m),
        spec_peek_template_id(f) == Ok::<u16, CodecError>(NORMALIZED_CANCEL_REQUEST_TEMPLATE_ID),
{
    lemma_cancel_request_block_read(f, m);
    lemma_cancel_request_decode_of(f, m);
}

/// Decoding a frame whose header, block and text fields hold those of `m`
/// gives `m`.
proof fn lemma_cancel_request_decode_of(f: Seq<u8>, m: CancelRequestModel)
    requires
        spec_validate_header(f, NORMALIZED_CANCEL_REQUEST_TEMPLATE_ID) == Ok::<u16, CodecError>(NORMALIZED_CANCEL_REQUEST_BLOCK_LENGTH),
        f.len() >= 17,
        f[8] == m.side,
        get_le64(f, 9) as i64 == m.qty,
        spec_read_texts(f, 17, 5) matches Ok((t, _)) && t == cancel_request_texts(m),
    ensures
        spec_decode_cancel_request(f) == Ok::<CancelRequestModel, CodecError>(m),
{
}

/// The scalar fields of a cancel request read back from its fixed block.
proof fn lemma_cancel_request_block_read(f: Seq<u8>, m: CancelRequestModel)
    requires
        f.len() >= 17,
        f.subrange(8, 17) == cancel_request_block(m),
    ensures
        f[8] == m.side,
        get_le64(f, 9) as i64 == m.qty,
{
    let w = f.subrange(8, 17);
    assert(f[8] == w[0]);
    assert(f.subrange(9, 17) =~= w.subrange(1, 9));
    assert(w.subrange(1, 9) =~= le_i64(m.qty));
    lemma_read_i64_at(f, 9, m.qty);
}

// ---------------------------------------------------------------------------
// Cancel/replace requests
// ---------------------------------------------------------------------------

/// A normalized cancel/replace request.
#[derive(Debug, Clone, PartialEq, Eq)]
pub struct NormalizedReplaceRequest {
    pub cl_ord_id: String,
    pub orig_cl_ord_id: String,
    pub symbol: String,
    pub side: u8,
    pub qty: i64,
    pub price: String,
    pub sender_comp_id: String,
    pub target_comp_id: String,
}

/// A normalized cancel/replace request borrowing its text.
#[derive(Debug, Clone, Copy, PartialEq, Eq)]
pub struct NormalizedReplaceRequestView<'a> {
    pub cl_ord_id: &'a str,
    pub orig_cl_ord_id: &'a str,
    pub symbol: &'a str,
    pub side: u8,
    pub qty: i64,
    pub price: &'a str,
    pub sender_comp_id: &'a str,
    pub target_comp_id: &'a str,
}

/// What a cancel/replace request says.
pub ghost struct ReplaceRequestModel {
    pub cl_ord_id: Seq<char>,
    pub orig_cl_ord_id: Seq<char>,
    pub symbol: Seq<char>,
    pub side: u8,
    pub qty: i64,
    pub price: Seq<char>,
    pub sender_comp_id: Seq<char>,
    pub target_comp_id: Seq<char>,
}

impl View for NormalizedReplaceRequest {
    type V = ReplaceRequestModel;

    open spec fn view(&self) -> ReplaceRequestModel {
        ReplaceRequestModel {
            cl_ord_id: self.cl_ord_id@,
            orig_cl_ord_id: self.orig_cl_ord_id@,
            symbol: self.symbol@,
            side: self.side,
            qty: self.qty,
            price: self.price@,
            sender_comp_id: self.sender_comp_id@,
            target_comp_id: self.target_comp_id@,
        }
    }
}

impl<'a> View for NormalizedReplaceRequestView<'a> {
    type V = ReplaceRequestModel;

    open spec fn view(&self) -> ReplaceRequestModel {
        ReplaceRequestModel {
            cl_ord_id: self.cl_ord_id@,
            orig_cl_ord_id: self.orig_cl_ord_id@,
            symbol: self.symbol@,
            side: self.side,
            qty: self.qty,
            price: self.price@,
            sender_comp_id: self.sender_comp_id@,
            target_comp_id: self.target_comp_id@,
        }
    }
}

/// The text fields of a cancel/replace request, in frame order.
pub open spec fn replace_request_texts(m: ReplaceRequestModel) -> Seq<Seq<char>> {
    seq![m.cl_ord_id, m.orig_cl_ord_id, m.symbol, m.price, m.sender_comp_id, m.target_comp_id]
}

/// The fixed block of a cancel/replace request.
pub open spec fn replace_request_block(m: ReplaceRequestModel) -> Seq<u8> {
    seq![m.side] + le_i64(m.qty)
}

/// The SBE frame of a cancel/replace request.
pub open spec fn spec_replace_request_frame(m: ReplaceRequestModel) -> Seq<u8> {
    spec_frame(NORMALIZED_REPLACE_REQUEST_BLOCK_LENGTH, NORMALIZED_REPLACE_REQUEST_TEMPLATE_ID, replace_request_block(m), replace_request_texts(m))
}

/// What decoding `frame` as a cancel/replace request gives.
pub open spec fn spec_decode_replace_request(frame: Seq<u8>) -> Result<ReplaceRequestModel, CodecError> {
    match spec_validate_header(frame, NORMALIZED_REPLACE_REQUEST_TEMPLATE_ID) {
        Err(e) => Err(e),
        Ok(bl) => if frame.len() < SBE_HEADER_LENGTH + NORMALIZED_REPLACE_REQUEST_BLOCK_LENGTH {
            Err(CodecError::BlockTruncated)
        } else {
            match spec_read_texts(frame, SBE_HEADER_LENGTH + bl, 6) {
                Err(e) => Err(e),
                Ok((ts, _)) => Ok(
                    ReplaceRequestModel {
                        cl_ord_id: ts[0],
                        orig_cl_ord_id: ts[1],
                        symbol: ts[2],
                        side: frame[8],
                        qty: get_le64(frame, 9) as i64,
                        price: ts[3],
                        sender_comp_id: ts[4],
                        target_comp_id: ts[5],
                    },
                ),
            }
        },
    }
}

impl<'a> NormalizedReplaceRequestView<'a> {
    /// A view borrowing the text of `value`.
    pub fn of(value: &'a NormalizedReplaceRequest) -> (v: Self)
        ensures
            v@ == value@,
    {
        NormalizedReplaceRequestView {
            cl_ord_id: value.cl_ord_id.as_str(),
            orig_cl_ord_id: value.orig_cl_ord_id.as_str(),
            symbol: value.symbol.as_str(),
            side: value.side,
            qty: value.qty,
            price: value.price.as_str(),
            sender_comp_id: value.sender_comp_id.as_str(),
            target_comp_id: value.target_comp_id.as_str(),
        }
    }

    /// The text fields, in frame order.
    fn texts(&self) -> (v: Vec<&'a str>)
        ensures
            str_views(v@) == replace_request_texts(self@),
    {
        let v = vec![self.cl_ord_id, self.orig_cl_ord_id, self.symbol, self.price, self.sender_comp_id, self.target_comp_id];
        assert(str_views(v@) =~= replace_request_texts(self@));
        v
    }
}

impl NormalizedReplaceRequest {
    /// An owned copy of `view`.
    pub fn from_view(view: &NormalizedReplaceRequestView<'_>) -> (v: Self)
        ensures
            v@ == view@,
    {
        NormalizedReplaceRequest {
            cl_ord_id: view.cl_ord_id.to_owned(),
            orig_cl_ord_id: view.orig_cl_ord_id.to_owned(),
            symbol: view.symbol.to_owned(),
            side: view.side,
            qty: view.qty,
            price: view.price.to_owned(),
            sender_comp_id: view.sender_comp_id.to_owned(),
            target_comp_id: view.target_comp_id.to_owned(),
        }
    }
}

/// The length of the SBE frame of `value`.
pub fn encoded_normalized_replace_request_len(value: &NormalizedReplaceRequest) -> (r: Result<usize, CodecError>)
    ensures
        r == spec_encode_outcome(replace_request_texts(value@), spec_replace_request_frame(value@)),
{
    let view = NormalizedReplaceRequestView::of(value);
    let texts = view.texts();
    ensure_texts_fit(&texts)?;
    match frame_len(NORMALIZED_REPLACE_REQUEST_BLOCK_LENGTH, &texts) {
        Some(n) => Ok(n),
        None => Err(CodecError::FrameTooLarge),
    }
}

/// Encodes `value` at the front of `frame_buf`, growing it when it is too
/// short; the length of the frame.
pub fn encode_normalized_replace_request_as_sbe(frame_buf: &mut Vec<u8>, value: &NormalizedReplaceRequest) -> (r: Result<
    usize,
    CodecError,
>)
    ensures
        r == spec_encode_outcome(replace_request_texts(value@), spec_replace_request_frame(value@)),
        r is Ok ==> frame_written(old(frame_buf)@, final(frame_buf)@, spec_replace_request_frame(value@)),
        r is Err ==> final(frame_buf)@ == old(frame_buf)@,
{
    let view = NormalizedReplaceRequestView::of(value);
    encode_normalized_replace_request_view_as_sbe(frame_buf, &view)
}

/// Encodes `value` at the front of `frame_buf`, growing it when it is too
/// short; the length of the frame.
pub fn encode_normalized_replace_request_view_as_sbe(frame_buf: &mut Vec<u8>, value: &NormalizedReplaceRequestView<'_>) -> (r: Result<
    usize,
    CodecError,
>)
    ensures
        r == spec_encode_outcome(replace_request_texts(value@), spec_replace_request_frame(value@)),
        r is Ok ==> frame_written(old(frame_buf)@, final(frame_buf)@, spec_replace_request_frame(value@)),
        r is Err ==> final(frame_buf)@ == old(frame_buf)@,
{
    let texts = value.texts();
    ensure_texts_fit(&texts)?;
    let n = match frame_len(NORMALIZED_REPLACE_REQUEST_BLOCK_LENGTH, &texts) {
        Some(n) => n,
        None => return Err(CodecError::FrameTooLarge),
    };
    let mut content: Vec<u8> = Vec::new();
    push_header(&mut content, NORMALIZED_REPLACE_REQUEST_BLOCK_LENGTH, NORMALIZED_REPLACE_REQUEST_TEMPLATE_ID);
    content.push(value.side);
    push_u64_le(&mut content, value.qty as u64);
    push_var_texts(&mut content, &texts);
    assert(content@ =~= spec_replace_request_frame(value@));
    write_frame(frame_buf, &content);
    Ok(n)
}

/// Decodes a cancel/replace request frame, borrowing its text from `frame`.
pub fn decode_normalized_replace_request_view_from_sbe(frame: &[u8]) -> (r: Result<NormalizedReplaceRequestView<'_>, CodecError>)
    ensures
        match spec_decode_replace_request(frame@) {
            Ok(m) => r matches Ok(v) && v@ == m,
            Err(e) => r == Err::<NormalizedReplaceRequestView<'_>, CodecError>(e),
        },
{
    let bl = validate_header(frame, NORMALIZED_REPLACE_REQUEST_TEMPLATE_ID)?;
    if frame.len() < SBE_HEADER_LENGTH + NORMALIZED_REPLACE_REQUEST_BLOCK_LENGTH as usize {
        return Err(CodecError::BlockTruncated);
    }
    let side = frame[8];
    let qty = read_u64_le(frame, 9) as i64;
    let t = read_text_fields(frame, SBE_HEADER_LENGTH + bl as usize, 6)?;
    Ok(
        NormalizedReplaceRequestView {
            cl_ord_id: t[0],
            orig_cl_ord_id: t[1],
            symbol: t[2],
            side,
            qty,
            price: t[3],
            sender_comp_id: t[4],
            target_comp_id: t[5],
        },
    )
}

/// Decodes a cancel/replace request frame into an owned value.
pub fn decode_normalized_replace_request_from_sbe(frame: &[u8]) -> (r: Result<NormalizedReplaceRequest, CodecError>)
    ensures
        match spec_decode_replace_request(frame@) {
            Ok(m) => r matches Ok(v) && v@ == m,
            Err(e) => r == Err::<NormalizedReplaceRequest, CodecError>(e),
        },
{
    let view = decode_normalized_replace_request_view_from_sbe(frame)?;
    Ok(NormalizedReplaceRequest::from_view(&view))
}

/// Decoding the frame of a cancel/replace request, followed by any bytes, gives it back;
/// the frame carries the cancel/replace request template.
pub proof fn lemma_replace_request_roundtrip(m: ReplaceRequestModel, rest: Seq<u8>)
    requires
        texts_fit(replace_request_texts(m)),
    ensures
        spec_decode_replace_request(spec_replace_request_frame(m) + rest) == Ok::<ReplaceRequestModel, CodecError>(m),
        spec_peek_template_id(spec_replace_request_frame(m) + rest) == Ok::<u16, CodecError>(NORMALIZED_REPLACE_REQUEST_TEMPLATE_ID),
{
    lemma_frame_layout(NORMALIZED_REPLACE_REQUEST_BLOCK_LENGTH, NORMALIZED_REPLACE_REQUEST_TEMPLATE_ID, replace_request_block(m), replace_request_texts(m), rest);
    lemma_replace_request_from_layout(spec_replace_request_frame(m) + rest, m);
}

/// A frame laid out with the header, block and text fields of `m` decodes
/// to `m`.
proof fn lemma_replace_request_from_layout(f: Seq<u8>, m: ReplaceRequestModel)
    requires
        spec_read_header(f) == Ok::<(u16, u16), CodecError>((NORMALIZED_REPLACE_REQUEST_BLOCK_LENGTH, NORMALIZED_REPLACE_REQUEST_TEMPLATE_ID)),
        f.len() >= 17,
        f.subrange(8, 17) == replace_request_block(m),
        spec_read_texts(f, 17, 6) matches Ok((t, _)) && t == replace_request_texts(m),
    ensures
        spec_decode_replace_request(f) == Ok::<ReplaceRequestModel, CodecError>(m),
        spec_peek_template_id(f) == Ok::<u16, CodecError>(NORMALIZED_REPLACE_REQUEST_TEMPLATE_ID),
{
    lemma_replace_request_block_read(f, m);
    lemma_replace_request_decode_of(f, m);
}

/// Decoding a frame whose header, block and text fields hold those of `m`
/// gives `m`.
proof fn lemma_replace_request_decode_of(f: Seq<u8>, m: ReplaceRequestModel)
    requires
        spec_validate_header(f, NORMALIZED_REPLACE_REQUEST_TEMPLATE_ID) == Ok::<u16, CodecError>(NORMALIZED_REPLACE_REQUEST_BLOCK_LENGTH),
        f.len() >= 17,
        f[8] == m.side,
        get_le64(f, 9) as i64 == m.qty,
        spec_read_texts(f, 17, 6) matches Ok((t, _)) && t == replace_request_texts(m),
    ensures
        spec_decode_replace_request(f) == Ok::<ReplaceRequestModel, CodecError>(m),
{
}

/// The scalar fields of a cancel/replace request read back from its fixed block.
proof fn lemma_replace_request_block_read(f: Seq<u8>, m: ReplaceRequestModel)
    requires
        f.len() >= 17,
        f.subrange(8, 17) == replace_request_block(m),
    ensures
        f[8] == m.side,
        get_le64(f, 9) as i64 == m.qty,
{
    let w = f.subrange(8, 17);
    assert(f[8] == w[0]);
    assert(f.subrange(9, 17) =~= w.subrange(1, 9));
    assert(w.subrange(1, 9) =~= le_i64(m.qty));
    lemma_read_i64_at(f, 9, m.qty);
}

// ---------------------------------------------------------------------------
// Order status requests
// ---------------------------------------------------------------------------

/// A normalized order status request.
#[derive(Debug, Clone, PartialEq, Eq)]
pub struct NormalizedOrderStatusRequest {
    pub cl_ord_id: String,
    pub order_id: String,
    pub symbol: String,
    pub side: u8,
    pub sender_comp_id: String,
    pub target_comp_id: String,
}

/// A normalized order status request borrowing its text.
#[derive(Debug, Clone, Copy, PartialEq, Eq)]
pub struct NormalizedOrderStatusRequestView<'a> {
    pub cl_ord_id: &'a str,
    pub order_id: &'a str,
    pub symbol: &'a str,
    pub side: u8,
    pub sender_comp_id: &'a str,
    pub target_comp_id: &'a str,
}

/// What an order status request says.
pub ghost struct OrderStatusRequestModel {
    pub cl_ord_id: Seq<char>,
    pub order_id: Seq<char>,
    pub symbol: Seq<char>,
    pub side: u8,
    pub sender_comp_id: Seq<char>,
    pub target_comp_id: Seq<char>,
}

impl View for NormalizedOrderStatusRequest {
    type V = OrderStatusRequestModel;

    open spec fn view(&self) -> OrderStatusRequestModel {
        OrderStatusRequestModel {
            cl_ord_id: self.cl_ord_id@,
            order_id: self.order_id@,
            symbol: self.symbol@,
            side: self.side,
            sender_comp_id: self.sender_comp_id@,
            target_comp_id: self.target_comp_id@,
        }
    }
}

impl<'a> View for NormalizedOrderStatusRequestView<'a> {
    type V = OrderStatusRequestModel;

    open spec fn view(&self) -> OrderStatusRequestModel {
        OrderStatusRequestModel {
            cl_ord_id: self.cl_ord_id@,
            order_id: self.order_id@,
            symbol: self.symbol@,
            side: self.side,
            sender_comp_id: self.sender_comp_id@,
            target_comp_id: self.target_comp_id@,
        }
    }
}

/// The text fields of an order status request, in frame order.
pub open spec fn order_status_request_texts(m: OrderStatusRequestModel) -> Seq<Seq<char>> {
    seq![m.cl_ord_id, m.order_id, m.symbol, m.sender_comp_id, m.target_comp_id]
}

/// The fixed block of an order status request.
pub open spec fn order_status_request_block(m: OrderStatusRequestModel) -> Seq<u8> {
    seq![m.side]
}

/// The SBE frame of an order status request.
pub open spec fn spec_order_status_request_frame(m: OrderStatusRequestModel) -> Seq<u8> {
    spec_frame(NORMALIZED_ORDER_STATUS_REQUEST_BLOCK_LENGTH, NORMALIZED_ORDER_STATUS_REQUEST_TEMPLATE_ID, order_status_request_block(m), order_status_request_texts(m))
}

/// What decoding `frame` as an order status request gives.
pub open spec fn spec_decode_order_status_request(frame: Seq<u8>) -> Result<OrderStatusRequestModel, CodecError> {
    match spec_validate_header(frame, NORMALIZED_ORDER_STATUS_REQUEST_TEMPLATE_ID) {
        Err(e) => Err(e),
        Ok(bl) => if frame.len() < SBE_HEADER_LENGTH + NORMALIZED_ORDER_STATUS_REQUEST_BLOCK_LENGTH {
            Err(CodecError::BlockTruncated)
        } else {
            match spec_read_texts(frame, SBE_HEADER_LENGTH + bl, 5) {
                Err(e) => Err(e),
                Ok((ts, _)) => Ok(
                    OrderStatusRequestModel {
                        cl_ord_id: ts[0],
                        order_id: ts[1],
                        symbol: ts[2],
                        side: frame[8],
                        sender_comp_id: ts[3],
                        target_comp_id: ts[4],
                    },
                ),
            }
        },
    }
}

impl<'a> NormalizedOrderStatusRequestView<'a> {
    /// A view borrowing the text of `value`.
    pub fn of(value: &'a NormalizedOrderStatusRequest) -> (v: Self)
        ensures
            v@ == value@,
    {
        NormalizedOrderStatusRequestView {
            cl_ord_id: value.cl_ord_id.as_str(),
            order_id: value.order_id.as_str(),
            symbol: value.symbol.as_str(),
            side: value.side,
            sender_comp_id: value.sender_comp_id.as_str(),
            target_comp_id: value.target_comp_id.as_str(),
        }
    }

    /// The text fields, in frame order.
    fn texts(&self) -> (v: Vec<&'a str>)
        ensures
            str_views(v@) == order_status_request_texts(self@),
    {
        let v = vec![self.cl_ord_id, self.order_id, self.symbol, self.sender_comp_id, self.target_comp_id];
        assert(str_views(v@) =~= order_status_request_texts(self@));
        v
    }
}

impl NormalizedOrderStatusRequest {
    /// An owned copy of `view`.
    pub fn from_view(view: &NormalizedOrderStatusRequestView<'_>) -> (v: Self)
        ensures
            v@ == view@,
    {
        NormalizedOrderStatusRequest {
            cl_ord_id: view.cl_ord_id.to_owned(),
            order_id: view.order_id.to_owned(),
            symbol: view.symbol.to_owned(),
            side: view.side,
            sender_comp_id: view.sender_comp_id.to_owned(),
            target_comp_id: view.target_comp_id.to_owned(),
        }
    }
}

/// The length of the SBE frame of `value`.
pub fn encoded_normalized_order_status_request_len(value: &NormalizedOrderStatusRequest) -> (r: Result<usize, CodecError>)
    ensures
        r == spec_encode_outcome(order_status_request_texts(value@), spec_order_status_request_frame(value@)),
{
    let view = NormalizedOrderStatusRequestView::of(value);
    let texts = view.texts();
    ensure_texts_fit(&texts)?;
    match frame_len(NORMALIZED_ORDER_STATUS_REQUEST_BLOCK_LENGTH, &texts) {
        Some(n) => Ok(n),
        None => Err(CodecError::FrameTooLarge),
    }
}

/// Encodes `value` at the front of `frame_buf`, growing it when it is too
/// short; the length of the frame.
pub fn encode_normalized_order_status_request_as_sbe(frame_buf: &mut Vec<u8>, value: &NormalizedOrderStatusRequest) -> (r: Result<
    usize,
    CodecError,
>)
    ensures
        r == spec_encode_outcome(order_status_request_texts(value@), spec_order_status_request_frame(value@)),
        r is Ok ==> frame_written(old(frame_buf)@, final(frame_buf)@, spec_order_status_request_frame(value@)),
        r is Err ==> final(frame_buf)@ == old(frame_buf)@,
{
    let view = NormalizedOrderStatusRequestView::of(value);
    encode_normalized_order_status_request_view_as_sbe(frame_buf, &view)
}

/// Encodes `value` at the front of `frame_buf`, growing it when it is too
/// short; the length of the frame.
pub fn encode_normalized_order_status_request_view_as_sbe(frame_buf: &mut Vec<u8>, value: &NormalizedOrderStatusRequestView<'_>) -> (r: Result<
    usize,
    CodecError,
>)
    ensures
        r == spec_encode_outcome(order_status_request_texts(value@), spec_order_status_request_frame(value@)),
        r is Ok ==> frame_written(old(frame_buf)@, final(frame_buf)@, spec_order_status_request_frame(value@)),
        r is Err ==> final(frame_buf)@ == old(frame_buf)@,
{
    let texts = value.texts();
    ensure_texts_fit(&texts)?;
    let n = match frame_len(NORMALIZED_ORDER_STATUS_REQUEST_BLOCK_LENGTH, &texts) {
        Some(n) => n,
        None => return Err(CodecError::FrameTooLarge),
    };
    let mut content: Vec<u8> = Vec::new();
    push_header(&mut content, NORMALIZED_ORDER_STATUS_REQUEST_BLOCK_LENGTH, NORMALIZED_ORDER_STATUS_REQUEST_TEMPLATE_ID);
    content.push(value.side);
    push_var_texts(&mut content, &texts);
    assert(content@ =~= spec_order_status_request_frame(value@));
    write_frame(frame_buf, &content);
    Ok(n)
}

/// Decodes an order status request frame, borrowing its text from `frame`.
pub fn decode_normalized_order_status_request_view_from_sbe(frame: &[u8]) -> (r: Result<NormalizedOrderStatusRequestView<'_>, CodecError>)
    ensures
        match spec_decode_order_status_request(frame@) {
            Ok(m) => r matches Ok(v) && v@ == m,
            Err(e) => r == Err::<NormalizedOrderStatusRequestView<'_>, CodecError>(e),
        },
{
    let bl = validate_header(frame, NORMALIZED_ORDER_STATUS_REQUEST_TEMPLATE_ID)?;
    if frame.len() < SBE_HEADER_LENGTH + NORMALIZED_ORDER_STATUS_REQUEST_BLOCK_LENGTH as usize {
        return Err(CodecError::BlockTruncated);
    }
    let side = frame[8];
    let t = read_text_fields(frame, SBE_HEADER_LENGTH + bl as usize, 5)?;
    Ok(
        NormalizedOrderStatusRequestView {
            cl_ord_id: t[0],
            order_id: t[1],
            symbol: t[2],
            side,
            sender_comp_id: t[3],
            target_comp_id: t[4],
        },
    )
}

/// Decodes an order status request frame into an owned value.
pub fn decode_normalized_order_status_request_from_sbe(frame: &[u8]) -> (r: Result<NormalizedOrderStatusRequest, CodecError>)
    ensures
        match spec_decode_order_status_request(frame@) {
            Ok(m) => r matches Ok(v) && v@ == m,
            Err(e) => r == Err::<NormalizedOrderStatusRequest, CodecError>(e),
        },
{
    let view = decode_normalized_order_status_request_view_from_sbe(frame)?;
    Ok(NormalizedOrderStatusRequest::from_view(&view))
}

/// Decoding the frame of an order status request, followed by any bytes, gives it back;
/// the frame carries the order status request template.
pub proof fn lemma_order_status_request_roundtrip(m: OrderStatusRequestModel, rest: Seq<u8>)
    requires
        texts_fit(order_status_request_texts(m)),
    ensures
        spec_decode_order_status_request(spec_order_status_request_frame(m) + rest) == Ok::<OrderStatusRequestModel, CodecError>(m),
        spec_peek_template_id(spec_order_status_request_frame(m) + rest) == Ok::<u16, CodecError>(NORMALIZED_ORDER_STATUS_REQUEST_TEMPLATE_ID),
{
    lemma_frame_layout(NORMALIZED_ORDER_STATUS_REQUEST_BLOCK_LENGTH, NORMALIZED_ORDER_STATUS_REQUEST_TEMPLATE_ID, order_status_request_block(m), order_status_request_texts(m), rest);
    lemma_order_status_request_from_layout(spec_order_status_request_frame(m) + rest, m);
}

/// A frame laid out with the header, block and text fields of `m` decodes
/// to `m`.
proof fn lemma_order_status_request_from_layout(f: Seq<u8>, m: OrderStatusRequestModel)
    requires
        spec_read_header(f) == Ok::<(u16, u16), CodecError>((NORMALIZED_ORDER_STATUS_REQUEST_BLOCK_LENGTH, NORMALIZED_ORDER_STATUS_REQUEST_TEMPLATE_ID)),
        f.len() >= 9,
        f.subrange(8, 9) == order_status_request_block(m),
        spec_read_texts(f, 9, 5) matches Ok((t, _)) && t == order_status_request_texts(m),
    ensures
        spec_decode_order_status_request(f) == Ok::<OrderStatusRequestModel, CodecError>(m),
        spec_peek_template_id(f) == Ok::<u16, CodecError>(NORMALIZED_ORDER_STATUS_REQUEST_TEMPLATE_ID),
{
    lemma_order_status_request_block_read(f, m);
    lemma_order_status_request_decode_of(f, m);
}

/// Decoding a frame whose header, block and text fields hold those of `m`
/// gives `m`.
proof fn lemma_order_status_request_decode_of(f: Seq<u8>, m: OrderStatusRequestModel)
    requires
        spec_validate_header(f, NORMALIZED_ORDER_STATUS_REQUEST_TEMPLATE_ID) == Ok::<u16, CodecError>(NORMALIZED_ORDER_STATUS_REQUEST_BLOCK_LENGTH),
        f.len() >= 9,
        f[8] == m.side,
        spec_read_texts(f, 9, 5) matches Ok((t, _)) && t == order_status_request_texts(m),
    ensures
        spec_decode_order_status_request(f) == Ok::<OrderStatusRequestModel, CodecError>(m),
{
}

/// The scalar fields of an order status request read back from its fixed block.
proof fn lemma_order_status_request_block_read(f: Seq<u8>, m: OrderStatusRequestModel)
    requires
        f.len() >= 9,
        f.subrange(8, 9) == order_status_request_block(m),
    ensures
        f[8] == m.side,
{
    let w = f.subrange(8, 9);
    assert(f[8] == w[0]);
}

// ---------------------------------------------------------------------------
// Execution reports
// ---------------------------------------------------------------------------

/// A normalized execution report.
#[derive(Debug, Clone, PartialEq, Eq)]
pub struct NormalizedExecutionReport {
    pub cl_ord_id: String,
    pub symbol: String,
    pub side: u8,
    pub order_qty: i64,
    pub last_qty: i64,
    pub last_px: String,
    pub leaves_qty: i64,
    pub cum_qty: i64,
    pub avg_px: String,
    pub order_id: String,
    pub exec_id: String,
    pub exec_type: u8,
    pub ord_status: u8,
}

/// A normalized execution report borrowing its text.
#[derive(Debug, Clone, Copy, PartialEq, Eq)]
pub struct NormalizedExecutionReportView<'a> {
    pub cl_ord_id: &'a str,
    pub symbol: &'a str,
    pub side: u8,
    pub order_qty: i64,
    pub last_qty: i64,
    pub last_px: &'a str,
    pub leaves_qty: i64,
    pub cum_qty: i64,
    pub avg_px: &'a str,
    pub order_id: &'a str,
    pub exec_id: &'a str,
    pub exec_type: u8,
    pub ord_status: u8,
}

/// What an execution report says.
pub ghost struct ExecutionReportModel {
    pub cl_ord_id: Seq<char>,
    pub symbol: Seq<char>,
    pub side: u8,
    pub order_qty: i64,
    pub last_qty: i64,
    pub last_px: Seq<char>,
    pub leaves_qty: i64,
    pub cum_qty: i64,
    pub avg_px: Seq<char>,
    pub order_id: Seq<char>,
    pub exec_id: Seq<char>,
    pub exec_type: u8,
    pub ord_status: u8,
}

impl View for NormalizedExecutionReport {
    type V = ExecutionReportModel;

    open spec fn view(&self) -> ExecutionReportModel {
        ExecutionReportModel {
            cl_ord_id: self.cl_ord_id@,
            symbol: self.symbol@,
            side: self.side,
            order_qty: self.order_qty,
            last_qty: self.last_qty,
            last_px: self.last_px@,
            leaves_qty: self.leaves_qty,
            cum_qty: self.cum_qty,
            avg_px: self.avg_px@,
            order_id: self.order_id@,
            exec_id: self.exec_id@,
            exec_type: self.exec_type,
            ord_status: self.ord_status,
        }
    }
}

impl<'a> View for NormalizedExecutionReportView<'a> {
    type V = ExecutionReportModel;

    open spec fn view(&self) -> ExecutionReportModel {
        ExecutionReportModel {
            cl_ord_id: self.cl_ord_id@,
            symbol: self.symbol@,
            side: self.side,
            order_qty: self.order_qty,
            last_qty: self.last_qty,
            last_px: self.last_px@,
            leaves_qty: self.leaves_qty,
            cum_qty: self.cum_qty,
            avg_px: self.avg_px@,
            order_id: self.order_id@,
            exec_id: self.exec_id@,
            exec_type: self.exec_type,
            ord_status: self.ord_status,
        }
    }
}

/// The text fields of an execution report, in frame order.
pub open spec fn execution_report_texts(m: ExecutionReportModel) -> Seq<Seq<char>> {
    seq![m.cl_ord_id, m.symbol, m.last_px, m.avg_px, m.order_id, m.exec_id]
}

/// The fixed block of an execution report.
pub open spec fn execution_report_block(m: ExecutionReportModel) -> Seq<u8> {
    seq![m.side] + le_i64(m.order_qty) + le_i64(m.last_qty) + le_i64(m.leaves_qty) + le_i64(m.cum_qty) + seq![m.exec_type] + seq![m.ord_status]
}

/// The SBE frame of an execution report.
pub open spec fn spec_execution_report_frame(m: ExecutionReportModel) -> Seq<u8> {
    spec_frame(NORMALIZED_EXECUTION_REPORT_BLOCK_LENGTH, NORMALIZED_EXECUTION_REPORT_TEMPLATE_ID, execution_report_block(m), execution_report_texts(m))
}

/// What decoding `frame` as an execution report gives.
pub open spec fn spec_decode_execution_report(frame: Seq<u8>) -> Result<ExecutionReportModel, CodecError> {
    match spec_validate_header(frame, NORMALIZED_EXECUTION_REPORT_TEMPLATE_ID) {
        Err(e) => Err(e),
        Ok(bl) => if frame.len() < SBE_HEADER_LENGTH + NORMALIZED_EXECUTION_REPORT_BLOCK_LENGTH {
            Err(CodecError::BlockTruncated)
        } else {
            match spec_read_texts(frame, SBE_HEADER_LENGTH + bl, 6) {
                Err(e) => Err(e),
                Ok((ts, _)) => Ok(
                    ExecutionReportModel {
                        cl_ord_id: ts[0],
                        symbol: ts[1],
                        side: frame[8],
                        order_qty: get_le64(frame, 9) as i64,
                        last_qty: get_le64(frame, 17) as i64,
                        last_px: ts[2],
                        leaves_qty: get_le64(frame, 25) as i64,
                        cum_qty: get_le64(frame, 33) as i64,
                        avg_px: ts[3],
                        order_id: ts[4],
                        exec_id: ts[5],
                        exec_type: frame[41],
                        ord_status: frame[42],
                    },
                ),
            }
        },
    }
}

impl<'a> NormalizedExecutionReportView<'a> {
    /// A view borrowing the text of `value`.
    pub fn of(value: &'a NormalizedExecutionReport) -> (v: Self)
        ensures
            v@ == value@,
    {
        NormalizedExecutionReportView {
            cl_ord_id: value.cl_ord_id.as_str(),
            symbol: value.symbol.as_str(),
            side: value.side,
            order_qty: value.order_qty,
            last_qty: value.last_qty,
            last_px: value.last_px.as_str(),
            leaves_qty: value.leaves_qty,
            cum_qty: value.cum_qty,
            avg_px: value.avg_px.as_str(),
            order_id: value.order_id.as_str(),
            exec_id: value.exec_id.as_str(),
            exec_type: value.exec_type,
            ord_status: value.ord_status,
        }
    }

    /// The text fields, in frame order.
    fn texts(&self) -> (v: Vec<&'a str>)
        ensures
            str_views(v@) == execution_report_texts(self@),
    {
        let v = vec![self.cl_ord_id, self.symbol, self.last_px, self.avg_px, self.order_id, self.exec_id];
        assert(str_views(v@) =~= execution_report_texts(self@));
        v
    }
}

impl NormalizedExecutionReport {
    /// An owned copy of `view`.
    pub fn from_view(view: &NormalizedExecutionReportView<'_>) -> (v: Self)
        ensures
            v@ == view@,
    {
        NormalizedExecutionReport {
            cl_ord_id: view.cl_ord_id.to_owned(),
            symbol: view.symbol.to_owned(),
            side: view.side,
            order_qty: view.order_qty,
            last_qty: view.last_qty,
            last_px: view.last_px.to_owned(),
            leaves_qty: view.leaves_qty,
            cum_qty: view.cum_qty,
            avg_px: view.avg_px.to_owned(),
            order_id: view.order_id.to_owned(),
            exec_id: view.exec_id.to_owned(),
            exec_type: view.exec_type,
            ord_status: view.ord_status,
        }
    }
}

/// The length of the SBE frame of `value`.
pub fn encoded_normalized_execution_report_len(value: &NormalizedExecutionReport) -> (r: Result<usize, CodecError>)
    ensures
        r == spec_encode_outcome(execution_report_texts(value@), spec_execution_report_frame(value@)),
{
    let view = NormalizedExecutionReportView::of(value);
    let texts = view.texts();
    ensure_texts_fit(&texts)?;
    match frame_len(NORMALIZED_EXECUTION_REPORT_BLOCK_LENGTH, &texts) {
        Some(n) => Ok(n),
        None => Err(CodecError::FrameTooLarge),
    }
}

/// Encodes `value` at the front of `frame_buf`, growing it when it is too
/// short; the length of the frame.
pub fn encode_normalized_execution_report_as_sbe(frame_buf: &mut Vec<u8>, value: &NormalizedExecutionReport) -> (r: Result<
    usize,
    CodecError,
>)
    ensures
        r == spec_encode_outcome(execution_report_texts(value@), spec_execution_report_frame(value@)),
        r is Ok ==> frame_written(old(frame_buf)@, final(frame_buf)@, spec_execution_report_frame(value@)),
        r is Err ==> final(frame_buf)@ == old(frame_buf)@,
{
    let view = NormalizedExecutionReportView::of(value);
    encode_normalized_execution_report_view_as_sbe(frame_buf, &view)
}

/// Encodes `value` at the front of `frame_buf`, growing it when it is too
/// short; the length of the frame.
pub fn encode_normalized_execution_report_view_as_sbe(frame_buf: &mut Vec<u8>, value: &NormalizedExecutionReportView<'_>) -> (r: Result<
    usize,
    CodecError,
>)
    ensures
        r == spec_encode_outcome(execution_report_texts(value@), spec_execution_report_frame(value@)),
        r is Ok ==> frame_written(old(frame_buf)@, final(frame_buf)@, spec_execution_report_frame(value@)),
        r is Err ==> final(frame_buf)@ == old(frame_buf)@,
{
    let texts = value.texts();
    ensure_texts_fit(&texts)?;
    let n = match frame_len(NORMALIZED_EXECUTION_REPORT_BLOCK_LENGTH, &texts) {
        Some(n) => n,
        None => return Err(CodecError::FrameTooLarge),
    };
    let mut content: Vec<u8> = Vec::new();
    push_header(&mut content, NORMALIZED_EXECUTION_REPORT_BLOCK_LENGTH, NORMALIZED_EXECUTION_REPORT_TEMPLATE_ID);
    content.push(value.side);
    push_u64_le(&mut content, value.order_qty as u64);
    push_u64_le(&mut content, value.last_qty as u64);
    push_u64_le(&mut content, value.leaves_qty as u64);
    push_u64_le(&mut content, value.cum_qty as u64);
    content.push(value.exec_type);
    content.push(value.ord_status);
    push_var_texts(&mut content, &texts);
    assert(content@ =~= spec_execution_report_frame(value@));
    write_frame(frame_buf, &content);
    Ok(n)
}

/// Decodes an execution report frame, borrowing its text from `frame`.
pub fn decode_normalized_execution_report_view_from_sbe(frame: &[u8]) -> (r: Result<NormalizedExecutionReportView<'_>, CodecError>)
    ensures
        match spec_decode_execution_report(frame@) {
            Ok(m) => r matches Ok(v) && v@ == m,
            Err(e) => r == Err::<NormalizedExecutionReportView<'_>, CodecError>(e),
        },
{
    let bl = validate_header(frame, NORMALIZED_EXECUTION_REPORT_TEMPLATE_ID)?;
    if frame.len() < SBE_HEADER_LENGTH + NORMALIZED_EXECUTION_REPORT_BLOCK_LENGTH as usize {
        return Err(CodecError::BlockTruncated);
    }
    let side = frame[8];
    let order_qty = read_u64_le(frame, 9) as i64;
    let last_qty = read_u64_le(frame, 17) as i64;
    let leaves_qty = read_u64_le(frame, 25) as i64;
    let cum_qty = read_u64_le(frame, 33) as i64;
    let exec_type = frame[41];
    let ord_status = frame[42];
    let t = read_text_fields(frame, SBE_HEADER_LENGTH + bl as usize, 6)?;
    Ok(
        NormalizedExecutionReportView {
            cl_ord_id: t[0],
            symbol: t[1],
            side,
            order_qty,
            last_qty,
            last_px: t[2],
            leaves_qty,
            cum_qty,
            avg_px: t[3],
            order_id: t[4],
            exec_id: t[5],
            exec_type,
            ord_status,
        },
    )
}

/// Decodes an execution report frame into an owned value.
pub fn decode_normalized_execution_report_from_sbe(frame: &[u8]) -> (r: Result<NormalizedExecutionReport, CodecError>)
    ensures
        match spec_decode_execution_report(frame@) {
            Ok(m) => r matches Ok(v) && v@ == m,
            Err(e) => r == Err::<NormalizedExecutionReport, CodecError>(e),
        },
{
    let view = decode_normalized_execution_report_view_from_sbe(frame)?;
    Ok(NormalizedExecutionReport::from_view(&view))
}

/// Decoding the frame of an execution report, followed by any bytes, gives it back;
/// the frame carries the execution report template.
#[verifier::spinoff_prover]
#[verifier::rlimit(40)]
pub proof fn lemma_execution_report_roundtrip(m: ExecutionReportModel, rest: Seq<u8>)
    requires
        texts_fit(execution_report_texts(m)),
    ensures
        spec_decode_execution_report(spec_execution_report_frame(m) + rest) == Ok::<ExecutionReportModel, CodecError>(m),
        spec_peek_template_id(spec_execution_report_frame(m) + rest) == Ok::<u16, CodecError>(NORMALIZED_EXECUTION_REPORT_TEMPLATE_ID),
{
    lemma_frame_layout(NORMALIZED_EXECUTION_REPORT_BLOCK_LENGTH, NORMALIZED_EXECUTION_REPORT_TEMPLATE_ID, execution_report_block(m), execution_report_texts(m), rest);
    lemma_execution_report_from_layout(spec_execution_report_frame(m) + rest, m);
}

/// A frame laid out with the header, block and text fields of `m` decodes
/// to `m`.
proof fn lemma_execution_report_from_layout(f: Seq<u8>, m: ExecutionReportModel)
    requires
        spec_read_header(f) == Ok::<(u16, u16), CodecError>((NORMALIZED_EXECUTION_REPORT_BLOCK_LENGTH, NORMALIZED_EXECUTION_REPORT_TEMPLATE_ID)),
        f.len() >= 43,
        f.subrange(8, 43) == execution_report_block(m),
        spec_read_texts(f, 43, 6) matches Ok((t, _)) && t == execution_report_texts(m),
    ensures
        spec_decode_execution_report(f) == Ok::<ExecutionReportModel, CodecError>(m),
        spec_peek_template_id(f) == Ok::<u16, CodecError>(NORMALIZED_EXECUTION_REPORT_TEMPLATE_ID),
{
    lemma_execution_report_block_read(f, m);
    lemma_execution_report_decode_of(f, m);
}

/// Decoding a frame whose header, block and text fields hold those of `m`
/// gives `m`.
proof fn lemma_execution_report_decode_of(f: Seq<u8>, m: ExecutionReportModel)
    requires
        spec_validate_header(f, NORMALIZED_EXECUTION_REPORT_TEMPLATE_ID) == Ok::<u16, CodecError>(NORMALIZED_EXECUTION_REPORT_BLOCK_LENGTH),
        f.len() >= 43,
        f[8] == m.side,
        get_le64(f, 9) as i64 == m.order_qty,
        get_le64(f, 17) as i64 == m.last_qty,
        get_le64(f, 25) as i64 == m.leaves_qty,
        get_le64(f, 33) as i64 == m.cum_qty,
        f[41] == m.exec_type,
        f[42] == m.ord_status,
        spec_read_texts(f, 43, 6) matches Ok((t, _)) && t == execution_report_texts(m),
    ensures
        spec_decode_execution_report(f) == Ok::<ExecutionReportModel, CodecError>(m),
{
}

/// The scalar fields of an execution report read back from its fixed block.
proof fn lemma_execution_report_block_read(f: Seq<u8>, m: ExecutionReportModel)
    requires
        f.len() >= 43,
        f.subrange(8, 43) == execution_report_block(m),
    ensures
        f[8] == m.side,
        get_le64(f, 9) as i64 == m.order_qty,
        get_le64(f, 17) as i64 == m.last_qty,
        get_le64(f, 25) as i64 == m.leaves_qty,
        get_le64(f, 33) as i64 == m.cum_qty,
        f[41] == m.exec_type,
        f[42] == m.ord_status,
{
    let w = f.subrange(8, 43);
    assert(f[8] == w[0]);
    assert(f.subrange(9, 17) =~= w.subrange(1, 9));
    assert(w.subrange(1, 9) =~= le_i64(m.order_qty));
    lemma_read_i64_at(f, 9, m.order_qty);
    assert(f.subrange(17, 25) =~= w.subrange(9, 17));
    assert(w.subrange(9, 17) =~= le_i64(m.last_qty));
    lemma_read_i64_at(f, 17, m.last_qty);
    assert(f.subrange(25, 33) =~= w.subrange(17, 25));
    assert(w.subrange(17, 25) =~= le_i64(m.leaves_qty));
    lemma_read_i64_at(f, 25, m.leaves_qty);
    assert(f.subrange(33, 41) =~= w.subrange(25, 33));
    assert(w.subrange(25, 33) =~= le_i64(m.cum_qty));
    lemma_read_i64_at(f, 33, m.cum_qty);
    assert(f[41] == w[33]);
    assert(f[42] == w[34]);
}

// ---------------------------------------------------------------------------
// Cancel rejects
// ---------------------------------------------------------------------------

/// A normalized cancel reject.
#[derive(Debug, Clone, PartialEq, Eq)]
pub struct NormalizedCancelReject {
    pub order_id: String,
    pub cl_ord_id: String,
    pub orig_cl_ord_id: String,
    pub ord_status: u8,
    pub cxl_rej_response_to: u8,
    pub cxl_rej_reason: i32,
    pub text: String,
}

/// A normalized cancel reject borrowing its text.
#[derive(Debug, Clone, Copy, PartialEq, Eq)]
pub struct NormalizedCancelRejectView<'a> {
    pub order_id: &'a str,
    pub cl_ord_id: &'a str,
    pub orig_cl_ord_id: &'a str,
    pub ord_status: u8,
    pub cxl_rej_response_to: u8,
    pub cxl_rej_reason: i32,
    pub text: &'a str,
}

/// What a cancel reject says.
pub ghost struct CancelRejectModel {
    pub order_id: Seq<char>,
    pub cl_ord_id: Seq<char>,
    pub orig_cl_ord_id: Seq<char>,
    pub ord_status: u8,
    pub cxl_rej_response_to: u8,
    pub cxl_rej_reason: i32,
    pub text: Seq<char>,
}

impl View for NormalizedCancelReject {
    type V = CancelRejectModel;

    open spec fn view(&self) -> CancelRejectModel {
        CancelRejectModel {
            order_id: self.order_id@,
            cl_ord_id: self.cl_ord_id@,
            orig_cl_ord_id: self.orig_cl_ord_id@,
            ord_status: self.ord_status,
            cxl_rej_response_to: self.cxl_rej_response_to,
            cxl_rej_reason: self.cxl_rej_reason,
            text: self.text@,
        }
    }
}

impl<'a> View for NormalizedCancelRejectView<'a> {
    type V = CancelRejectModel;

    open spec fn view(&self) -> CancelRejectModel {
        CancelRejectModel {
            order_id: self.order_id@,
            cl_ord_id: self.cl_ord_id@,
            orig_cl_ord_id: self.orig_cl_ord_id@,
            ord_status: self.ord_status,
            cxl_rej_response_to: self.cxl_rej_response_to,
            cxl_rej_reason: self.cxl_rej_reason,
            text: self.text@,
        }
    }
}

/// The text fields of a cancel reject, in frame order.
pub open spec fn cancel_reject_texts(m: CancelRejectModel) -> Seq<Seq<char>> {
    seq![m.order_id, m.cl_ord_id, m.orig_cl_ord_id, m.text]
}

/// The fixed block of a cancel reject.
pub open spec fn cancel_reject_block(m: CancelRejectModel) -> Seq<u8> {
    seq![m.ord_status] + seq![m.cxl_rej_response_to] + le_i32(m.cxl_rej_reason)
}

/// The SBE frame of a cancel reject.
pub open spec fn spec_cancel_reject_frame(m: CancelRejectModel) -> Seq<u8> {
    spec_frame(NORMALIZED_CANCEL_REJECT_BLOCK_LENGTH, NORMALIZED_CANCEL_REJECT_TEMPLATE_ID, cancel_reject_block(m), cancel_reject_texts(m))
}

/// What decoding `frame` as a cancel reject gives.
pub open spec fn spec_decode_cancel_reject(frame: Seq<u8>) -> Result<CancelRejectModel, CodecError> {
    match spec_validate_header(frame, NORMALIZED_CANCEL_REJECT_TEMPLATE_ID) {
        Err(e) => Err(e),
        Ok(bl) => if frame.len() < SBE_HEADER_LENGTH + NORMALIZED_CANCEL_REJECT_BLOCK_LENGTH {
            Err(CodecError::BlockTruncated)
        } else {
            match spec_read_texts(frame, SBE_HEADER_LENGTH + bl, 4) {
                Err(e) => Err(e),
                Ok((ts, _)) => Ok(
                    CancelRejectModel {
                        order_id: ts[0],
                        cl_ord_id: ts[1],
                        orig_cl_ord_id: ts[2],
                        ord_status: frame[8],
                        cxl_rej_response_to: frame[9],
                        cxl_rej_reason: get_le32(frame, 10) as i32,
                        text: ts[3],
                    },
                ),
            }
        },
    }
}

impl<'a> NormalizedCancelRejectView<'a> {
    /// A view borrowing the text of `value`.
    pub fn of(value: &'a NormalizedCancelReject) -> (v: Self)
        ensures
            v@ == value@,
    {
        NormalizedCancelRejectView {
            order_id: value.order_id.as_str(),
            cl_ord_id: value.cl_ord_id.as_str(),
            orig_cl_ord_id: value.orig_cl_ord_id.as_str(),
            ord_status: value.ord_status,
            cxl_rej_response_to: value.cxl_rej_response_to,
            cxl_rej_reason: value.cxl_rej_reason,
            text: value.text.as_str(),
        }
    }

    /// The text fields, in frame order.
    fn texts(&self) -> (v: Vec<&'a str>)
        ensures
            str_views(v@) == cancel_reject_texts(self@),
    {
        let v = vec![self.order_id, self.cl_ord_id, self.orig_cl_ord_id, self.text];
        assert(str_views(v@) =~= cancel_reject_texts(self@));
        v
    }
}

impl NormalizedCancelReject {
    /// An owned copy of `view`.
    pub fn from_view(view: &NormalizedCancelRejectView<'_>) -> (v: Self)
        ensures
            v@ == view@,
    {
        NormalizedCancelReject {
            order_id: view.order_id.to_owned(),
            cl_ord_id: view.cl_ord_id.to_owned(),
            orig_cl_ord_id: view.orig_cl_ord_id.to_owned(),
            ord_status: view.ord_status,
            cxl_rej_response_to: view.cxl_rej_response_to,
            cxl_rej_reason: view.cxl_rej_reason,
            text: view.text.to_owned(),
        }
    }
}

/// The length of the SBE frame of `value`.
pub fn encoded_normalized_cancel_reject_len(value: &NormalizedCancelReject) -> (r: Result<usize, CodecError>)
    ensures
        r == spec_encode_outcome(cancel_reject_texts(value@), spec_cancel_reject_frame(value@)),
{
    let view = NormalizedCancelRejectView::of(value);
    let texts = view.texts();
    ensure_texts_fit(&texts)?;
    match frame_len(NORMALIZED_CANCEL_REJECT_BLOCK_LENGTH, &texts) {
        Some(n) => Ok(n),
        None => Err(CodecError::FrameTooLarge),
    }
}

/// Encodes `value` at the front of `frame_buf`, growing it when it is too
/// short; the length of the frame.
pub fn encode_normalized_cancel_reject_as_sbe(frame_buf: &mut Vec<u8>, value: &NormalizedCancelReject) -> (r: Result<
    usize,
    CodecError,
>)
    ensures
        r == spec_encode_outcome(cancel_reject_texts(value@), spec_cancel_reject_frame(value@)),
        r is Ok ==> frame_written(old(frame_buf)@, final(frame_buf)@, spec_cancel_reject_frame(value@)),
        r is Err ==> final(frame_buf)@ == old(frame_buf)@,
{
    let view = NormalizedCancelRejectView::of(value);
    encode_normalized_cancel_reject_view_as_sbe(frame_buf, &view)
}

/// Encodes `value` at the front of `frame_buf`, growing it when it is too
/// short; the length of the frame.
pub fn encode_normalized_cancel_reject_view_as_sbe(frame_buf: &mut Vec<u8>, value: &NormalizedCancelRejectView<'_>) -> (r: Result<
    usize,
    CodecError,
>)
    ensures
        r == spec_encode_outcome(cancel_reject_texts(value@), spec_cancel_reject_frame(value@)),
        r is Ok ==> frame_written(old(frame_buf)@, final(frame_buf)@, spec_cancel_reject_frame(value@)),
        r is Err ==> final(frame_buf)@ == old(frame_buf)@,
{
    let texts = value.texts();
    ensure_texts_fit(&texts)?;
    let n = match frame_len(NORMALIZED_CANCEL_REJECT_BLOCK_LENGTH, &texts) {
        Some(n) => n,
        None => return Err(CodecError::FrameTooLarge),
    };
    let mut content: Vec<u8> = Vec::new();
    push_header(&mut content, NORMALIZED_CANCEL_REJECT_BLOCK_LENGTH, NORMALIZED_CANCEL_REJECT_TEMPLATE_ID);
    content.push(value.ord_status);
    content.push(value.cxl_rej_response_to);
    push_u32_le(&mut content, value.cxl_rej_reason as u32);
    push_var_texts(&mut content, &texts);
    assert(content@ =~= spec_cancel_reject_frame(value@));
    write_frame(frame_buf, &content);
    Ok(n)
}

/// Decodes a cancel reject frame, borrowing its text from `frame`.
pub fn decode_normalized_cancel_reject_view_from_sbe(frame: &[u8]) -> (r: Result<NormalizedCancelRejectView<'_>, CodecError>)
    ensures
        match spec_decode_cancel_reject(frame@) {
            Ok(m) => r matches Ok(v) && v@ == m,
            Err(e) => r == Err::<NormalizedCancelRejectView<'_>, CodecError>(e),
        },
{
    let bl = validate_header(frame, NORMALIZED_CANCEL_REJECT_TEMPLATE_ID)?;
    if frame.len() < SBE_HEADER_LENGTH + NORMALIZED_CANCEL_REJECT_BLOCK_LENGTH as usize {
        return Err(CodecError::BlockTruncated);
    }
    let ord_status = frame[8];
    let cxl_rej_response_to = frame[9];
    let cxl_rej_reason = read_u32_le(frame, 10) as i32;
    let t = read_text_fields(frame, SBE_HEADER_LENGTH + bl as usize, 4)?;
    Ok(
        NormalizedCancelRejectView {
            order_id: t[0],
            cl_ord_id: t[1],
            orig_cl_ord_id: t[2],
            ord_status,
            cxl_rej_response_to,
            cxl_rej_reason,
            text: t[3],
        },
    )
}

/// Decodes a cancel reject frame into an owned value.
pub fn decode_normalized_cancel_reject_from_sbe(frame: &[u8]) -> (r: Result<NormalizedCancelReject, CodecError>)
    ensures
        match spec_decode_cancel_reject(frame@) {
            Ok(m) => r matches Ok(v) && v@ == m,
            Err(e) => r == Err::<NormalizedCancelReject, CodecError>(e),
        },
{
    let view = decode_normalized_cancel_reject_view_from_sbe(frame)?;
    Ok(NormalizedCancelReject::from_view(&view))
}

/// Decoding the frame of a cancel reject, followed by any bytes, gives it back;
/// the frame carries the cancel reject template.
pub proof fn lemma_cancel_reject_roundtrip(m: CancelRejectModel, rest: Seq<u8>)
    requires
        texts_fit(cancel_reject_texts(m)),
    ensures
        spec_decode_cancel_reject(spec_cancel_reject_frame(m) + rest) == Ok::<CancelRejectModel, CodecError>(m),
        spec_peek_template_id(spec_cancel_reject_frame(m) + rest) == Ok::<u16, CodecError>(NORMALIZED_CANCEL_REJECT_TEMPLATE_ID),
{
    lemma_frame_layout(NORMALIZED_CANCEL_REJECT_BLOCK_LENGTH, NORMALIZED_CANCEL_REJECT_TEMPLATE_ID, cancel_reject_block(m), cancel_reject_texts(m), rest);
    lemma_cancel_reject_from_layout(spec_cancel_reject_frame(m) + rest, m);
}

/// A frame laid out with the header, block and text fields of `m` decodes
/// to `m`.
proof fn lemma_cancel_reject_from_layout(f: Seq<u8>, m: CancelRejectModel)
    requires
        spec_read_header(f) == Ok::<(u16, u16), CodecError>((NORMALIZED_CANCEL_REJECT_BLOCK_LENGTH, NORMALIZED_CANCEL_REJECT_TEMPLATE_ID)),
        f.len() >= 14,
        f.subrange(8, 14) == cancel_reject_block(m),
        spec_read_texts(f, 14, 4) matches Ok((t, _)) && t == cancel_reject_texts(m),
    ensures
        spec_decode_cancel_reject(f) == Ok::<CancelRejectModel, CodecError>(m),
        spec_peek_template_id(f) == Ok::<u16, CodecError>(NORMALIZED_CANCEL_REJECT_TEMPLATE_ID),
{
    lemma_cancel_reject_block_read(f, m);
    lemma_cancel_reject_decode_of(f, m);
}

/// Decoding a frame whose header, block and text fields hold those of `m`
/// gives `m`.
proof fn lemma_cancel_reject_decode_of(f: Seq<u8>, m: CancelRejectModel)
    requires
        spec_validate_header(f, NORMALIZED_CANCEL_REJECT_TEMPLATE_ID) == Ok::<u16, CodecError>(NORMALIZED_CANCEL_REJECT_BLOCK_LENGTH),
        f.len() >= 14,
        f[8] == m.ord_status,
        f[9] == m.cxl_rej_response_to,
        get_le32(f, 10) as i32 == m.cxl_rej_reason,
        spec_read_texts(f, 14, 4) matches Ok((t, _)) && t == cancel_reject_texts(m),
    ensures
        spec_decode_cancel_reject(f) == Ok::<CancelRejectModel, CodecError>(m),
{
}

/// The scalar fields of a cancel reject read back from its fixed block.
proof fn lemma_cancel_reject_block_read(f: Seq<u8>, m: CancelRejectModel)
    requires
        f.len() >= 14,
        f.subrange(8, 14) == cancel_reject_block(m),
    ensures
        f[8] == m.ord_status,
        f[9] == m.cxl_rej_response_to,
        get_le32(f, 10) as i32 == m.cxl_rej_reason,
{
    let w = f.subrange(8, 14);
    assert(f[8] == w[0]);
    assert(f[9] == w[1]);
    assert(f.subrange(10, 14) =~= w.subrange(2, 6));
    assert(w.subrange(2, 6) =~= le_i32(m.cxl_rej_reason));
    lemma_read_i32_at(f, 10, m.cxl_rej_reason);
}

// ---------------------------------------------------------------------------
// Order lifecycle requests
// ---------------------------------------------------------------------------

/// What an order lifecycle request asks for.
#[derive(Debug, Clone, Copy, PartialEq, Eq)]
pub enum OrderLifecycleAction {
    Cancel,
    Replace,
    Status,
}

/// The label of an action.
pub open spec fn spec_action_label(action: OrderLifecycleAction) -> Seq<char> {
    match action {
        OrderLifecycleAction::Cancel => seq!['c', 'a', 'n', 'c', 'e', 'l'],
        OrderLifecycleAction::Replace => seq!['r', 'e', 'p', 'l', 'a', 'c', 'e'],
        OrderLifecycleAction::Status => seq!['s', 't', 'a', 't', 'u', 's'],
    }
}

/// The action named by a FIX MsgType: `F` cancel, `G` replace, `H` status.
pub open spec fn spec_action_of_msg_type(msg_type: Seq<u8>) -> Option<OrderLifecycleAction> {
    if msg_type == seq![70u8] {
        Some(OrderLifecycleAction::Cancel)
    } else if msg_type == seq![71u8] {
        Some(OrderLifecycleAction::Replace)
    } else if msg_type == seq![72u8] {
        Some(OrderLifecycleAction::Status)
    } else {
        None
    }
}

/// The action named by a CxlRejResponseTo value: `1` cancel, `2` replace.
pub open spec fn spec_action_of_response_to(value: u8) -> Option<OrderLifecycleAction> {
    if value == 49u8 {
        Some(OrderLifecycleAction::Cancel)
    } else if value == 50u8 {
        Some(OrderLifecycleAction::Replace)
    } else {
        None
    }
}

/// The CxlRejResponseTo value of an action, if it has one.
pub open spec fn spec_response_to_of_action(action: OrderLifecycleAction) -> Option<u8> {
    match action {
        OrderLifecycleAction::Cancel => Some(49u8),
        OrderLifecycleAction::Replace => Some(50u8),
        OrderLifecycleAction::Status => None,
    }
}

impl OrderLifecycleAction {
    /// A short lower-case label.
    pub fn label(self) -> (l: &'static str)
        ensures
            l@ == spec_action_label(self),
    {
        match self {
            OrderLifecycleAction::Cancel => {
                let l = "cancel";
                proof {
                    reveal_strlit("cancel");
                }
                assert(l@ =~= spec_action_label(self));
                l
            },
            OrderLifecycleAction::Replace => {
                let l = "replace";
                proof {
                    reveal_strlit("replace");
                }
                assert(l@ =~= spec_action_label(self));
                l
            },
            OrderLifecycleAction::Status => {
                let l = "status";
                proof {
                    reveal_strlit("status");
                }
                assert(l@ =~= spec_action_label(self));
                l
            },
        }
    }

    /// The action a FIX MsgType names; `UnsupportedMsgType` for any other
    /// message type.
    pub fn from_fix_msg_type(msg_type: &[u8]) -> (r: Result<Self, CodecError>)
        ensures
            match spec_action_of_msg_type(msg_type@) {
                Some(a) => r == Ok::<Self, CodecError>(a),
                None => r matches Err(CodecError::UnsupportedMsgType { msg_type: m }) && m@
                    == msg_type@,
            },
    {
        if msg_type.len() == 1 {
            let b = msg_type[0];
            if b == 70u8 {
                assert(msg_type@ =~= seq![70u8]);
                return Ok(OrderLifecycleAction::Cancel);
            } else if b == 71u8 {
                assert(msg_type@ =~= seq![71u8]);
                return Ok(OrderLifecycleAction::Replace);
            } else if b == 72u8 {
                assert(msg_type@ =~= seq![72u8]);
                return Ok(OrderLifecycleAction::Status);
            }
        }
        assert(msg_type@ != seq![70u8] && msg_type@ != seq![71u8] && msg_type@ != seq![72u8]) by {
            if msg_type@.len() == 1 {
                assert(msg_type@[0] == msg_type[0]);
            }
        }
        Err(CodecError::UnsupportedMsgType { msg_type: vstd::slice::slice_to_vec(msg_type) })
    }

    /// The action a CxlRejResponseTo value names.
    pub fn from_cancel_reject_response_to(value: u8) -> (r: Result<Self, CodecError>)
        ensures
            match spec_action_of_response_to(value) {
                Some(a) => r == Ok::<Self, CodecError>(a),
                None => r == Err::<Self, CodecError>(
                    CodecError::UnsupportedResponseTarget { value },
                ),
            },
    {
        if value == 49u8 {
            Ok(OrderLifecycleAction::Cancel)
        } else if value == 50u8 {
            Ok(OrderLifecycleAction::Replace)
        } else {
            Err(CodecError::UnsupportedResponseTarget { value })
        }
    }

    /// The CxlRejResponseTo value of this action; a status request cannot be
    /// rejected that way.
    pub fn to_fix_cancel_reject_response_to(self) -> (r: Result<u8, CodecError>)
        ensures
            match spec_response_to_of_action(self) {
                Some(v) => r == Ok::<u8, CodecError>(v),
                None => r == Err::<u8, CodecError>(CodecError::StatusNotRejectTarget),
            },
    {
        match self {
            OrderLifecycleAction::Cancel => Ok(49u8),
            OrderLifecycleAction::Replace => Ok(50u8),
            OrderLifecycleAction::Status => Err(CodecError::StatusNotRejectTarget),
        }
    }
}

/// Mapping an action to its CxlRejResponseTo value and back gives the
/// action again; a value that names an action maps back to itself.
pub proof fn lemma_response_to_roundtrip(action: OrderLifecycleAction, value: u8)
    ensures
        spec_response_to_of_action(action) matches Some(v) ==> spec_action_of_response_to(v)
            == Some(action),
        spec_action_of_response_to(value) matches Some(a) ==> spec_response_to_of_action(a)
            == Some(value),
{
}

/// An order lifecycle request: cancel, replace or status.
#[derive(Debug, Clone, PartialEq, Eq)]
pub enum NormalizedOrderLifecycleRequest {
    Cancel(NormalizedCancelRequest),
    Replace(NormalizedReplaceRequest),
    Status(NormalizedOrderStatusRequest),
}

/// An order lifecycle request borrowing its text.
#[derive(Debug, Clone, Copy, PartialEq, Eq)]
pub enum NormalizedOrderLifecycleRequestView<'a> {
    Cancel(NormalizedCancelRequestView<'a>),
    Replace(NormalizedReplaceRequestView<'a>),
    Status(NormalizedOrderStatusRequestView<'a>),
}

/// What a lifecycle request says.
pub ghost enum LifecycleRequestModel {
    Cancel(CancelRequestModel),
    Replace(ReplaceRequestModel),
    Status(OrderStatusRequestModel),
}

impl View for NormalizedOrderLifecycleRequest {
    type V = LifecycleRequestModel;

    open spec fn view(&self) -> LifecycleRequestModel {
        match self {
            NormalizedOrderLifecycleRequest::Cancel(r) => LifecycleRequestModel::Cancel(r@),
            NormalizedOrderLifecycleRequest::Replace(r) => LifecycleRequestModel::Replace(r@),
            NormalizedOrderLifecycleRequest::Status(r) => LifecycleRequestModel::Status(r@),
        }
    }
}

impl<'a> View for NormalizedOrderLifecycleRequestView<'a> {
    type V = LifecycleRequestModel;

    open spec fn view(&self) -> LifecycleRequestModel {
        match self {
            NormalizedOrderLifecycleRequestView::Cancel(r) => LifecycleRequestModel::Cancel(r@),
            NormalizedOrderLifecycleRequestView::Replace(r) => LifecycleRequestModel::Replace(r@),
            NormalizedOrderLifecycleRequestView::Status(r) => LifecycleRequestModel::Status(r@),
        }
    }
}

/// The action of a lifecycle request.
pub open spec fn spec_lifecycle_action(m: LifecycleRequestModel) -> OrderLifecycleAction {
    match m {
        LifecycleRequestModel::Cancel(_) => OrderLifecycleAction::Cancel,
        LifecycleRequestModel::Replace(_) => OrderLifecycleAction::Replace,
        LifecycleRequestModel::Status(_) => OrderLifecycleAction::Status,
    }
}

/// The text fields of a lifecycle request.
pub open spec fn lifecycle_texts(m: LifecycleRequestModel) -> Seq<Seq<char>> {
    match m {
        LifecycleRequestModel::Cancel(r) => cancel_request_texts(r),
        LifecycleRequestModel::Replace(r) => replace_request_texts(r),
        LifecycleRequestModel::Status(r) => order_status_request_texts(r),
    }
}

/// The SBE frame of a lifecycle request.
pub open spec fn spec_lifecycle_frame(m: LifecycleRequestModel) -> Seq<u8> {
    match m {
        LifecycleRequestModel::Cancel(r) => spec_cancel_request_frame(r),
        LifecycleRequestModel::Replace(r) => spec_replace_request_frame(r),
        LifecycleRequestModel::Status(r) => spec_order_status_request_frame(r),
    }
}

/// What decoding `frame` as a lifecycle request gives: the template id
/// decides which request it is.
pub open spec fn spec_decode_lifecycle(frame: Seq<u8>) -> Result<LifecycleRequestModel, CodecError> {
    match spec_peek_template_id(frame) {
        Err(e) => Err(e),
        Ok(tid) => if tid == NORMALIZED_CANCEL_REQUEST_TEMPLATE_ID {
            match spec_decode_cancel_request(frame) {
                Ok(r) => Ok(LifecycleRequestModel::Cancel(r)),
                Err(e) => Err(e),
            }
        } else if tid == NORMALIZED_REPLACE_REQUEST_TEMPLATE_ID {
            match spec_decode_replace_request(frame) {
                Ok(r) => Ok(LifecycleRequestModel::Replace(r)),
                Err(e) => Err(e),
            }
        } else if tid == NORMALIZED_ORDER_STATUS_REQUEST_TEMPLATE_ID {
            match spec_decode_order_status_request(frame) {
                Ok(r) => Ok(LifecycleRequestModel::Status(r)),
                Err(e) => Err(e),
            }
        } else {
            Err(CodecError::TemplateMismatch { template_id: tid })
        },
    }
}

impl NormalizedOrderLifecycleRequest {
    /// The action of this request.
    pub fn action(&self) -> (a: OrderLifecycleAction)
        ensures
            a == spec_lifecycle_action(self@),
    {
        match self {
            NormalizedOrderLifecycleRequest::Cancel(_) => OrderLifecycleAction::Cancel,
            NormalizedOrderLifecycleRequest::Replace(_) => OrderLifecycleAction::Replace,
            NormalizedOrderLifecycleRequest::Status(_) => OrderLifecycleAction::Status,
        }
    }

    /// An owned copy of `view`.
    pub fn from_view(view: &NormalizedOrderLifecycleRequestView<'_>) -> (r: Self)
        ensures
            r@ == view@,
    {
        match view {
            NormalizedOrderLifecycleRequestView::Cancel(v) => NormalizedOrderLifecycleRequest::Cancel(
                NormalizedCancelRequest::from_view(v),
            ),
            NormalizedOrderLifecycleRequestView::Replace(v) => NormalizedOrderLifecycleRequest::Replace(
                NormalizedReplaceRequest::from_view(v),
            ),
            NormalizedOrderLifecycleRequestView::Status(v) => NormalizedOrderLifecycleRequest::Status(
                NormalizedOrderStatusRequest::from_view(v),
            ),
        }
    }
}

impl<'a> NormalizedOrderLifecycleRequestView<'a> {
    /// The action of this request.
    pub fn action(self) -> (a: OrderLifecycleAction)
        ensures
            a == spec_lifecycle_action(self@),
    {
        match self {
            NormalizedOrderLifecycleRequestView::Cancel(_) => OrderLifecycleAction::Cancel,
            NormalizedOrderLifecycleRequestView::Replace(_) => OrderLifecycleAction::Replace,
            NormalizedOrderLifecycleRequestView::Status(_) => OrderLifecycleAction::Status,
        }
    }

    /// A view borrowing the text of `request`.
    pub fn of(request: &'a NormalizedOrderLifecycleRequest) -> (v: Self)
        ensures
            v@ == request@,
    {
        match request {
            NormalizedOrderLifecycleRequest::Cancel(r) => NormalizedOrderLifecycleRequestView::Cancel(
                NormalizedCancelRequestView::of(r),
            ),
            NormalizedOrderLifecycleRequest::Replace(r) => NormalizedOrderLifecycleRequestView::Replace(
                NormalizedReplaceRequestView::of(r),
            ),
            NormalizedOrderLifecycleRequest::Status(r) => NormalizedOrderLifecycleRequestView::Status(
                NormalizedOrderStatusRequestView::of(r),
            ),
        }
    }
}

/// Encodes a lifecycle request with the codec of its kind.
pub fn encode_normalized_order_lifecycle_request_as_sbe(
    frame_buf: &mut Vec<u8>,
    request: &NormalizedOrderLifecycleRequest,
) -> (r: Result<usize, CodecError>)
    ensures
        r == spec_encode_outcome(lifecycle_texts(request@), spec_lifecycle_frame(request@)),
        r is Ok ==> frame_written(
            old(frame_buf)@,
            final(frame_buf)@,
            spec_lifecycle_frame(request@),
        ),
        r is Err ==> final(frame_buf)@ == old(frame_buf)@,
{
    match request {
        NormalizedOrderLifecycleRequest::Cancel(r) => encode_normalized_cancel_request_as_sbe(
            frame_buf,
            r,
        ),
        NormalizedOrderLifecycleRequest::Replace(r) => encode_normalized_replace_request_as_sbe(
            frame_buf,
            r,
        ),
        NormalizedOrderLifecycleRequest::Status(r) => encode_normalized_order_status_request_as_sbe(
            frame_buf,
            r,
        ),
    }
}

/// Encodes a lifecycle request with the codec of its kind.
pub fn encode_normalized_order_lifecycle_request_view_as_sbe(
    frame_buf: &mut Vec<u8>,
    request: &NormalizedOrderLifecycleRequestView<'_>,
) -> (r: Result<usize, CodecError>)
    ensures
        r == spec_encode_outcome(lifecycle_texts(request@), spec_lifecycle_frame(request@)),
        r is Ok ==> frame_written(
            old(frame_buf)@,
            final(frame_buf)@,
            spec_lifecycle_frame(request@),
        ),
        r is Err ==> final(frame_buf)@ == old(frame_buf)@,
{
    match request {
        NormalizedOrderLifecycleRequestView::Cancel(r) => encode_normalized_cancel_request_view_as_sbe(
            frame_buf,
            r,
        ),
        NormalizedOrderLifecycleRequestView::Replace(r) => encode_normalized_replace_request_view_as_sbe(
            frame_buf,
            r,
        ),
        NormalizedOrderLifecycleRequestView::Status(r) => encode_normalized_order_status_request_view_as_sbe(
            frame_buf,
            r,
        ),
    }
}

/// Decodes a lifecycle request frame, borrowing its text from `frame`.
pub fn decode_normalized_order_lifecycle_request_view_from_sbe(frame: &[u8]) -> (r: Result<
    NormalizedOrderLifecycleRequestView<'_>,
    CodecError,
>)
    ensures
        match spec_decode_lifecycle(frame@) {
            Ok(m) => r matches Ok(v) && v@ == m,
            Err(e) => r == Err::<NormalizedOrderLifecycleRequestView<'_>, CodecError>(e),
        },
{
    let tid = peek_sbe_template_id(frame)?;
    if tid == NORMALIZED_CANCEL_REQUEST_TEMPLATE_ID {
        Ok(
            NormalizedOrderLifecycleRequestView::Cancel(
                decode_normalized_cancel_request_view_from_sbe(frame)?,
            ),
        )
    } else if tid == NORMALIZED_REPLACE_REQUEST_TEMPLATE_ID {
        Ok(
            NormalizedOrderLifecycleRequestView::Replace(
                decode_normalized_replace_request_view_from_sbe(frame)?,
            ),
        )
    } else if tid == NORMALIZED_ORDER_STATUS_REQUEST_TEMPLATE_ID {
        Ok(
            NormalizedOrderLifecycleRequestView::Status(
                decode_normalized_order_status_request_view_from_sbe(frame)?,
            ),
        )
    } else {
        Err(CodecError::TemplateMismatch { template_id: tid })
    }
}

/// Decodes a lifecycle request frame into an owned request.
pub fn decode_normalized_order_lifecycle_request_from_sbe(frame: &[u8]) -> (r: Result<
    NormalizedOrderLifecycleRequest,
    CodecError,
>)
    ensures
        match spec_decode_lifecycle(frame@) {
            Ok(m) => r matches Ok(v) && v@ == m,
            Err(e) => r == Err::<NormalizedOrderLifecycleRequest, CodecError>(e),
        },
{
    let view = decode_normalized_order_lifecycle_request_view_from_sbe(frame)?;
    Ok(NormalizedOrderLifecycleRequest::from_view(&view))
}

/// Decoding the frame of a lifecycle request, followed by any bytes, gives
/// the request back.
pub proof fn lemma_lifecycle_roundtrip(m: LifecycleRequestModel, rest: Seq<u8>)
    requires
        texts_fit(lifecycle_texts(m)),
    ensures
        spec_decode_lifecycle(spec_lifecycle_frame(m) + rest) == Ok::<
            LifecycleRequestModel,
            CodecError,
        >(m),
{
    match m {
        LifecycleRequestModel::Cancel(r) => lemma_cancel_request_roundtrip(r, rest),
        LifecycleRequestModel::Replace(r) => lemma_replace_request_roundtrip(r, rest),
        LifecycleRequestModel::Status(r) => lemma_order_status_request_roundtrip(r, rest),
    }
}

// ---------------------------------------------------------------------------
// Fills
// ---------------------------------------------------------------------------

/// The OrderID a full fill of the order `cl_ord_id` reports: `VENUE-` then
/// the ClOrdID.
pub open spec fn fill_order_id(cl_ord_id: Seq<char>) -> Seq<char> {
    seq!['V', 'E', 'N', 'U', 'E', '-'] + cl_ord_id
}

/// The ExecID of a full fill of the order `cl_ord_id`: `EXEC-` then the
/// ClOrdID.
pub open spec fn fill_exec_id(cl_ord_id: Seq<char>) -> Seq<char> {
    seq!['E', 'X', 'E', 'C', '-'] + cl_ord_id
}

/// The execution report that fills the whole of order `m` at its price:
/// ExecType `F` (trade), OrdStatus `2` (filled), nothing left open.
pub open spec fn spec_filled_report(m: OrderModel) -> ExecutionReportModel {
    ExecutionReportModel {
        cl_ord_id: m.cl_ord_id,
        symbol: m.symbol,
        side: m.side,
        order_qty: m.qty,
        last_qty: m.qty,
        last_px: m.price,
        leaves_qty: 0,
        cum_qty: m.qty,
        avg_px: m.price,
        order_id: fill_order_id(m.cl_ord_id),
        exec_id: fill_exec_id(m.cl_ord_id),
        exec_type: 70u8,
        ord_status: 50u8,
    }
}

/// `prefix` followed by `tail`.
fn prefixed(prefix: &str, tail: &str) -> (s: String)
    ensures
        s@ == prefix@ + tail@,
{
    let mut s = prefix.to_owned();
    s.append(tail);
    s
}

/// The OrderID of a full fill of the order `cl_ord_id`.
fn fill_order_id_string(cl_ord_id: &str) -> (s: String)
    ensures
        s@ == fill_order_id(cl_ord_id@),
{
    let p = "VENUE-";
    proof {
        reveal_strlit("VENUE-");
    }
    assert(p@ =~= seq!['V', 'E', 'N', 'U', 'E', '-']);
    prefixed(p, cl_ord_id)
}

/// The ExecID of a full fill of the order `cl_ord_id`.
fn fill_exec_id_string(cl_ord_id: &str) -> (s: String)
    ensures
        s@ == fill_exec_id(cl_ord_id@),
{
    let p = "EXEC-";
    proof {
        reveal_strlit("EXEC-");
    }
    assert(p@ =~= seq!['E', 'X', 'E', 'C', '-']);
    prefixed(p, cl_ord_id)
}

impl NormalizedExecutionReport {
    /// The report that fills the whole of `order` at its price.
    pub fn from_order(order: &NormalizedOrder) -> (r: Self)
        ensures
            r@ == spec_filled_report(order@),
    {
        NormalizedExecutionReport {
            cl_ord_id: order.cl_ord_id.clone(),
            symbol: order.symbol.clone(),
            side: order.side,
            order_qty: order.qty,
            last_qty: order.qty,
            last_px: order.price.clone(),
            leaves_qty: 0,
            cum_qty: order.qty,
            avg_px: order.price.clone(),
            order_id: fill_order_id_string(order.cl_ord_id.as_str()),
            exec_id: fill_exec_id_string(order.cl_ord_id.as_str()),
            exec_type: 70u8,
            ord_status: 50u8,
        }
    }
}

/// Reusable storage for the ids of a fill, so that encoding fills allocates
/// once.
#[derive(Debug, Clone)]
pub struct NormalizedExecutionReportScratch {
    order_id: String,
    exec_id: String,
}

impl View for NormalizedExecutionReportScratch {
    /// The stored OrderID and ExecID.
    type V = (Seq<char>, Seq<char>);

    closed spec fn view(&self) -> (Seq<char>, Seq<char>) {
        (self.order_id@, self.exec_id@)
    }
}

impl Default for NormalizedExecutionReportScratch {
    fn default() -> (s: Self)
        ensures
            s@ == (Seq::<char>::empty(), Seq::<char>::empty()),
    {
        NormalizedExecutionReportScratch { order_id: String::new(), exec_id: String::new() }
    }
}

impl NormalizedExecutionReportScratch {
    /// Stores the ids of a full fill of the order `cl_ord_id`.
    pub fn populate_from_cl_ord_id(&mut self, cl_ord_id: &str)
        ensures
            final(self)@ == (fill_order_id(cl_ord_id@), fill_exec_id(cl_ord_id@)),
    {
        self.order_id = fill_order_id_string(cl_ord_id);
        self.exec_id = fill_exec_id_string(cl_ord_id);
    }

    /// The stored OrderID.
    pub fn order_id(&self) -> (s: &str)
        ensures
            s@ == self@.0,
    {
        self.order_id.as_str()
    }

    /// The stored ExecID.
    pub fn exec_id(&self) -> (s: &str)
        ensures
            s@ == self@.1,
    {
        self.exec_id.as_str()
    }
}

/// Encodes the report that fills the whole of `order` at its price, with
/// its ids kept in `scratch`; the same frame as encoding
/// `NormalizedExecutionReport::from_order` of the owned order.
pub fn encode_filled_execution_report_from_order_view_as_sbe(
    frame_buf: &mut Vec<u8>,
    scratch: &mut NormalizedExecutionReportScratch,
    order: &NormalizedOrderView<'_>,
) -> (r: Result<usize, CodecError>)
    ensures
        final(scratch)@ == (fill_order_id(order@.cl_ord_id), fill_exec_id(order@.cl_ord_id)),
        r == spec_encode_outcome(
            execution_report_texts(spec_filled_report(order@)),
            spec_execution_report_frame(spec_filled_report(order@)),
        ),
        r is Ok ==> frame_written(
            old(frame_buf)@,
            final(frame_buf)@,
            spec_execution_report_frame(spec_filled_report(order@)),
        ),
        r is Err ==> final(frame_buf)@ == old(frame_buf)@,
{
    scratch.populate_from_cl_ord_id(order.cl_ord_id);
    let report = NormalizedExecutionReportView {
        cl_ord_id: order.cl_ord_id,
        symbol: order.symbol,
        side: order.side,
        order_qty: order.qty,
        last_qty: order.qty,
        last_px: order.price,
        leaves_qty: 0,
        cum_qty: order.qty,
        avg_px: order.price,
        order_id: scratch.order_id(),
        exec_id: scratch.exec_id(),
        exec_type: 70u8,
        ord_status: 50u8,
    };
    assert(report@ == spec_filled_report(order@));
    encode_normalized_execution_report_view_as_sbe(frame_buf, &report)
}

impl<'a> NormalizedCancelRejectView<'a> {
    /// The lifecycle action this reject answers.
    pub fn response_action(self) -> (r: Result<OrderLifecycleAction, CodecError>)
        ensures
            match spec_action_of_response_to(self.cxl_rej_response_to) {
                Some(a) => r == Ok::<OrderLifecycleAction, CodecError>(a),
                None => r == Err::<OrderLifecycleAction, CodecError>(
                    CodecError::UnsupportedResponseTarget { value: self.cxl_rej_response_to },
                ),
            },
    {
        OrderLifecycleAction::from_cancel_reject_response_to(self.cxl_rej_response_to)
    }
}

// ---------------------------------------------------------------------------
// From FIX messages
// ---------------------------------------------------------------------------

/// The text of the first field tagged `tag`, or `default` when it is absent
/// or not UTF-8.
pub open spec fn text_or(fields: Seq<(u32, Seq<u8>)>, tag: u32, default: Seq<char>) -> Seq<char> {
    match first_text(fields, tag) {
        Some(t) => t,
        None => default,
    }
}

/// The first byte of the first field tagged `tag` when it is non-empty
/// UTF-8, else `default`.
pub open spec fn first_byte_or(fields: Seq<(u32, Seq<u8>)>, tag: u32, default: u8) -> u8 {
    match first_value(fields, tag) {
        Some(v) => if vstd::utf8::valid_utf8(v) && v.len() > 0 {
            v[0]
        } else {
            default
        },
        None => default,
    }
}

/// The first field tagged `tag` as a signed number, or `default`.
pub open spec fn i64_or(fields: Seq<(u32, Seq<u8>)>, tag: u32, default: i64) -> i64 {
    match first_i64(fields, tag) {
        Some(v) => v,
        None => default,
    }
}

/// The text of the first field tagged `tag`, or `default`.
fn field_text_or<'a>(msg: &MessageView<'a>, tag: u32, default: &'a str) -> (s: &'a str)
    ensures
        s@ == text_or(msg@, tag, default@),
{
    match msg.get_field_str(tag) {
        Some(s) => s,
        None => default,
    }
}

/// The first byte of the first field tagged `tag`, or `default`.
fn field_first_byte_or(msg: &MessageView<'_>, tag: u32, default: u8) -> (b: u8)
    ensures
        b == first_byte_or(msg@, tag, default),
{
    match msg.get_field_str(tag) {
        Some(s) => {
            let bytes = s.as_bytes();
            proof {
                let v = first_value(msg@, tag)->Some_0;
                vstd::utf8::decode_utf8_encode_utf8(v);
            }
            if bytes.len() > 0 {
                bytes[0]
            } else {
                default
            }
        },
        None => default,
    }
}

/// The first field tagged `tag` as a signed number, or `default`.
fn field_i64_or(msg: &MessageView<'_>, tag: u32, default: i64) -> (v: i64)
    ensures
        v == i64_or(msg@, tag, default),
{
    match msg.get_field_i64(tag) {
        Some(v) => v,
        None => default,
    }
}

/// The order a NewOrderSingle carries; a missing field reads as `?` (or
/// `0` for quantity and price).
pub open spec fn spec_order_from_fix(f: Seq<(u32, Seq<u8>)>) -> OrderModel {
    OrderModel {
        cl_ord_id: text_or(f, tags::CL_ORD_ID, "?"@),
        symbol: text_or(f, tags::SYMBOL, "?"@),
        side: first_byte_or(f, tags::SIDE, 63u8),
        qty: i64_or(f, tags::ORDER_QTY, 0),
        price: text_or(f, tags::PRICE, "0"@),
        sender_comp_id: text_or(f, tags::SENDER_COMP_ID, "?"@),
        target_comp_id: text_or(f, tags::TARGET_COMP_ID, "?"@),
    }
}

/// The cancel request an OrderCancelRequest carries.
pub open spec fn spec_cancel_request_from_fix(f: Seq<(u32, Seq<u8>)>) -> CancelRequestModel {
    CancelRequestModel {
        cl_ord_id: text_or(f, tags::CL_ORD_ID, "?"@),
        orig_cl_ord_id: text_or(f, tags::ORIG_CL_ORD_ID, "?"@),
        symbol: text_or(f, tags::SYMBOL, "?"@),
        side: first_byte_or(f, tags::SIDE, 63u8),
        qty: i64_or(f, tags::ORDER_QTY, 0),
        sender_comp_id: text_or(f, tags::SENDER_COMP_ID, "?"@),
        target_comp_id: text_or(f, tags::TARGET_COMP_ID, "?"@),
    }
}

/// The replace request an OrderCancelReplaceRequest carries.
pub open spec fn spec_replace_request_from_fix(f: Seq<(u32, Seq<u8>)>) -> ReplaceRequestModel {
    ReplaceRequestModel {
        cl_ord_id: text_or(f, tags::CL_ORD_ID, "?"@),
        orig_cl_ord_id: text_or(f, tags::ORIG_CL_ORD_ID, "?"@),
        symbol: text_or(f, tags::SYMBOL, "?"@),
        side: first_byte_or(f, tags::SIDE, 63u8),
        qty: i64_or(f, tags::ORDER_QTY, 0),
        price: text_or(f, tags::PRICE, "0"@),
        sender_comp_id: text_or(f, tags::SENDER_COMP_ID, "?"@),
        target_comp_id: text_or(f, tags::TARGET_COMP_ID, "?"@),
    }
}

/// The status request an OrderStatusRequest carries; a missing OrderID
/// reads as empty.
pub open spec fn spec_order_status_request_from_fix(f: Seq<(u32, Seq<u8>)>) -> OrderStatusRequestModel {
    OrderStatusRequestModel {
        cl_ord_id: text_or(f, tags::CL_ORD_ID, "?"@),
        order_id: text_or(f, tags::ORDER_ID, ""@),
        symbol: text_or(f, tags::SYMBOL, "?"@),
        side: first_byte_or(f, tags::SIDE, 63u8),
        sender_comp_id: text_or(f, tags::SENDER_COMP_ID, "?"@),
        target_comp_id: text_or(f, tags::TARGET_COMP_ID, "?"@),
    }
}

/// The MsgType of a message, or nothing when it has none.
pub open spec fn msg_type_or_empty(f: Seq<(u32, Seq<u8>)>) -> Seq<u8> {
    match first_value(f, tags::MSG_TYPE) {
        Some(v) => v,
        None => Seq::empty(),
    }
}

/// The lifecycle request a FIX message carries, chosen by its MsgType.
pub open spec fn spec_lifecycle_from_fix(f: Seq<(u32, Seq<u8>)>) -> Option<LifecycleRequestModel> {
    match spec_action_of_msg_type(msg_type_or_empty(f)) {
        Some(OrderLifecycleAction::Cancel) => Some(
            LifecycleRequestModel::Cancel(spec_cancel_request_from_fix(f)),
        ),
        Some(OrderLifecycleAction::Replace) => Some(
            LifecycleRequestModel::Replace(spec_replace_request_from_fix(f)),
        ),
        Some(OrderLifecycleAction::Status) => Some(
            LifecycleRequestModel::Status(spec_order_status_request_from_fix(f)),
        ),
        None => None,
    }
}

impl<'a> NormalizedOrderView<'a> {
    /// The order a NewOrderSingle carries, borrowing its text.
    pub fn from_fix(msg: &MessageView<'a>) -> (v: Self)
        ensures
            v@ == spec_order_from_fix(msg@),
    {
        proof {
            reveal_strlit("?");
            reveal_strlit("0");
        }
        NormalizedOrderView {
            cl_ord_id: field_text_or(msg, tags::CL_ORD_ID, "?"),
            symbol: field_text_or(msg, tags::SYMBOL, "?"),
            side: field_first_byte_or(msg, tags::SIDE, 63u8),
            qty: field_i64_or(msg, tags::ORDER_QTY, 0),
            price: field_text_or(msg, tags::PRICE, "0"),
            sender_comp_id: field_text_or(msg, tags::SENDER_COMP_ID, "?"),
            target_comp_id: field_text_or(msg, tags::TARGET_COMP_ID, "?"),
        }
    }
}

impl<'a> NormalizedCancelRequestView<'a> {
    /// The cancel request an OrderCancelRequest carries, borrowing its text.
    pub fn from_fix(msg: &MessageView<'a>) -> (v: Self)
        ensures
            v@ == spec_cancel_request_from_fix(msg@),
    {
        NormalizedCancelRequestView {
            cl_ord_id: field_text_or(msg, tags::CL_ORD_ID, "?"),
            orig_cl_ord_id: field_text_or(msg, tags::ORIG_CL_ORD_ID, "?"),
            symbol: field_text_or(msg, tags::SYMBOL, "?"),
            side: field_first_byte_or(msg, tags::SIDE, 63u8),
            qty: field_i64_or(msg, tags::ORDER_QTY, 0),
            sender_comp_id: field_text_or(msg, tags::SENDER_COMP_ID, "?"),
            target_comp_id: field_text_or(msg, tags::TARGET_COMP_ID, "?"),
        }
    }
}

impl<'a> NormalizedReplaceRequestView<'a> {
    /// The replace request an OrderCancelReplaceRequest carries, borrowing
    /// its text.
    pub fn from_fix(msg: &MessageView<'a>) -> (v: Self)
        ensures
            v@ == spec_replace_request_from_fix(msg@),
    {
        NormalizedReplaceRequestView {
            cl_ord_id: field_text_or(msg, tags::CL_ORD_ID, "?"),
            orig_cl_ord_id: field_text_or(msg, tags::ORIG_CL_ORD_ID, "?"),
            symbol: field_text_or(msg, tags::SYMBOL, "?"),
            side: field_first_byte_or(msg, tags::SIDE, 63u8),
            qty: field_i64_or(msg, tags::ORDER_QTY, 0),
            price: field_text_or(msg, tags::PRICE, "0"),
            sender_comp_id: field_text_or(msg, tags::SENDER_COMP_ID, "?"),
            target_comp_id: field_text_or(msg, tags::TARGET_COMP_ID, "?"),
        }
    }
}

impl<'a> NormalizedOrderStatusRequestView<'a> {
    /// The status request an OrderStatusRequest carries, borrowing its text.
    pub fn from_fix(msg: &MessageView<'a>) -> (v: Self)
        ensures
            v@ == spec_order_status_request_from_fix(msg@),
    {
        NormalizedOrderStatusRequestView {
            cl_ord_id: field_text_or(msg, tags::CL_ORD_ID, "?"),
            order_id: field_text_or(msg, tags::ORDER_ID, ""),
            symbol: field_text_or(msg, tags::SYMBOL, "?"),
            side: field_first_byte_or(msg, tags::SIDE, 63u8),
            sender_comp_id: field_text_or(msg, tags::SENDER_COMP_ID, "?"),
            target_comp_id: field_text_or(msg, tags::TARGET_COMP_ID, "?"),
        }
    }
}

impl<'a> NormalizedOrderLifecycleRequestView<'a> {
    /// The lifecycle request a FIX message carries, by its MsgType (`F`,
    /// `G` or `H`); `UnsupportedMsgType` for any other.
    pub fn from_fix(msg: &MessageView<'a>) -> (r: Result<Self, CodecError>)
        ensures
            match spec_lifecycle_from_fix(msg@) {
                Some(m) => r matches Ok(v) && v@ == m,
                None => r matches Err(CodecError::UnsupportedMsgType { msg_type: t }) && t@
                    == msg_type_or_empty(msg@),
            },
    {
        let empty: &[u8] = &[];
        let msg_type = match msg.msg_type() {
            Some(t) => t,
            None => empty,
        };
        assert(msg_type@ == msg_type_or_empty(msg@));
        match OrderLifecycleAction::from_fix_msg_type(msg_type) {
            Ok(OrderLifecycleAction::Cancel) => Ok(
                NormalizedOrderLifecycleRequestView::Cancel(NormalizedCancelRequestView::from_fix(msg)),
            ),
            Ok(OrderLifecycleAction::Replace) => Ok(
                NormalizedOrderLifecycleRequestView::Replace(
                    NormalizedReplaceRequestView::from_fix(msg),
                ),
            ),
            Ok(OrderLifecycleAction::Status) => Ok(
                NormalizedOrderLifecycleRequestView::Status(
                    NormalizedOrderStatusRequestView::from_fix(msg),
                ),
            ),
            Err(e) => Err(e),
        }
    }
}

impl NormalizedOrder {
    /// The order a NewOrderSingle carries.
    pub fn from_fix(msg: &MessageView<'_>) -> (r: Result<Self, CodecError>)
        ensures
            r matches Ok(v) && v@ == spec_order_from_fix(msg@),
    {
        Ok(NormalizedOrder::from_view(&NormalizedOrderView::from_fix(msg)))
    }
}

impl NormalizedCancelRequest {
    /// The cancel request an OrderCancelRequest carries.
    pub fn from_fix(msg: &MessageView<'_>) -> (r: Result<Self, CodecError>)
        ensures
            r matches Ok(v) && v@ == spec_cancel_request_from_fix(msg@),
    {
        Ok(NormalizedCancelRequest::from_view(&NormalizedCancelRequestView::from_fix(msg)))
    }
}

impl NormalizedReplaceRequest {
    /// The replace request an OrderCancelReplaceRequest carries.
    pub fn from_fix(msg: &MessageView<'_>) -> (r: Result<Self, CodecError>)
        ensures
            r matches Ok(v) && v@ == spec_replace_request_from_fix(msg@),
    {
        Ok(NormalizedReplaceRequest::from_view(&NormalizedReplaceRequestView::from_fix(msg)))
    }
}

impl NormalizedOrderStatusRequest {
    /// The status request an OrderStatusRequest carries.
    pub fn from_fix(msg: &MessageView<'_>) -> (r: Result<Self, CodecError>)
        ensures
            r matches Ok(v) && v@ == spec_order_status_request_from_fix(msg@),
    {
        Ok(NormalizedOrderStatusRequest::from_view(&NormalizedOrderStatusRequestView::from_fix(msg)))
    }
}

impl NormalizedOrderLifecycleRequest {
    /// The lifecycle request a FIX message carries, by its MsgType.
    pub fn from_fix(msg: &MessageView<'_>) -> (r: Result<Self, CodecError>)
        ensures
            match spec_lifecycle_from_fix(msg@) {
                Some(m) => r matches Ok(v) && v@ == m,
                None => r matches Err(CodecError::UnsupportedMsgType { msg_type: t }) && t@
                    == msg_type_or_empty(msg@),
            },
    {
        match NormalizedOrderLifecycleRequestView::from_fix(msg) {
            Ok(v) => Ok(NormalizedOrderLifecycleRequest::from_view(&v)),
            Err(e) => Err(e),
        }
    }
}

// ---------------------------------------------------------------------------
// Laws of the frames and conversions
// ---------------------------------------------------------------------------

/// Text fields are written one after another.
proof fn lemma_var_texts_push(ts: Seq<Seq<char>>, t: Seq<char>)
    ensures
        var_texts(ts.push(t)) == var_texts(ts) + var_text(t),
{
    assert(ts.push(t).drop_last() =~= ts);
}

/// Four text fields, in order.
proof fn lemma_var_texts_4(a: Seq<char>, b: Seq<char>, c: Seq<char>, d: Seq<char>)
    ensures
        var_texts(seq![a, b, c, d]) == var_text(a) + var_text(b) + var_text(c) + var_text(d),
{
    let e = Seq::<Seq<char>>::empty();
    assert(var_texts(e) =~= Seq::<u8>::empty());
    lemma_var_texts_push(e, a);
    lemma_var_texts_push(e.push(a), b);
    lemma_var_texts_push(e.push(a).push(b), c);
    lemma_var_texts_push(e.push(a).push(b).push(c), d);
    assert(seq![a, b, c, d] =~= e.push(a).push(b).push(c).push(d));
    assert(Seq::<u8>::empty() + var_text(a) =~= var_text(a));
}

/// Five text fields, in order.
proof fn lemma_var_texts_5(a: Seq<char>, b: Seq<char>, c: Seq<char>, d: Seq<char>, e: Seq<char>)
    ensures
        var_texts(seq![a, b, c, d, e]) == var_text(a) + var_text(b) + var_text(c) + var_text(d)
            + var_text(e),
{
    lemma_var_texts_4(a, b, c, d);
    lemma_var_texts_push(seq![a, b, c, d], e);
    assert(seq![a, b, c, d, e] =~= seq![a, b, c, d].push(e));
}

/// Six text fields, in order.
proof fn lemma_var_texts_6(
    a: Seq<char>,
    b: Seq<char>,
    c: Seq<char>,
    d: Seq<char>,
    e: Seq<char>,
    f: Seq<char>,
)
    ensures
        var_texts(seq![a, b, c, d, e, f]) == var_text(a) + var_text(b) + var_text(c) + var_text(d)
            + var_text(e) + var_text(f),
{
    lemma_var_texts_5(a, b, c, d, e);
    lemma_var_texts_push(seq![a, b, c, d, e], f);
    assert(seq![a, b, c, d, e, f] =~= seq![a, b, c, d, e].push(f));
}

/// The frame of an order, field by field: the header (block length 9,
/// template 2), Side, OrderQty, then ClOrdID, Symbol, Price, SenderCompID
/// and TargetCompID as variable data.
pub proof fn lemma_order_frame_layout(m: OrderModel)
    ensures
        spec_order_frame(m) == spec_header(9, 2) + seq![m.side] + le_i64(m.qty) + var_text(
            m.cl_ord_id,
        ) + var_text(m.symbol) + var_text(m.price) + var_text(m.sender_comp_id) + var_text(
            m.target_comp_id,
        ),
{
    lemma_var_texts_5(m.cl_ord_id, m.symbol, m.price, m.sender_comp_id, m.target_comp_id);
    assert(spec_order_frame(m) =~= spec_header(9, 2) + seq![m.side] + le_i64(m.qty) + var_text(
        m.cl_ord_id,
    ) + var_text(m.symbol) + var_text(m.price) + var_text(m.sender_comp_id) + var_text(
        m.target_comp_id,
    ));
}

/// The frame of a cancel request, field by field: the header (block length
/// 9, template 4), Side, OrderQty, then ClOrdID, OrigClOrdID, Symbol,
/// SenderCompID and TargetCompID as variable data.
pub proof fn lemma_cancel_request_frame_layout(m: CancelRequestModel)
    ensures
        spec_cancel_request_frame(m) == spec_header(9, 4) + seq![m.side] + le_i64(m.qty)
            + var_text(m.cl_ord_id) + var_text(m.orig_cl_ord_id) + var_text(m.symbol) + var_text(
            m.sender_comp_id,
        ) + var_text(m.target_comp_id),
{
    lemma_var_texts_5(m.cl_ord_id, m.orig_cl_ord_id, m.symbol, m.sender_comp_id, m.target_comp_id);
    assert(spec_cancel_request_frame(m) =~= spec_header(9, 4) + seq![m.side] + le_i64(m.qty)
        + var_text(m.cl_ord_id) + var_text(m.orig_cl_ord_id) + var_text(m.symbol) + var_text(
        m.sender_comp_id,
    ) + var_text(m.target_comp_id));
}

/// The frame of a cancel/replace request, field by field: the header
/// (block length 9, template 5), Side, OrderQty, then ClOrdID, OrigClOrdID,
/// Symbol, Price, SenderCompID and TargetCompID as variable data.
pub proof fn lemma_replace_request_frame_layout(m: ReplaceRequestModel)
    ensures
        spec_replace_request_frame(m) == spec_header(9, 5) + seq![m.side] + le_i64(m.qty)
            + var_text(m.cl_ord_id) + var_text(m.orig_cl_ord_id) + var_text(m.symbol) + var_text(
            m.price,
        ) + var_text(m.sender_comp_id) + var_text(m.target_comp_id),
{
    lemma_var_texts_6(
        m.cl_ord_id,
        m.orig_cl_ord_id,
        m.symbol,
        m.price,
        m.sender_comp_id,
        m.target_comp_id,
    );
    assert(spec_replace_request_frame(m) =~= spec_header(9, 5) + seq![m.side] + le_i64(m.qty)
        + var_text(m.cl_ord_id) + var_text(m.orig_cl_ord_id) + var_text(m.symbol) + var_text(
        m.price,
    ) + var_text(m.sender_comp_id) + var_text(m.target_comp_id));
}

/// The frame of an order status request, field by field: the header (block
/// length 1, template 6), Side, then ClOrdID, OrderID, Symbol, SenderCompID
/// and TargetCompID as variable data.
pub proof fn lemma_order_status_request_frame_layout(m: OrderStatusRequestModel)
    ensures
        spec_order_status_request_frame(m) == spec_header(1, 6) + seq![m.side] + var_text(
            m.cl_ord_id,
        ) + var_text(m.order_id) + var_text(m.symbol) + var_text(m.sender_comp_id) + var_text(
            m.target_comp_id,
        ),
{
    lemma_var_texts_5(m.cl_ord_id, m.order_id, m.symbol, m.sender_comp_id, m.target_comp_id);
    assert(spec_order_status_request_frame(m) =~= spec_header(1, 6) + seq![m.side] + var_text(
        m.cl_ord_id,
    ) + var_text(m.order_id) + var_text(m.symbol) + var_text(m.sender_comp_id) + var_text(
        m.target_comp_id,
    ));
}

/// The frame of an execution report, field by field: the header (block
/// length 35, template 3), Side, OrderQty, LastQty, LeavesQty, CumQty,
/// ExecType, OrdStatus, then ClOrdID, Symbol, LastPx, AvgPx, OrderID and
/// ExecID as variable data.
pub proof fn lemma_execution_report_frame_layout(m: ExecutionReportModel)
    ensures
        spec_execution_report_frame(m) == spec_header(35, 3) + seq![m.side] + le_i64(m.order_qty)
            + le_i64(m.last_qty) + le_i64(m.leaves_qty) + le_i64(m.cum_qty) + seq![m.exec_type]
            + seq![m.ord_status] + var_text(m.cl_ord_id) + var_text(m.symbol) + var_text(m.last_px)
            + var_text(m.avg_px) + var_text(m.order_id) + var_text(m.exec_id),
{
    lemma_var_texts_6(m.cl_ord_id, m.symbol, m.last_px, m.avg_px, m.order_id, m.exec_id);
    assert(spec_execution_report_frame(m) =~= spec_header(35, 3) + seq![m.side] + le_i64(
        m.order_qty,
    ) + le_i64(m.last_qty) + le_i64(m.leaves_qty) + le_i64(m.cum_qty) + seq![m.exec_type]
        + seq![m.ord_status] + var_text(m.cl_ord_id) + var_text(m.symbol) + var_text(m.last_px)
        + var_text(m.avg_px) + var_text(m.order_id) + var_text(m.exec_id));
}

/// The frame of a cancel reject, field by field: the header (block length
/// 6, template 7), OrdStatus, CxlRejResponseTo, CxlRejReason, then OrderID,
/// ClOrdID, OrigClOrdID and Text as variable data.
pub proof fn lemma_cancel_reject_frame_layout(m: CancelRejectModel)
    ensures
        spec_cancel_reject_frame(m) == spec_header(6, 7) + seq![m.ord_status] + seq![
            m.cxl_rej_response_to,
        ] + le_i32(m.cxl_rej_reason) + var_text(m.order_id) + var_text(m.cl_ord_id) + var_text(
            m.orig_cl_ord_id,
        ) + var_text(m.text),
{
    lemma_var_texts_4(m.order_id, m.cl_ord_id, m.orig_cl_ord_id, m.text);
    assert(spec_cancel_reject_frame(m) =~= spec_header(6, 7) + seq![m.ord_status] + seq![
        m.cxl_rej_response_to,
    ] + le_i32(m.cxl_rej_reason) + var_text(m.order_id) + var_text(m.cl_ord_id) + var_text(
        m.orig_cl_ord_id,
    ) + var_text(m.text));
}

/// The report that fills an order executes all of it at once at its price:
/// LastQty and CumQty are the order's quantity, nothing is left open
/// (LeavesQty 0, so LeavesQty + CumQty is OrderQty), ExecType is `F` and
/// OrdStatus `2` (filled); the order's ids, symbol and side carry over.
pub proof fn lemma_filled_report_fills_order(o: OrderModel)
    ensures
        ({
            let r = spec_filled_report(o);
            &&& r.order_qty == o.qty
            &&& r.cum_qty == o.qty
            &&& r.last_qty == o.qty
            &&& r.leaves_qty == 0
            &&& r.leaves_qty + r.cum_qty == r.order_qty
            &&& r.last_px == o.price
            &&& r.avg_px == o.price
            &&& r.cl_ord_id == o.cl_ord_id
            &&& r.symbol == o.symbol
            &&& r.side == o.side
            &&& r.exec_type == 70u8
            &&& r.ord_status == 50u8
        }),
{
}

/// Decoding the frame of the fill of an order gives a report that executes
/// the whole order: CumQty and LastQty are its quantity and LeavesQty is 0.
pub proof fn lemma_filled_frame_reads_as_fill(o: OrderModel, rest: Seq<u8>)
    requires
        texts_fit(execution_report_texts(spec_filled_report(o))),
    ensures
        spec_decode_execution_report(spec_execution_report_frame(spec_filled_report(o)) + rest) matches Ok(r)
            && r.cum_qty == o.qty && r.last_qty == o.qty && r.leaves_qty == 0 && r.order_qty == o.qty
            && r.exec_type == 70u8 && r.ord_status == 50u8 && r.cl_ord_id == o.cl_ord_id,
{
    lemma_execution_report_roundtrip(spec_filled_report(o), rest);
}

/// An order read from a FIX message takes each field from its own tag:
/// ClOrdID (11), Symbol (55), Price (44), SenderCompID (49) and
/// TargetCompID (56) as text, OrderQty (38) as a number.
pub proof fn lemma_order_from_fix_tags(f: Seq<(u32, Seq<u8>)>)
    ensures
        ({
            let r = spec_order_from_fix(f);
            &&& first_text(f, 11) matches Some(a) ==> r.cl_ord_id == a
            &&& first_text(f, 55) matches Some(a) ==> r.symbol == a
            &&& first_text(f, 44) matches Some(a) ==> r.price == a
            &&& first_text(f, 49) matches Some(a) ==> r.sender_comp_id == a
            &&& first_text(f, 56) matches Some(a) ==> r.target_comp_id == a
            &&& first_i64(f, 38) matches Some(q) ==> r.qty == q
        }),
{
}

/// A cancel request read from a FIX message takes each field from its own
/// tag: ClOrdID (11), OrigClOrdID (41), Symbol (55), SenderCompID (49) and
/// TargetCompID (56) as text, OrderQty (38) as a number.
pub proof fn lemma_cancel_request_from_fix_tags(f: Seq<(u32, Seq<u8>)>)
    ensures
        ({
            let r = spec_cancel_request_from_fix(f);
            &&& first_text(f, 11) matches Some(a) ==> r.cl_ord_id == a
            &&& first_text(f, 41) matches Some(a) ==> r.orig_cl_ord_id == a
            &&& first_text(f, 55) matches Some(a) ==> r.symbol == a
            &&& first_text(f, 49) matches Some(a) ==> r.sender_comp_id == a
            &&& first_text(f, 56) matches Some(a) ==> r.target_comp_id == a
            &&& first_i64(f, 38) matches Some(q) ==> r.qty == q
        }),
{
}

/// A cancel/replace request read from a FIX message takes each field from
/// its own tag: the new ClOrdID (11), the OrigClOrdID of the order replaced
/// (41), Symbol (55), Price (44), SenderCompID (49) and TargetCompID (56)
/// as text, OrderQty (38) as a number.
pub proof fn lemma_replace_request_from_fix_tags(f: Seq<(u32, Seq<u8>)>)
    ensures
        ({
            let r = spec_replace_request_from_fix(f);
            &&& first_text(f, 11) matches Some(a) ==> r.cl_ord_id == a
            &&& first_text(f, 41) matches Some(a) ==> r.orig_cl_ord_id == a
            &&& first_text(f, 55) matches Some(a) ==> r.symbol == a
            &&& first_text(f, 44) matches Some(a) ==> r.price == a
            &&& first_text(f, 49) matches Some(a) ==> r.sender_comp_id == a
            &&& first_text(f, 56) matches Some(a) ==> r.target_comp_id == a
            &&& first_i64(f, 38) matches Some(q) ==> r.qty == q
        }),
{
}

/// An order status request read from a FIX message takes each field from
/// its own tag: ClOrdID (11), OrderID (37), Symbol (55), SenderCompID (49)
/// and TargetCompID (56).
pub proof fn lemma_order_status_request_from_fix_tags(f: Seq<(u32, Seq<u8>)>)
    ensures
        ({
            let r = spec_order_status_request_from_fix(f);
            &&& first_text(f, 11) matches Some(a) ==> r.cl_ord_id == a
            &&& first_text(f, 37) matches Some(a) ==> r.order_id == a
            &&& first_text(f, 55) matches Some(a) ==> r.symbol == a
            &&& first_text(f, 49) matches Some(a) ==> r.sender_comp_id == a
            &&& first_text(f, 56) matches Some(a) ==> r.target_comp_id == a
        }),
{
}

} // verus!
