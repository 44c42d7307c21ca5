//! What the parser reads back from each message the serializer writes:
//! every argument of a builder comes back as the value of its own tag.
use vstd::prelude::*;

use crate::parser::{
    header_fields, lemma_digits_no_soh, lemma_fields_bytes_concat, lemma_fields_bytes_one,
    lemma_header_fields_bytes, lemma_header_values, lemma_i64_digits_no_soh, lemma_parse_serialized,
    lemma_values_concat, no_soh, optional_fields, parsed_message, values_without_soh, written_fields,
};
use crate::serializer::{
    dec_digits, execution_report_with_orig_cl_ord_id_body, field_bytes, fields_bytes,
    heartbeat_body, i64_digits, logon_with_reset_body, logout_body, new_order_single_body,
    opt_field, opt_i64_field, order_cancel_reject_body, order_cancel_replace_request_body,
    order_cancel_request_body, order_status_request_body, reject_body, resend_request_body,
    sequence_reset_gap_fill_body, spec_execution_report_with_orig_cl_ord_id, spec_heartbeat,
    spec_logon_with_reset, spec_logout, spec_new_order_single, spec_order_cancel_reject,
    spec_order_cancel_replace_request, spec_order_cancel_request, spec_order_status_request,
    spec_reject, spec_resend_request, spec_sequence_reset_gap_fill, spec_test_request,
    test_request_body,
};
use crate::message::{
    all_digits, first_i64, first_value, lemma_dec_digits_value, spec_parse_i64,
};
use crate::tags::SOH;

verus! {

/// An optional integer field, as the parser reads it: present or not.
pub open spec fn optional_i64_fields(tag: u32, value: Option<i64>) -> Seq<(u32, Seq<u8>)> {
    match value {
        Some(v) => seq![(tag, i64_digits(v))],
        None => Seq::empty(),
    }
}

/// One field whose value holds no SOH.
proof fn lemma_one_value(tag: u32, value: Seq<u8>)
    requires
        no_soh(value),
    ensures
        values_without_soh(seq![(tag, value)]),
        fields_bytes(seq![(tag, value)]) == field_bytes(tag, value),
{
    lemma_fields_bytes_one(tag, value);
}

/// A one-byte value other than SOH.
proof fn lemma_byte_no_soh(b: u8)
    requires
        b != SOH,
    ensures
        no_soh(seq![b]),
{
}

/// An optional text field.
proof fn lemma_optional_value(tag: u32, value: Option<Seq<u8>>)
    requires
        value matches Some(v) ==> no_soh(v),
    ensures
        values_without_soh(optional_fields(tag, value)),
        fields_bytes(optional_fields(tag, value)) == opt_field(tag, value),
{
    match value {
        Some(v) => lemma_one_value(tag, v),
        None => {
            assert(fields_bytes(optional_fields(tag, value)) =~= Seq::<u8>::empty());
        },
    }
}

/// An optional integer field.
proof fn lemma_optional_i64_value(tag: u32, value: Option<i64>)
    ensures
        values_without_soh(optional_i64_fields(tag, value)),
        fields_bytes(optional_i64_fields(tag, value)) == opt_i64_field(tag, value),
{
    match value {
        Some(v) => {
            lemma_i64_digits_no_soh(v);
            lemma_one_value(tag, i64_digits(v));
        },
        None => {
            assert(fields_bytes(optional_i64_fields(tag, value)) =~= Seq::<u8>::empty());
        },
    }
}

/// The fields of the Heartbeat (35=0) message as the parser reads them: the
/// standard header, then each argument under its own tag.
pub open spec fn heartbeat_read_fields(sender: Seq<u8>, target: Seq<u8>, seq_num: u64, sending_time: Seq<u8>) -> Seq<(u32, Seq<u8>)> {
    header_fields(sender, target, seq_num, sending_time)
}

/// A Heartbeat (35=0) message the serializer writes, followed by any bytes, reads back
/// as its BeginString, BodyLength and MsgType, then each argument under its
/// own tag, then the CheckSum.
pub proof fn lemma_heartbeat_reads_back(begin_string: Seq<u8>, sender: Seq<u8>, target: Seq<u8>, seq_num: u64, sending_time: Seq<u8>, rest: Seq<u8>)
    requires
        no_soh(begin_string),
        no_soh(sender),
        no_soh(target),
        no_soh(sending_time),
        (field_bytes(35, seq![48u8]) + heartbeat_body(sender, target, seq_num, sending_time)).len() < 1_000_000,
        spec_heartbeat(begin_string, sender, target, seq_num, sending_time).len() + rest.len() <= usize::MAX,
    ensures
        parsed_message(spec_heartbeat(begin_string, sender, target, seq_num, sending_time) + rest) == Some(
            (
                written_fields(begin_string, seq![48u8], heartbeat_read_fields(sender, target, seq_num, sending_time)),
                spec_heartbeat(begin_string, sender, target, seq_num, sending_time).len(),
            ),
        ),
{
    let a0 = header_fields(sender, target, seq_num, sending_time);
    lemma_header_fields_bytes(sender, target, seq_num, sending_time);
    lemma_header_values(sender, target, seq_num, sending_time);
    assert(fields_bytes(a0) =~= heartbeat_body(sender, target, seq_num, sending_time));
    assert(a0 =~= heartbeat_read_fields(sender, target, seq_num, sending_time));
    lemma_parse_serialized(begin_string, seq![48u8], a0, rest);
}

/// The fields of the Logon (35=A) with ResetSeqNumFlag=Y message as the parser reads them: the
/// standard header, then each argument under its own tag.
pub open spec fn logon_with_reset_read_fields(sender: Seq<u8>, target: Seq<u8>, seq_num: u64, sending_time: Seq<u8>, heartbeat_interval: i64) -> Seq<(u32, Seq<u8>)> {
    header_fields(sender, target, seq_num, sending_time)
        + seq![(98u32, i64_digits(0i64))]
        + seq![(108u32, i64_digits(heartbeat_interval))]
        + seq![(141u32, seq![89u8])]
}

/// A Logon (35=A) with ResetSeqNumFlag=Y message the serializer writes, followed by any bytes, reads back
/// as its BeginString, BodyLength and MsgType, then each argument under its
/// own tag, then the CheckSum.
pub proof fn lemma_logon_with_reset_reads_back(begin_string: Seq<u8>, sender: Seq<u8>, target: Seq<u8>, seq_num: u64, sending_time: Seq<u8>, heartbeat_interval: i64, rest: Seq<u8>)
    requires
        no_soh(begin_string),
        no_soh(sender),
        no_soh(target),
        no_soh(sending_time),
        (field_bytes(35, seq![65u8]) + logon_with_reset_body(sender, target, seq_num, sending_time, heartbeat_interval)).len() < 1_000_000,
        spec_logon_with_reset(begin_string, sender, target, seq_num, sending_time, heartbeat_interval).len() + rest.len() <= usize::MAX,
    ensures
        parsed_message(spec_logon_with_reset(begin_string, sender, target, seq_num, sending_time, heartbeat_interval) + rest) == Some(
            (
                written_fields(begin_string, seq![65u8], logon_with_reset_read_fields(sender, target, seq_num, sending_time, heartbeat_interval)),
                spec_logon_with_reset(begin_string, sender, target, seq_num, sending_time, heartbeat_interval).len(),
            ),
        ),
{
    let a0 = header_fields(sender, target, seq_num, sending_time);
    lemma_header_fields_bytes(sender, target, seq_num, sending_time);
    lemma_header_values(sender, target, seq_num, sending_time);
    lemma_i64_digits_no_soh(0i64);
    lemma_one_value(98u32, i64_digits(0i64));
    lemma_fields_bytes_concat(a0, seq![(98u32, i64_digits(0i64))]);
    lemma_values_concat(a0, seq![(98u32, i64_digits(0i64))]);
    let a1 = a0 + seq![(98u32, i64_digits(0i64))];
    lemma_i64_digits_no_soh(heartbeat_interval);
    lemma_one_value(108u32, i64_digits(heartbeat_interval));
    lemma_fields_bytes_concat(a1, seq![(108u32, i64_digits(heartbeat_interval))]);
    lemma_values_concat(a1, seq![(108u32, i64_digits(heartbeat_interval))]);
    let a2 = a1 + seq![(108u32, i64_digits(heartbeat_interval))];
    lemma_byte_no_soh(89u8);
    lemma_one_value(141u32, seq![89u8]);
    lemma_fields_bytes_concat(a2, seq![(141u32, seq![89u8])]);
    lemma_values_concat(a2, seq![(141u32, seq![89u8])]);
    let a3 = a2 + seq![(141u32, seq![89u8])];
    assert(fields_bytes(a3) =~= logon_with_reset_body(sender, target, seq_num, sending_time, heartbeat_interval));
    assert(a3 =~= logon_with_reset_read_fields(sender, target, seq_num, sending_time, heartbeat_interval));
    lemma_parse_serialized(begin_string, seq![65u8], a3, rest);
}

/// The fields of the Logout (35=5) message as the parser reads them: the
/// standard header, then each argument under its own tag.
pub open spec fn logout_read_fields(sender: Seq<u8>, target: Seq<u8>, seq_num: u64, sending_time: Seq<u8>) -> Seq<(u32, Seq<u8>)> {
    header_fields(sender, target, seq_num, sending_time)
}

/// A Logout (35=5) message the serializer writes, followed by any bytes, reads back
/// as its BeginString, BodyLength and MsgType, then each argument under its
/// own tag, then the CheckSum.
pub proof fn lemma_logout_reads_back(begin_string: Seq<u8>, sender: Seq<u8>, target: Seq<u8>, seq_num: u64, sending_time: Seq<u8>, rest: Seq<u8>)
    requires
        no_soh(begin_string),
        no_soh(sender),
        no_soh(target),
        no_soh(sending_time),
        (field_bytes(35, seq![53u8]) + logout_body(sender, target, seq_num, sending_time)).len() < 1_000_000,
        spec_logout(begin_string, sender, target, seq_num, sending_time).len() + rest.len() <= usize::MAX,
    ensures
        parsed_message(spec_logout(begin_string, sender, target, seq_num, sending_time) + rest) == Some(
            (
                written_fields(begin_string, seq![53u8], logout_read_fields(sender, target, seq_num, sending_time)),
                spec_logout(begin_string, sender, target, seq_num, sending_time).len(),
            ),
        ),
{
    let a0 = header_fields(sender, target, seq_num, sending_time);
    lemma_header_fields_bytes(sender, target, seq_num, sending_time);
    lemma_header_values(sender, target, seq_num, sending_time);
    assert(fields_bytes(a0) =~= logout_body(sender, target, seq_num, sending_time));
    assert(a0 =~= logout_read_fields(sender, target, seq_num, sending_time));
    lemma_parse_serialized(begin_string, seq![53u8], a0, rest);
}

/// The fields of the SequenceReset-GapFill (35=4, 123=Y, 43=Y) message as the parser reads them: the
/// standard header, then each argument under its own tag.
pub open spec fn sequence_reset_gap_fill_read_fields(sender: Seq<u8>, target: Seq<u8>, seq_num: u64, sending_time: Seq<u8>, new_seq_no: u64) -> Seq<(u32, Seq<u8>)> {
    header_fields(sender, target, seq_num, sending_time)
        + seq![(123u32, seq![89u8])]
        + seq![(36u32, dec_digits(new_seq_no as nat))]
        + seq![(43u32, seq![89u8])]
}

/// A SequenceReset-GapFill (35=4, 123=Y, 43=Y) message the serializer writes, followed by any bytes, reads back
/// as its BeginString, BodyLength and MsgType, then each argument under its
/// own tag, then the CheckSum.
pub proof fn lemma_sequence_reset_gap_fill_reads_back(begin_string: Seq<u8>, sender: Seq<u8>, target: Seq<u8>, seq_num: u64, sending_time: Seq<u8>, new_seq_no: u64, rest: Seq<u8>)
    requires
        no_soh(begin_string),
        no_soh(sender),
        no_soh(target),
        no_soh(sending_time),
        (field_bytes(35, seq![52u8]) + sequence_reset_gap_fill_body(sender, target, seq_num, sending_time, new_seq_no)).len() < 1_000_000,
        spec_sequence_reset_gap_fill(begin_string, sender, target, seq_num, sending_time, new_seq_no).len() + rest.len() <= usize::MAX,
    ensures
        parsed_message(spec_sequence_reset_gap_fill(begin_string, sender, target, seq_num, sending_time, new_seq_no) + rest) == Some(
            (
                written_fields(begin_string, seq![52u8], sequence_reset_gap_fill_read_fields(sender, target, seq_num, sending_time, new_seq_no)),
                spec_sequence_reset_gap_fill(begin_string, sender, target, seq_num, sending_time, new_seq_no).len(),
            ),
        ),
{
    let a0 = header_fields(sender, target, seq_num, sending_time);
    lemma_header_fields_bytes(sender, target, seq_num, sending_time);
    lemma_header_values(sender, target, seq_num, sending_time);
    lemma_byte_no_soh(89u8);
    lemma_one_value(123u32, seq![89u8]);
    lemma_fields_bytes_concat(a0, seq![(123u32, seq![89u8])]);
    lemma_values_concat(a0, seq![(123u32, seq![89u8])]);
    let a1 = a0 + seq![(123u32, seq![89u8])];
    lemma_digits_no_soh(new_seq_no as nat);
    lemma_one_value(36u32, dec_digits(new_seq_no as nat));
    lemma_fields_bytes_concat(a1, seq![(36u32, dec_digits(new_seq_no as nat))]);
    lemma_values_concat(a1, seq![(36u32, dec_digits(new_seq_no as nat))]);
    let a2 = a1 + seq![(36u32, dec_digits(new_seq_no as nat))];
    lemma_byte_no_soh(89u8);
    lemma_one_value(43u32, seq![89u8]);
    lemma_fields_bytes_concat(a2, seq![(43u32, seq![89u8])]);
    lemma_values_concat(a2, seq![(43u32, seq![89u8])]);
    let a3 = a2 + seq![(43u32, seq![89u8])];
    assert(fields_bytes(a3) =~= sequence_reset_gap_fill_body(sender, target, seq_num, sending_time, new_seq_no));
    assert(a3 =~= sequence_reset_gap_fill_read_fields(sender, target, seq_num, sending_time, new_seq_no));
    lemma_parse_serialized(begin_string, seq![52u8], a3, rest);
}

/// The fields of the ResendRequest (35=2) message as the parser reads them: the
/// standard header, then each argument under its own tag.
pub open spec fn resend_request_read_fields(sender: Seq<u8>, target: Seq<u8>, seq_num: u64, sending_time: Seq<u8>, begin_seq_no: u64, end_seq_no: u64) -> Seq<(u32, Seq<u8>)> {
    header_fields(sender, target, seq_num, sending_time)
        + seq![(7u32, dec_digits(begin_seq_no as nat))]
        + seq![(16u32, dec_digits(end_seq_no as nat))]
}

/// A ResendRequest (35=2) message the serializer writes, followed by any bytes, reads back
/// as its BeginString, BodyLength and MsgType, then each argument under its
/// own tag, then the CheckSum.
pub proof fn lemma_resend_request_reads_back(begin_string: Seq<u8>, sender: Seq<u8>, target: Seq<u8>, seq_num: u64, sending_time: Seq<u8>, begin_seq_no: u64, end_seq_no: u64, rest: Seq<u8>)
    requires
        no_soh(begin_string),
        no_soh(sender),
        no_soh(target),
        no_soh(sending_time),
        (field_bytes(35, seq![50u8]) + resend_request_body(sender, target, seq_num, sending_time, begin_seq_no, end_seq_no)).len() < 1_000_000,
        spec_resend_request(begin_string, sender, target, seq_num, sending_time, begin_seq_no, end_seq_no).len() + rest.len() <= usize::MAX,
    ensures
        parsed_message(spec_resend_request(begin_string, sender, target, seq_num, sending_time, begin_seq_no, end_seq_no) + rest) == Some(
            (
                written_fields(begin_string, seq![50u8], resend_request_read_fields(sender, target, seq_num, sending_time, begin_seq_no, end_seq_no)),
                spec_resend_request(begin_string, sender, target, seq_num, sending_time, begin_seq_no, end_seq_no).len(),
            ),
        ),
{
    let a0 = header_fields(sender, target, seq_num, sending_time);
    lemma_header_fields_bytes(sender, target, seq_num, sending_time);
    lemma_header_values(sender, target, seq_num, sending_time);
    lemma_digits_no_soh(begin_seq_no as nat);
    lemma_one_value(7u32, dec_digits(begin_seq_no as nat));
    lemma_fields_bytes_concat(a0, seq![(7u32, dec_digits(begin_seq_no as nat))]);
    lemma_values_concat(a0, seq![(7u32, dec_digits(begin_seq_no as nat))]);
    let a1 = a0 + seq![(7u32, dec_digits(begin_seq_no as nat))];
    lemma_digits_no_soh(end_seq_no as nat);
    lemma_one_value(16u32, dec_digits(end_seq_no as nat));
    lemma_fields_bytes_concat(a1, seq![(16u32, dec_digits(end_seq_no as nat))]);
    lemma_values_concat(a1, seq![(16u32, dec_digits(end_seq_no as nat))]);
    let a2 = a1 + seq![(16u32, dec_digits(end_seq_no as nat))];
    assert(fields_bytes(a2) =~= resend_request_body(sender, target, seq_num, sending_time, begin_seq_no, end_seq_no));
    assert(a2 =~= resend_request_read_fields(sender, target, seq_num, sending_time, begin_seq_no, end_seq_no));
    lemma_parse_serialized(begin_string, seq![50u8], a2, rest);
}

/// The fields of the session-level Reject (35=3) message as the parser reads them: the
/// standard header, then each argument under its own tag.
pub open spec fn reject_read_fields(sender: Seq<u8>, target: Seq<u8>, seq_num: u64, sending_time: Seq<u8>, ref_seq_num: u64, reason: u32, text: Option<Seq<u8>>) -> Seq<(u32, Seq<u8>)> {
    header_fields(sender, target, seq_num, sending_time)
        + seq![(45u32, dec_digits(ref_seq_num as nat))]
        + seq![(373u32, dec_digits(reason as nat))]
        + optional_fields(58u32, text)
}

/// A session-level Reject (35=3) message the serializer writes, followed by any bytes, reads back
/// as its BeginString, BodyLength and MsgType, then each argument under its
/// own tag, then the CheckSum.
pub proof fn lemma_reject_reads_back(begin_string: Seq<u8>, sender: Seq<u8>, target: Seq<u8>, seq_num: u64, sending_time: Seq<u8>, ref_seq_num: u64, reason: u32, text: Option<Seq<u8>>, rest: Seq<u8>)
    requires
        no_soh(begin_string),
        no_soh(sender),
        no_soh(target),
        no_soh(sending_time),
        text matches Some(v) ==> no_soh(v),
        (field_bytes(35, seq![51u8]) + reject_body(sender, target, seq_num, sending_time, ref_seq_num, reason, text)).len() < 1_000_000,
        spec_reject(begin_string, sender, target, seq_num, sending_time, ref_seq_num, reason, text).len() + rest.len() <= usize::MAX,
    ensures
        parsed_message(spec_reject(begin_string, sender, target, seq_num, sending_time, ref_seq_num, reason, text) + rest) == Some(
            (
                written_fields(begin_string, seq![51u8], reject_read_fields(sender, target, seq_num, sending_time, ref_seq_num, reason, text)),
                spec_reject(begin_string, sender, target, seq_num, sending_time, ref_seq_num, reason, text).len(),
            ),
        ),
{
    let a0 = header_fields(sender, target, seq_num, sending_time);
    lemma_header_fields_bytes(sender, target, seq_num, sending_time);
    lemma_header_values(sender, target, seq_num, sending_time);
    lemma_digits_no_soh(ref_seq_num as nat);
    lemma_one_value(45u32, dec_digits(ref_seq_num as nat));
    lemma_fields_bytes_concat(a0, seq![(45u32, dec_digits(ref_seq_num as nat))]);
    lemma_values_concat(a0, seq![(45u32, dec_digits(ref_seq_num as nat))]);
    let a1 = a0 + seq![(45u32, dec_digits(ref_seq_num as nat))];
    lemma_digits_no_soh(reason as nat);
    lemma_one_value(373u32, dec_digits(reason as nat));
    lemma_fields_bytes_concat(a1, seq![(373u32, dec_digits(reason as nat))]);
    lemma_values_concat(a1, seq![(373u32, dec_digits(reason as nat))]);
    let a2 = a1 + seq![(373u32, dec_digits(reason as nat))];
    lemma_optional_value(58u32, text);
    lemma_fields_bytes_concat(a2, optional_fields(58u32, text));
    lemma_values_concat(a2, optional_fields(58u32, text));
    let a3 = a2 + optional_fields(58u32, text);
    assert(fields_bytes(a3) =~= reject_body(sender, target, seq_num, sending_time, ref_seq_num, reason, text));
    assert(a3 =~= reject_read_fields(sender, target, seq_num, sending_time, ref_seq_num, reason, text));
    lemma_parse_serialized(begin_string, seq![51u8], a3, rest);
}

/// The fields of the TestRequest (35=1) message as the parser reads them: the
/// standard header, then each argument under its own tag.
pub open spec fn test_request_read_fields(sender: Seq<u8>, target: Seq<u8>, seq_num: u64, sending_time: Seq<u8>, test_req_id: Seq<u8>) -> Seq<(u32, Seq<u8>)> {
    header_fields(sender, target, seq_num, sending_time)
        + seq![(112u32, test_req_id)]
}

/// A TestRequest (35=1) message the serializer writes, followed by any bytes, reads back
/// as its BeginString, BodyLength and MsgType, then each argument under its
/// own tag, then the CheckSum.
pub proof fn lemma_test_request_reads_back(begin_string: Seq<u8>, sender: Seq<u8>, target: Seq<u8>, seq_num: u64, sending_time: Seq<u8>, test_req_id: Seq<u8>, rest: Seq<u8>)
    requires
        no_soh(begin_string),
        no_soh(sender),
        no_soh(target),
        no_soh(sending_time),
        no_soh(test_req_id),
        (field_bytes(35, seq![49u8]) + test_request_body(sender, target, seq_num, sending_time, test_req_id)).len() < 1_000_000,
        spec_test_request(begin_string, sender, target, seq_num, sending_time, test_req_id).len() + rest.len() <= usize::MAX,
    ensures
        parsed_message(spec_test_request(begin_string, sender, target, seq_num, sending_time, test_req_id) + rest) == Some(
            (
                written_fields(begin_string, seq![49u8], test_request_read_fields(sender, target, seq_num, sending_time, test_req_id)),
                spec_test_request(begin_string, sender, target, seq_num, sending_time, test_req_id).len(),
            ),
        ),
{
    let a0 = header_fields(sender, target, seq_num, sending_time);
    lemma_header_fields_bytes(sender, target, seq_num, sending_time);
    lemma_header_values(sender, target, seq_num, sending_time);
    lemma_one_value(112u32, test_req_id);
    lemma_fields_bytes_concat(a0, seq![(112u32, test_req_id)]);
    lemma_values_concat(a0, seq![(112u32, test_req_id)]);
    let a1 = a0 + seq![(112u32, test_req_id)];
    assert(fields_bytes(a1) =~= test_request_body(sender, target, seq_num, sending_time, test_req_id));
    assert(a1 =~= test_request_read_fields(sender, target, seq_num, sending_time, test_req_id));
    lemma_parse_serialized(begin_string, seq![49u8], a1, rest);
}

/// The fields of the NewOrderSingle (35=D) message as the parser reads them: the
/// standard header, then each argument under its own tag.
pub open spec fn new_order_single_read_fields(sender: Seq<u8>, target: Seq<u8>, seq_num: u64, sending_time: Seq<u8>, cl_ord_id: Seq<u8>, symbol: Seq<u8>, side: u8, qty: i64, ord_type: u8, price: Seq<u8>) -> Seq<(u32, Seq<u8>)> {
    header_fields(sender, target, seq_num, sending_time)
        + seq![(11u32, cl_ord_id)]
        + seq![(55u32, symbol)]
        + seq![(54u32, seq![side])]
        + seq![(38u32, i64_digits(qty))]
        + seq![(40u32, seq![ord_type])]
        + seq![(44u32, price)]
        + seq![(60u32, sending_time)]
        + seq![(21u32, seq![49u8])]
}

/// A NewOrderSingle (35=D) message the serializer writes, followed by any bytes, reads back
/// as its BeginString, BodyLength and MsgType, then each argument under its
/// own tag, then the CheckSum.
pub proof fn lemma_new_order_single_reads_back(begin_string: Seq<u8>, sender: Seq<u8>, target: Seq<u8>, seq_num: u64, sending_time: Seq<u8>, cl_ord_id: Seq<u8>, symbol: Seq<u8>, side: u8, qty: i64, ord_type: u8, price: Seq<u8>, rest: Seq<u8>)
    requires
        no_soh(begin_string),
        no_soh(sender),
        no_soh(target),
        no_soh(sending_time),
        no_soh(cl_ord_id),
        no_soh(symbol),
        side != SOH,
        ord_type != SOH,
        no_soh(price),
        (field_bytes(35, seq![68u8]) + new_order_single_body(sender, target, seq_num, sending_time, cl_ord_id, symbol, side, qty, ord_type, price)).len() < 1_000_000,
        spec_new_order_single(begin_string, sender, target, seq_num, sending_time, cl_ord_id, symbol, side, qty, ord_type, price).len() + rest.len() <= usize::MAX,
    ensures
        parsed_message(spec_new_order_single(begin_string, sender, target, seq_num, sending_time, cl_ord_id, symbol, side, qty, ord_type, price) + rest) == Some(
            (
                written_fields(begin_string, seq![68u8], new_order_single_read_fields(sender, target, seq_num, sending_time, cl_ord_id, symbol, side, qty, ord_type, price)),
                spec_new_order_single(begin_string, sender, target, seq_num, sending_time, cl_ord_id, symbol, side, qty, ord_type, price).len(),
            ),
        ),
{
    let a0 = header_fields(sender, target, seq_num, sending_time);
    lemma_header_fields_bytes(sender, target, seq_num, sending_time);
    lemma_header_values(sender, target, seq_num, sending_time);
    lemma_one_value(11u32, cl_ord_id);
    lemma_fields_bytes_concat(a0, seq![(11u32, cl_ord_id)]);
    lemma_values_concat(a0, seq![(11u32, cl_ord_id)]);
    let a1 = a0 + seq![(11u32, cl_ord_id)];
    lemma_one_value(55u32, symbol);
    lemma_fields_bytes_concat(a1, seq![(55u32, symbol)]);
    lemma_values_concat(a1, seq![(55u32, symbol)]);
    let a2 = a1 + seq![(55u32, symbol)];
    lemma_byte_no_soh(side);
    lemma_one_value(54u32, seq![side]);
    lemma_fields_bytes_concat(a2, seq![(54u32, seq![side])]);
    lemma_values_concat(a2, seq![(54u32, seq![side])]);
    let a3 = a2 + seq![(54u32, seq![side])];
    lemma_i64_digits_no_soh(qty);
    lemma_one_value(38u32, i64_digits(qty));
    lemma_fields_bytes_concat(a3, seq![(38u32, i64_digits(qty))]);
    lemma_values_concat(a3, seq![(38u32, i64_digits(qty))]);
    let a4 = a3 + seq![(38u32, i64_digits(qty))];
    lemma_byte_no_soh(ord_type);
    lemma_one_value(40u32, seq![ord_type]);
    lemma_fields_bytes_concat(a4, seq![(40u32, seq![ord_type])]);
    lemma_values_concat(a4, seq![(40u32, seq![ord_type])]);
    let a5 = a4 + seq![(40u32, seq![ord_type])];
    lemma_one_value(44u32, price);
    lemma_fields_bytes_concat(a5, seq![(44u32, price)]);
    lemma_values_concat(a5, seq![(44u32, price)]);
    let a6 = a5 + seq![(44u32, price)];
    lemma_one_value(60u32, sending_time);
    lemma_fields_bytes_concat(a6, seq![(60u32, sending_time)]);
    lemma_values_concat(a6, seq![(60u32, sending_time)]);
    let a7 = a6 + seq![(60u32, sending_time)];
    lemma_byte_no_soh(49u8);
    lemma_one_value(21u32, seq![49u8]);
    lemma_fields_bytes_concat(a7, seq![(21u32, seq![49u8])]);
    lemma_values_concat(a7, seq![(21u32, seq![49u8])]);
    let a8 = a7 + seq![(21u32, seq![49u8])];
    assert(fields_bytes(a8) =~= new_order_single_body(sender, target, seq_num, sending_time, cl_ord_id, symbol, side, qty, ord_type, price));
    assert(a8 =~= new_order_single_read_fields(sender, target, seq_num, sending_time, cl_ord_id, symbol, side, qty, ord_type, price));
    lemma_parse_serialized(begin_string, seq![68u8], a8, rest);
}

/// The fields of the OrderCancelRequest (35=F) message as the parser reads them: the
/// standard header, then each argument under its own tag.
pub open spec fn order_cancel_request_read_fields(sender: Seq<u8>, target: Seq<u8>, seq_num: u64, sending_time: Seq<u8>, orig_cl_ord_id: Seq<u8>, cl_ord_id: Seq<u8>, symbol: Seq<u8>, side: u8, qty: i64) -> Seq<(u32, Seq<u8>)> {
    header_fields(sender, target, seq_num, sending_time)
        + seq![(41u32, orig_cl_ord_id)]
        + seq![(11u32, cl_ord_id)]
        + seq![(55u32, symbol)]
        + seq![(54u32, seq![side])]
        + seq![(38u32, i64_digits(qty))]
        + seq![(60u32, sending_time)]
}

/// A OrderCancelRequest (35=F) message the serializer writes, followed by any bytes, reads back
/// as its BeginString, BodyLength and MsgType, then each argument under its
/// own tag, then the CheckSum.
pub proof fn lemma_order_cancel_request_reads_back(begin_string: Seq<u8>, sender: Seq<u8>, target: Seq<u8>, seq_num: u64, sending_time: Seq<u8>, orig_cl_ord_id: Seq<u8>, cl_ord_id: Seq<u8>, symbol: Seq<u8>, side: u8, qty: i64, rest: Seq<u8>)
    requires
        no_soh(begin_string),
        no_soh(sender),
        no_soh(target),
        no_soh(sending_time),
        no_soh(orig_cl_ord_id),
        no_soh(cl_ord_id),
        no_soh(symbol),
        side != SOH,
        (field_bytes(35, seq![70u8]) + order_cancel_request_body(sender, target, seq_num, sending_time, orig_cl_ord_id, cl_ord_id, symbol, side, qty)).len() < 1_000_000,
        spec_order_cancel_request(begin_string, sender, target, seq_num, sending_time, orig_cl_ord_id, cl_ord_id, symbol, side, qty).len() + rest.len() <= usize::MAX,
    ensures
        parsed_message(spec_order_cancel_request(begin_string, sender, target, seq_num, sending_time, orig_cl_ord_id, cl_ord_id, symbol, side, qty) + rest) == Some(
            (
                written_fields(begin_string, seq![70u8], order_cancel_request_read_fields(sender, target, seq_num, sending_time, orig_cl_ord_id, cl_ord_id, symbol, side, qty)),
                spec_order_cancel_request(begin_string, sender, target, seq_num, sending_time, orig_cl_ord_id, cl_ord_id, symbol, side, qty).len(),
            ),
        ),
{
    let a0 = header_fields(sender, target, seq_num, sending_time);
    lemma_header_fields_bytes(sender, target, seq_num, sending_time);
    lemma_header_values(sender, target, seq_num, sending_time);
    lemma_one_value(41u32, orig_cl_ord_id);
    lemma_fields_bytes_concat(a0, seq![(41u32, orig_cl_ord_id)]);
    lemma_values_concat(a0, seq![(41u32, orig_cl_ord_id)]);
    let a1 = a0 + seq![(41u32, orig_cl_ord_id)];
    lemma_one_value(11u32, cl_ord_id);
    lemma_fields_bytes_concat(a1, seq![(11u32, cl_ord_id)]);
    lemma_values_concat(a1, seq![(11u32, cl_ord_id)]);
    let a2 = a1 + seq![(11u32, cl_ord_id)];
    lemma_one_value(55u32, symbol);
    lemma_fields_bytes_concat(a2, seq![(55u32, symbol)]);
    lemma_values_concat(a2, seq![(55u32, symbol)]);
    let a3 = a2 + seq![(55u32, symbol)];
    lemma_byte_no_soh(side);
    lemma_one_value(54u32, seq![side]);
    lemma_fields_bytes_concat(a3, seq![(54u32, seq![side])]);
    lemma_values_concat(a3, seq![(54u32, seq![side])]);
    let a4 = a3 + seq![(54u32, seq![side])];
    lemma_i64_digits_no_soh(qty);
    lemma_one_value(38u32, i64_digits(qty));
    lemma_fields_bytes_concat(a4, seq![(38u32, i64_digits(qty))]);
    lemma_values_concat(a4, seq![(38u32, i64_digits(qty))]);
    let a5 = a4 + seq![(38u32, i64_digits(qty))];
    lemma_one_value(60u32, sending_time);
    lemma_fields_bytes_concat(a5, seq![(60u32, sending_time)]);
    lemma_values_concat(a5, seq![(60u32, sending_time)]);
    let a6 = a5 + seq![(60u32, sending_time)];
    assert(fields_bytes(a6) =~= order_cancel_request_body(sender, target, seq_num, sending_time, orig_cl_ord_id, cl_ord_id, symbol, side, qty));
    assert(a6 =~= order_cancel_request_read_fields(sender, target, seq_num, sending_time, orig_cl_ord_id, cl_ord_id, symbol, side, qty));
    lemma_parse_serialized(begin_string, seq![70u8], a6, rest);
}

/// The fields of the OrderCancelReplaceRequest (35=G) message as the parser reads them: the
/// standard header, then each argument under its own tag.
pub open spec fn order_cancel_replace_request_read_fields(sender: Seq<u8>, target: Seq<u8>, seq_num: u64, sending_time: Seq<u8>, orig_cl_ord_id: Seq<u8>, cl_ord_id: Seq<u8>, symbol: Seq<u8>, side: u8, qty: i64, ord_type: u8, price: Seq<u8>) -> Seq<(u32, Seq<u8>)> {
    header_fields(sender, target, seq_num, sending_time)
        + seq![(41u32, orig_cl_ord_id)]
        + seq![(11u32, cl_ord_id)]
        + seq![(55u32, symbol)]
        + seq![(54u32, seq![side])]
        + seq![(38u32, i64_digits(qty))]
        + seq![(40u32, seq![ord_type])]
        + seq![(44u32, price)]
        + seq![(60u32, sending_time)]
}

/// A OrderCancelReplaceRequest (35=G) message the serializer writes, followed by any bytes, reads back
/// as its BeginString, BodyLength and MsgType, then each argument under its
/// own tag, then the CheckSum.
pub proof fn lemma_order_cancel_replace_request_reads_back(begin_string: Seq<u8>, sender: Seq<u8>, target: Seq<u8>, seq_num: u64, sending_time: Seq<u8>, orig_cl_ord_id: Seq<u8>, cl_ord_id: Seq<u8>, symbol: Seq<u8>, side: u8, qty: i64, ord_type: u8, price: Seq<u8>, rest: Seq<u8>)
    requires
        no_soh(begin_string),
        no_soh(sender),
        no_soh(target),
        no_soh(sending_time),
        no_soh(orig_cl_ord_id),
        no_soh(cl_ord_id),
        no_soh(symbol),
        side != SOH,
        ord_type != SOH,
        no_soh(price),
        (field_bytes(35, seq![71u8]) + order_cancel_replace_request_body(sender, target, seq_num, sending_time, orig_cl_ord_id, cl_ord_id, symbol, side, qty, ord_type, price)).len() < 1_000_000,
        spec_order_cancel_replace_request(begin_string, sender, target, seq_num, sending_time, orig_cl_ord_id, cl_ord_id, symbol, side, qty, ord_type, price).len() + rest.len() <= usize::MAX,
    ensures
        parsed_message(spec_order_cancel_replace_request(begin_string, sender, target, seq_num, sending_time, orig_cl_ord_id, cl_ord_id, symbol, side, qty, ord_type, price) + rest) == Some(
            (
                written_fields(begin_string, seq![71u8], order_cancel_replace_request_read_fields(sender, target, seq_num, sending_time, orig_cl_ord_id, cl_ord_id, symbol, side, qty, ord_type, price)),
                spec_order_cancel_replace_request(begin_string, sender, target, seq_num, sending_time, orig_cl_ord_id, cl_ord_id, symbol, side, qty, ord_type, price).len(),
            ),
        ),
{
    let a0 = header_fields(sender, target, seq_num, sending_time);
    lemma_header_fields_bytes(sender, target, seq_num, sending_time);
    lemma_header_values(sender, target, seq_num, sending_time);
    lemma_one_value(41u32, orig_cl_ord_id);
    lemma_fields_bytes_concat(a0, seq![(41u32, orig_cl_ord_id)]);
    lemma_values_concat(a0, seq![(41u32, orig_cl_ord_id)]);
    let a1 = a0 + seq![(41u32, orig_cl_ord_id)];
    lemma_one_value(11u32, cl_ord_id);
    lemma_fields_bytes_concat(a1, seq![(11u32, cl_ord_id)]);
    lemma_values_concat(a1, seq![(11u32, cl_ord_id)]);
    let a2 = a1 + seq![(11u32, cl_ord_id)];
    lemma_one_value(55u32, symbol);
    lemma_fields_bytes_concat(a2, seq![(55u32, symbol)]);
    lemma_values_concat(a2, seq![(55u32, symbol)]);
    let a3 = a2 + seq![(55u32, symbol)];
    lemma_byte_no_soh(side);
    lemma_one_value(54u32, seq![side]);
    lemma_fields_bytes_concat(a3, seq![(54u32, seq![side])]);
    lemma_values_concat(a3, seq![(54u32, seq![side])]);
    let a4 = a3 + seq![(54u32, seq![side])];
    lemma_i64_digits_no_soh(qty);
    lemma_one_value(38u32, i64_digits(qty));
    lemma_fields_bytes_concat(a4, seq![(38u32, i64_digits(qty))]);
    lemma_values_concat(a4, seq![(38u32, i64_digits(qty))]);
    let a5 = a4 + seq![(38u32, i64_digits(qty))];
    lemma_byte_no_soh(ord_type);
    lemma_one_value(40u32, seq![ord_type]);
    lemma_fields_bytes_concat(a5, seq![(40u32, seq![ord_type])]);
    lemma_values_concat(a5, seq![(40u32, seq![ord_type])]);
    let a6 = a5 + seq![(40u32, seq![ord_type])];
    lemma_one_value(44u32, price);
    lemma_fields_bytes_concat(a6, seq![(44u32, price)]);
    lemma_values_concat(a6, seq![(44u32, price)]);
    let a7 = a6 + seq![(44u32, price)];
    lemma_one_value(60u32, sending_time);
    lemma_fields_bytes_concat(a7, seq![(60u32, sending_time)]);
    lemma_values_concat(a7, seq![(60u32, sending_time)]);
    let a8 = a7 + seq![(60u32, sending_time)];
    assert(fields_bytes(a8) =~= order_cancel_replace_request_body(sender, target, seq_num, sending_time, orig_cl_ord_id, cl_ord_id, symbol, side, qty, ord_type, price));
    assert(a8 =~= order_cancel_replace_request_read_fields(sender, target, seq_num, sending_time, orig_cl_ord_id, cl_ord_id, symbol, side, qty, ord_type, price));
    lemma_parse_serialized(begin_string, seq![71u8], a8, rest);
}

/// The fields of the OrderStatusRequest (35=H) message as the parser reads them: the
/// standard header, then each argument under its own tag.
pub open spec fn order_status_request_read_fields(sender: Seq<u8>, target: Seq<u8>, seq_num: u64, sending_time: Seq<u8>, cl_ord_id: Seq<u8>, symbol: Seq<u8>, side: u8) -> Seq<(u32, Seq<u8>)> {
    header_fields(sender, target, seq_num, sending_time)
        + seq![(11u32, cl_ord_id)]
        + seq![(55u32, symbol)]
        + seq![(54u32, seq![side])]
}

/// A OrderStatusRequest (35=H) message the serializer writes, followed by any bytes, reads back
/// as its BeginString, BodyLength and MsgType, then each argument under its
/// own tag, then the CheckSum.
pub proof fn lemma_order_status_request_reads_back(begin_string: Seq<u8>, sender: Seq<u8>, target: Seq<u8>, seq_num: u64, sending_time: Seq<u8>, cl_ord_id: Seq<u8>, symbol: Seq<u8>, side: u8, rest: Seq<u8>)
    requires
        no_soh(begin_string),
        no_soh(sender),
        no_soh(target),
        no_soh(sending_time),
        no_soh(cl_ord_id),
        no_soh(symbol),
        side != SOH,
        (field_bytes(35, seq![72u8]) + order_status_request_body(sender, target, seq_num, sending_time, cl_ord_id, symbol, side)).len() < 1_000_000,
        spec_order_status_request(begin_string, sender, target, seq_num, sending_time, cl_ord_id, symbol, side).len() + rest.len() <= usize::MAX,
    ensures
        parsed_message(spec_order_status_request(begin_string, sender, target, seq_num, sending_time, cl_ord_id, symbol, side) + rest) == Some(
            (
                written_fields(begin_string, seq![72u8], order_status_request_read_fields(sender, target, seq_num, sending_time, cl_ord_id, symbol, side)),
                spec_order_status_request(begin_string, sender, target, seq_num, sending_time, cl_ord_id, symbol, side).len(),
            ),
        ),
{
    let a0 = header_fields(sender, target, seq_num, sending_time);
    lemma_header_fields_bytes(sender, target, seq_num, sending_time);
    lemma_header_values(sender, target, seq_num, sending_time);
    lemma_one_value(11u32, cl_ord_id);
    lemma_fields_bytes_concat(a0, seq![(11u32, cl_ord_id)]);
    lemma_values_concat(a0, seq![(11u32, cl_ord_id)]);
    let a1 = a0 + seq![(11u32, cl_ord_id)];
    lemma_one_value(55u32, symbol);
    lemma_fields_bytes_concat(a1, seq![(55u32, symbol)]);
    lemma_values_concat(a1, seq![(55u32, symbol)]);
    let a2 = a1 + seq![(55u32, symbol)];
    lemma_byte_no_soh(side);
    lemma_one_value(54u32, seq![side]);
    lemma_fields_bytes_concat(a2, seq![(54u32, seq![side])]);
    lemma_values_concat(a2, seq![(54u32, seq![side])]);
    let a3 = a2 + seq![(54u32, seq![side])];
    assert(fields_bytes(a3) =~= order_status_request_body(sender, target, seq_num, sending_time, cl_ord_id, symbol, side));
    assert(a3 =~= order_status_request_read_fields(sender, target, seq_num, sending_time, cl_ord_id, symbol, side));
    lemma_parse_serialized(begin_string, seq![72u8], a3, rest);
}

/// The fields of the ExecutionReport (35=8) with optional OrigClOrdID message as the parser reads them: the
/// standard header, then each argument under its own tag.
pub open spec fn execution_report_with_orig_cl_ord_id_read_fields(sender: Seq<u8>, target: Seq<u8>, seq_num: u64, sending_time: Seq<u8>, order_id: Seq<u8>, exec_id: Seq<u8>, cl_ord_id: Seq<u8>, orig_cl_ord_id: Option<Seq<u8>>, symbol: Seq<u8>, side: u8, ord_qty: i64, last_qty: i64, last_px: Seq<u8>, leaves_qty: i64, cum_qty: i64, avg_px: Seq<u8>, exec_type: u8, ord_status: u8) -> Seq<(u32, Seq<u8>)> {
    header_fields(sender, target, seq_num, sending_time)
        + seq![(37u32, order_id)]
        + seq![(17u32, exec_id)]
        + seq![(11u32, cl_ord_id)]
        + optional_fields(41u32, orig_cl_ord_id)
        + seq![(150u32, seq![exec_type])]
        + seq![(39u32, seq![ord_status])]
        + seq![(55u32, symbol)]
        + seq![(54u32, seq![side])]
        + seq![(38u32, i64_digits(ord_qty))]
        + seq![(32u32, i64_digits(last_qty))]
        + seq![(31u32, last_px)]
        + seq![(151u32, i64_digits(leaves_qty))]
        + seq![(14u32, i64_digits(cum_qty))]
        + seq![(6u32, avg_px)]
        + seq![(60u32, sending_time)]
}

/// A ExecutionReport (35=8) with optional OrigClOrdID message the serializer writes, followed by any bytes, reads back
/// as its BeginString, BodyLength and MsgType, then each argument under its
/// own tag, then the CheckSum.
pub proof fn lemma_execution_report_with_orig_cl_ord_id_reads_back(begin_string: Seq<u8>, sender: Seq<u8>, target: Seq<u8>, seq_num: u64, sending_time: Seq<u8>, order_id: Seq<u8>, exec_id: Seq<u8>, cl_ord_id: Seq<u8>, orig_cl_ord_id: Option<Seq<u8>>, symbol: Seq<u8>, side: u8, ord_qty: i64, last_qty: i64, last_px: Seq<u8>, leaves_qty: i64, cum_qty: i64, avg_px: Seq<u8>, exec_type: u8, ord_status: u8, rest: Seq<u8>)
    requires
        no_soh(begin_string),
        no_soh(sender),
        no_soh(target),
        no_soh(sending_time),
        no_soh(order_id),
        no_soh(exec_id),
        no_soh(cl_ord_id),
        orig_cl_ord_id matches Some(v) ==> no_soh(v),
        no_soh(symbol),
        side != SOH,
        no_soh(last_px),
        no_soh(avg_px),
        exec_type != SOH,
        ord_status != SOH,
        (field_bytes(35, seq![56u8]) + execution_report_with_orig_cl_ord_id_body(sender, target, seq_num, sending_time, order_id, exec_id, cl_ord_id, orig_cl_ord_id, symbol, side, ord_qty, last_qty, last_px, leaves_qty, cum_qty, avg_px, exec_type, ord_status)).len() < 1_000_000,
        spec_execution_report_with_orig_cl_ord_id(begin_string, sender, target, seq_num, sending_time, order_id, exec_id, cl_ord_id, orig_cl_ord_id, symbol, side, ord_qty, last_qty, last_px, leaves_qty, cum_qty, avg_px, exec_type, ord_status).len() + rest.len() <= usize::MAX,
    ensures
        parsed_message(spec_execution_report_with_orig_cl_ord_id(begin_string, sender, target, seq_num, sending_time, order_id, exec_id, cl_ord_id, orig_cl_ord_id, symbol, side, ord_qty, last_qty, last_px, leaves_qty, cum_qty, avg_px, exec_type, ord_status) + rest) == Some(
            (
                written_fields(begin_string, seq![56u8], execution_report_with_orig_cl_ord_id_read_fields(sender, target, seq_num, sending_time, order_id, exec_id, cl_ord_id, orig_cl_ord_id, symbol, side, ord_qty, last_qty, last_px, leaves_qty, cum_qty, avg_px, exec_type, ord_status)),
                spec_execution_report_with_orig_cl_ord_id(begin_string, sender, target, seq_num, sending_time, order_id, exec_id, cl_ord_id, orig_cl_ord_id, symbol, side, ord_qty, last_qty, last_px, leaves_qty, cum_qty, avg_px, exec_type, ord_status).len(),
            ),
        ),
{
    let a0 = header_fields(sender, target, seq_num, sending_time);
    lemma_header_fields_bytes(sender, target, seq_num, sending_time);
    lemma_header_values(sender, target, seq_num, sending_time);
    lemma_one_value(37u32, order_id);
    lemma_fields_bytes_concat(a0, seq![(37u32, order_id)]);
    lemma_values_concat(a0, seq![(37u32, order_id)]);
    let a1 = a0 + seq![(37u32, order_id)];
    lemma_one_value(17u32, exec_id);
    lemma_fields_bytes_concat(a1, seq![(17u32, exec_id)]);
    lemma_values_concat(a1, seq![(17u32, exec_id)]);
    let a2 = a1 + seq![(17u32, exec_id)];
    lemma_one_value(11u32, cl_ord_id);
    lemma_fields_bytes_concat(a2, seq![(11u32, cl_ord_id)]);
    lemma_values_concat(a2, seq![(11u32, cl_ord_id)]);
    let a3 = a2 + seq![(11u32, cl_ord_id)];
    lemma_optional_value(41u32, orig_cl_ord_id);
    lemma_fields_bytes_concat(a3, optional_fields(41u32, orig_cl_ord_id));
    lemma_values_concat(a3, optional_fields(41u32, orig_cl_ord_id));
    let a4 = a3 + optional_fields(41u32, orig_cl_ord_id);
    lemma_byte_no_soh(exec_type);
    lemma_one_value(150u32, seq![exec_type]);
    lemma_fields_bytes_concat(a4, seq![(150u32, seq![exec_type])]);
    lemma_values_concat(a4, seq![(150u32, seq![exec_type])]);
    let a5 = a4 + seq![(150u32, seq![exec_type])];
    lemma_byte_no_soh(ord_status);
    lemma_one_value(39u32, seq![ord_status]);
    lemma_fields_bytes_concat(a5, seq![(39u32, seq![ord_status])]);
    lemma_values_concat(a5, seq![(39u32, seq![ord_status])]);
    let a6 = a5 + seq![(39u32, seq![ord_status])];
    lemma_one_value(55u32, symbol);
    lemma_fields_bytes_concat(a6, seq![(55u32, symbol)]);
    lemma_values_concat(a6, seq![(55u32, symbol)]);
    let a7 = a6 + seq![(55u32, symbol)];
    lemma_byte_no_soh(side);
    lemma_one_value(54u32, seq![side]);
    lemma_fields_bytes_concat(a7, seq![(54u32, seq![side])]);
    lemma_values_concat(a7, seq![(54u32, seq![side])]);
    let a8 = a7 + seq![(54u32, seq![side])];
    lemma_i64_digits_no_soh(ord_qty);
    lemma_one_value(38u32, i64_digits(ord_qty));
    lemma_fields_bytes_concat(a8, seq![(38u32, i64_digits(ord_qty))]);
    lemma_values_concat(a8, seq![(38u32, i64_digits(ord_qty))]);
    let a9 = a8 + seq![(38u32, i64_digits(ord_qty))];
    lemma_i64_digits_no_soh(last_qty);
    lemma_one_value(32u32, i64_digits(last_qty));
    lemma_fields_bytes_concat(a9, seq![(32u32, i64_digits(last_qty))]);
    lemma_values_concat(a9, seq![(32u32, i64_digits(last_qty))]);
    let a10 = a9 + seq![(32u32, i64_digits(last_qty))];
    lemma_one_value(31u32, last_px);
    lemma_fields_bytes_concat(a10, seq![(31u32, last_px)]);
    lemma_values_concat(a10, seq![(31u32, last_px)]);
    let a11 = a10 + seq![(31u32, last_px)];
    lemma_i64_digits_no_soh(leaves_qty);
    lemma_one_value(151u32, i64_digits(leaves_qty));
    lemma_fields_bytes_concat(a11, seq![(151u32, i64_digits(leaves_qty))]);
    lemma_values_concat(a11, seq![(151u32, i64_digits(leaves_qty))]);
    let a12 = a11 + seq![(151u32, i64_digits(leaves_qty))];
    lemma_i64_digits_no_soh(cum_qty);
    lemma_one_value(14u32, i64_digits(cum_qty));
    lemma_fields_bytes_concat(a12, seq![(14u32, i64_digits(cum_qty))]);
    lemma_values_concat(a12, seq![(14u32, i64_digits(cum_qty))]);
    let a13 = a12 + seq![(14u32, i64_digits(cum_qty))];
    lemma_one_value(6u32, avg_px);
    lemma_fields_bytes_concat(a13, seq![(6u32, avg_px)]);
    lemma_values_concat(a13, seq![(6u32, avg_px)]);
    let a14 = a13 + seq![(6u32, avg_px)];
    lemma_one_value(60u32, sending_time);
    lemma_fields_bytes_concat(a14, seq![(60u32, sending_time)]);
    lemma_values_concat(a14, seq![(60u32, sending_time)]);
    let a15 = a14 + seq![(60u32, sending_time)];
    assert(fields_bytes(a15) =~= execution_report_with_orig_cl_ord_id_body(sender, target, seq_num, sending_time, order_id, exec_id, cl_ord_id, orig_cl_ord_id, symbol, side, ord_qty, last_qty, last_px, leaves_qty, cum_qty, avg_px, exec_type, ord_status));
    assert(a15 =~= execution_report_with_orig_cl_ord_id_read_fields(sender, target, seq_num, sending_time, order_id, exec_id, cl_ord_id, orig_cl_ord_id, symbol, side, ord_qty, last_qty, last_px, leaves_qty, cum_qty, avg_px, exec_type, ord_status));
    lemma_parse_serialized(begin_string, seq![56u8], a15, rest);
}

/// The fields of the OrderCancelReject (35=9) message as the parser reads them: the
/// standard header, then each argument under its own tag.
pub open spec fn order_cancel_reject_read_fields(sender: Seq<u8>, target: Seq<u8>, seq_num: u64, sending_time: Seq<u8>, order_id: Seq<u8>, cl_ord_id: Seq<u8>, orig_cl_ord_id: Seq<u8>, ord_status: u8, cxl_rej_response_to: u8, cxl_rej_reason: Option<i64>, text: Option<Seq<u8>>) -> Seq<(u32, Seq<u8>)> {
    header_fields(sender, target, seq_num, sending_time)
        + seq![(37u32, order_id)]
        + seq![(11u32, cl_ord_id)]
        + seq![(41u32, orig_cl_ord_id)]
        + seq![(39u32, seq![ord_status])]
        + seq![(434u32, seq![cxl_rej_response_to])]
        + optional_i64_fields(102u32, cxl_rej_reason)
        + optional_fields(58u32, text)
}

/// A OrderCancelReject (35=9) message the serializer writes, followed by any bytes, reads back
/// as its BeginString, BodyLength and MsgType, then each argument under its
/// own tag, then the CheckSum.
pub proof fn lemma_order_cancel_reject_reads_back(begin_string: Seq<u8>, sender: Seq<u8>, target: Seq<u8>, seq_num: u64, sending_time: Seq<u8>, order_id: Seq<u8>, cl_ord_id: Seq<u8>, orig_cl_ord_id: Seq<u8>, ord_status: u8, cxl_rej_response_to: u8, cxl_rej_reason: Option<i64>, text: Option<Seq<u8>>, rest: Seq<u8>)
    requires
        no_soh(begin_string),
        no_soh(sender),
        no_soh(target),
        no_soh(sending_time),
        no_soh(order_id),
        no_soh(cl_ord_id),
        no_soh(orig_cl_ord_id),
        ord_status != SOH,
        cxl_rej_response_to != SOH,
        text matches Some(v) ==> no_soh(v),
        (field_bytes(35, seq![57u8]) + order_cancel_reject_body(sender, target, seq_num, sending_time, order_id, cl_ord_id, orig_cl_ord_id, ord_status, cxl_rej_response_to, cxl_rej_reason, text)).len() < 1_000_000,
        spec_order_cancel_reject(begin_string, sender, target, seq_num, sending_time, order_id, cl_ord_id, orig_cl_ord_id, ord_status, cxl_rej_response_to, cxl_rej_reason, text).len() + rest.len() <= usize::MAX,
    ensures
        parsed_message(spec_order_cancel_reject(begin_string, sender, target, seq_num, sending_time, order_id, cl_ord_id, orig_cl_ord_id, ord_status, cxl_rej_response_to, cxl_rej_reason, text) + rest) == Some(
            (
                written_fields(begin_string, seq![57u8], order_cancel_reject_read_fields(sender, target, seq_num, sending_time, order_id, cl_ord_id, orig_cl_ord_id, ord_status, cxl_rej_response_to, cxl_rej_reason, text)),
                spec_order_cancel_reject(begin_string, sender, target, seq_num, sending_time, order_id, cl_ord_id, orig_cl_ord_id, ord_status, cxl_rej_response_to, cxl_rej_reason, text).len(),
            ),
        ),
{
    let a0 = header_fields(sender, target, seq_num, sending_time);
    lemma_header_fields_bytes(sender, target, seq_num, sending_time);
    lemma_header_values(sender, target, seq_num, sending_time);
    lemma_one_value(37u32, order_id);
    lemma_fields_bytes_concat(a0, seq![(37u32, order_id)]);
    lemma_values_concat(a0, seq![(37u32, order_id)]);
    let a1 = a0 + seq![(37u32, order_id)];
    lemma_one_value(11u32, cl_ord_id);
    lemma_fields_bytes_concat(a1, seq![(11u32, cl_ord_id)]);
    lemma_values_concat(a1, seq![(11u32, cl_ord_id)]);
    let a2 = a1 + seq![(11u32, cl_ord_id)];
    lemma_one_value(41u32, orig_cl_ord_id);
    lemma_fields_bytes_concat(a2, seq![(41u32, orig_cl_ord_id)]);
    lemma_values_concat(a2, seq![(41u32, orig_cl_ord_id)]);
    let a3 = a2 + seq![(41u32, orig_cl_ord_id)];
    lemma_byte_no_soh(ord_status);
    lemma_one_value(39u32, seq![ord_status]);
    lemma_fields_bytes_concat(a3, seq![(39u32, seq![ord_status])]);
    lemma_values_concat(a3, seq![(39u32, seq![ord_status])]);
    let a4 = a3 + seq![(39u32, seq![ord_status])];
    lemma_byte_no_soh(cxl_rej_response_to);
    lemma_one_value(434u32, seq![cxl_rej_response_to]);
    lemma_fields_bytes_concat(a4, seq![(434u32, seq![cxl_rej_response_to])]);
    lemma_values_concat(a4, seq![(434u32, seq![cxl_rej_response_to])]);
    let a5 = a4 + seq![(434u32, seq![cxl_rej_response_to])];
    lemma_optional_i64_value(102u32, cxl_rej_reason);
    lemma_fields_bytes_concat(a5, optional_i64_fields(102u32, cxl_rej_reason));
    lemma_values_concat(a5, optional_i64_fields(102u32, cxl_rej_reason));
    let a6 = a5 + optional_i64_fields(102u32, cxl_rej_reason);
    lemma_optional_value(58u32, text);
    lemma_fields_bytes_concat(a6, optional_fields(58u32, text));
    lemma_values_concat(a6, optional_fields(58u32, text));
    let a7 = a6 + optional_fields(58u32, text);
    assert(fields_bytes(a7) =~= order_cancel_reject_body(sender, target, seq_num, sending_time, order_id, cl_ord_id, orig_cl_ord_id, ord_status, cxl_rej_response_to, cxl_rej_reason, text));
    assert(a7 =~= order_cancel_reject_read_fields(sender, target, seq_num, sending_time, order_id, cl_ord_id, orig_cl_ord_id, ord_status, cxl_rej_response_to, cxl_rej_reason, text));
    lemma_parse_serialized(begin_string, seq![57u8], a7, rest);
}

/// The first field tagged `tag` is the one at `i` when no field before it
/// has that tag.
pub proof fn lemma_first_value_at(fields: Seq<(u32, Seq<u8>)>, i: int, tag: u32)
    requires
        0 <= i < fields.len(),
        fields[i].0 == tag,
        forall|j: int| 0 <= j < i ==> #[trigger] fields[j].0 != tag,
    ensures
        first_value(fields, tag) == Some(fields[i].1),
    decreases i,
{
    if i > 0 {
        let rest = fields.drop_first();
        assert forall|j: int| 0 <= j < i - 1 implies #[trigger] rest[j].0 != tag by {
            assert(rest[j] == fields[j + 1]);
        }
        lemma_first_value_at(rest, i - 1, tag);
    }
}

/// The decimal text of a signed number reads back as that number.
pub proof fn lemma_parse_i64_digits(v: i64)
    ensures
        spec_parse_i64(i64_digits(v)) == Some(v),
{
    if v < 0 {
        let mag = (-v) as nat;
        lemma_dec_digits_value(mag);
        let s = i64_digits(v);
        assert(s.skip(1) =~= dec_digits(mag));
    } else {
        lemma_dec_digits_value(v as nat);
        let s = i64_digits(v);
        assert(all_digits(s));
        assert(48 <= s[0] <= 57);
    }
}

/// A message read back is BeginString, BodyLength and MsgType, the fields
/// written, then CheckSum.
proof fn lemma_written_fields_shape(begin_string: Seq<u8>, msg_type: Seq<u8>, fields: Seq<(u32, Seq<u8>)>)
    ensures
        ({
            let w = written_fields(begin_string, msg_type, fields);
            w == seq![(8u32, begin_string), (9u32, w[1].1), (35u32, msg_type)] + fields + seq![
                (10u32, w[w.len() - 1].1),
            ]
        }),
{
    let w = written_fields(begin_string, msg_type, fields);
    assert(w =~= seq![(8u32, begin_string), (9u32, w[1].1), (35u32, msg_type)] + fields + seq![
        (10u32, w[w.len() - 1].1),
    ]);
}

/// The fields of an ExecutionReport read back, as one list: BeginString,
/// BodyLength `body_length`, MsgType, the fields read, CheckSum `check_sum`.
proof fn lemma_execution_report_list_by_tag(
    begin_string: Seq<u8>,
    body_length: Seq<u8>,
    check_sum: Seq<u8>,
    sender: Seq<u8>,
    target: Seq<u8>,
    seq_num: u64,
    sending_time: Seq<u8>,
    order_id: Seq<u8>,
    exec_id: Seq<u8>,
    cl_ord_id: Seq<u8>,
    orig_cl_ord_id: Option<Seq<u8>>,
    symbol: Seq<u8>,
    side: u8,
    ord_qty: i64,
    last_qty: i64,
    last_px: Seq<u8>,
    leaves_qty: i64,
    cum_qty: i64,
    avg_px: Seq<u8>,
    exec_type: u8,
    ord_status: u8,
)
    ensures
        ({
            let f = seq![(8u32, begin_string), (9u32, body_length), (35u32, seq![56u8])]
                + execution_report_with_orig_cl_ord_id_read_fields(sender, target, seq_num, sending_time, order_id, exec_id, cl_ord_id, orig_cl_ord_id, symbol, side, ord_qty, last_qty, last_px, leaves_qty, cum_qty, avg_px, exec_type, ord_status) + seq![(10u32, check_sum)];
            &&& first_i64(f, 38) == Some(ord_qty)
            &&& first_i64(f, 32) == Some(last_qty)
            &&& first_i64(f, 151) == Some(leaves_qty)
            &&& first_i64(f, 14) == Some(cum_qty)
            &&& first_value(f, 31) == Some(last_px)
            &&& first_value(f, 6) == Some(avg_px)
            &&& first_value(f, 150) == Some(seq![exec_type])
            &&& first_value(f, 39) == Some(seq![ord_status])
            &&& first_value(f, 54) == Some(seq![side])
            &&& first_value(f, 37) == Some(order_id)
            &&& first_value(f, 17) == Some(exec_id)
            &&& first_value(f, 11) == Some(cl_ord_id)
            &&& first_value(f, 55) == Some(symbol)
        }),
{
    let f = seq![(8u32, begin_string), (9u32, body_length), (35u32, seq![56u8])]
        + execution_report_with_orig_cl_ord_id_read_fields(sender, target, seq_num, sending_time, order_id, exec_id, cl_ord_id, orig_cl_ord_id, symbol, side, ord_qty, last_qty, last_px, leaves_qty, cum_qty, avg_px, exec_type, ord_status) + seq![(10u32, check_sum)];
    let k: int = if orig_cl_ord_id is Some { 1 } else { 0 };
    assert(f[3] == (49u32, sender));
    assert(f[4] == (56u32, target));
    assert(f[5].0 == 34u32);
    assert(f[6] == (52u32, sending_time));
    assert(f[7] == (37u32, order_id));
    assert(f[8] == (17u32, exec_id));
    assert(f[9] == (11u32, cl_ord_id));
    assert(orig_cl_ord_id is Some ==> f[10].0 == 41u32);
    assert(f[10 + k] == (150u32, seq![exec_type]));
    assert(f[11 + k] == (39u32, seq![ord_status]));
    assert(f[12 + k] == (55u32, symbol));
    assert(f[13 + k] == (54u32, seq![side]));
    assert(f[14 + k] == (38u32, i64_digits(ord_qty)));
    assert(f[15 + k] == (32u32, i64_digits(last_qty)));
    assert(f[16 + k] == (31u32, last_px));
    assert(f[17 + k] == (151u32, i64_digits(leaves_qty)));
    assert(f[18 + k] == (14u32, i64_digits(cum_qty)));
    assert(f[19 + k] == (6u32, avg_px));
    assert(forall|j: int| 0 <= j < 3 ==> #[trigger] f[j].0 == 8u32 || f[j].0 == 9u32 || f[j].0 == 35u32);
    lemma_first_value_at(f, 7, 37);
    lemma_first_value_at(f, 8, 17);
    lemma_first_value_at(f, 9, 11);
    lemma_first_value_at(f, 10 + k, 150);
    lemma_first_value_at(f, 11 + k, 39);
    lemma_first_value_at(f, 12 + k, 55);
    lemma_first_value_at(f, 13 + k, 54);
    lemma_first_value_at(f, 14 + k, 38);
    lemma_first_value_at(f, 15 + k, 32);
    lemma_first_value_at(f, 16 + k, 31);
    lemma_first_value_at(f, 17 + k, 151);
    lemma_first_value_at(f, 18 + k, 14);
    lemma_first_value_at(f, 19 + k, 6);
    lemma_parse_i64_digits(ord_qty);
    lemma_parse_i64_digits(last_qty);
    lemma_parse_i64_digits(leaves_qty);
    lemma_parse_i64_digits(cum_qty);
}

/// An ExecutionReport the serializer writes reads back with each quantity,
/// price, id and code under its own tag: OrderQty (38), LastQty (32),
/// LeavesQty (151) and CumQty (14) as the numbers given, LastPx (31) and
/// AvgPx (6) as the prices given, ExecType (150), OrdStatus (39), Side (54),
/// OrderID (37), ExecID (17), ClOrdID (11) and Symbol (55) as given.
#[verifier::spinoff_prover]
pub proof fn lemma_execution_report_fields_by_tag(
    begin_string: Seq<u8>,
    sender: Seq<u8>,
    target: Seq<u8>,
    seq_num: u64,
    sending_time: Seq<u8>,
    order_id: Seq<u8>,
    exec_id: Seq<u8>,
    cl_ord_id: Seq<u8>,
    orig_cl_ord_id: Option<Seq<u8>>,
    symbol: Seq<u8>,
    side: u8,
    ord_qty: i64,
    last_qty: i64,
    last_px: Seq<u8>,
    leaves_qty: i64,
    cum_qty: i64,
    avg_px: Seq<u8>,
    exec_type: u8,
    ord_status: u8,
    rest: Seq<u8>,
)
    requires
        no_soh(begin_string),
        no_soh(sender),
        no_soh(target),
        no_soh(sending_time),
        no_soh(order_id),
        no_soh(exec_id),
        no_soh(cl_ord_id),
        orig_cl_ord_id matches Some(v) ==> no_soh(v),
        no_soh(symbol),
        side != SOH,
        no_soh(last_px),
        no_soh(avg_px),
        exec_type != SOH,
        ord_status != SOH,
        (field_bytes(35, seq![56u8]) + execution_report_with_orig_cl_ord_id_body(sender, target, seq_num, sending_time, order_id, exec_id, cl_ord_id, orig_cl_ord_id, symbol, side, ord_qty, last_qty, last_px, leaves_qty, cum_qty, avg_px, exec_type, ord_status)).len() < 1_000_000,
        spec_execution_report_with_orig_cl_ord_id(begin_string, sender, target, seq_num, sending_time, order_id, exec_id, cl_ord_id, orig_cl_ord_id, symbol, side, ord_qty, last_qty, last_px, leaves_qty, cum_qty, avg_px, exec_type, ord_status).len() + rest.len() <= usize::MAX,
    ensures
        parsed_message(spec_execution_report_with_orig_cl_ord_id(begin_string, sender, target, seq_num, sending_time, order_id, exec_id, cl_ord_id, orig_cl_ord_id, symbol, side, ord_qty, last_qty, last_px, leaves_qty, cum_qty, avg_px, exec_type, ord_status) + rest) matches Some((f, _)) && {
            &&& first_i64(f, 38) == Some(ord_qty)
            &&& first_i64(f, 32) == Some(last_qty)
            &&& first_i64(f, 151) == Some(leaves_qty)
            &&& first_i64(f, 14) == Some(cum_qty)
            &&& first_value(f, 31) == Some(last_px)
            &&& first_value(f, 6) == Some(avg_px)
            &&& first_value(f, 150) == Some(seq![exec_type])
            &&& first_value(f, 39) == Some(seq![ord_status])
            &&& first_value(f, 54) == Some(seq![side])
            &&& first_value(f, 37) == Some(order_id)
            &&& first_value(f, 17) == Some(exec_id)
            &&& first_value(f, 11) == Some(cl_ord_id)
            &&& first_value(f, 55) == Some(symbol)
        },
{
    lemma_execution_report_with_orig_cl_ord_id_reads_back(begin_string, sender, target, seq_num, sending_time, order_id, exec_id, cl_ord_id, orig_cl_ord_id, symbol, side, ord_qty, last_qty, last_px, leaves_qty, cum_qty, avg_px, exec_type, ord_status, rest);
    let rf = execution_report_with_orig_cl_ord_id_read_fields(sender, target, seq_num, sending_time, order_id, exec_id, cl_ord_id, orig_cl_ord_id, symbol, side, ord_qty, last_qty, last_px, leaves_qty, cum_qty, avg_px, exec_type, ord_status);
    let w = written_fields(begin_string, seq![56u8], rf);
    lemma_written_fields_shape(begin_string, seq![56u8], rf);
    lemma_execution_report_list_by_tag(begin_string, w[1].1, w[w.len() - 1].1, sender, target, seq_num, sending_time, order_id, exec_id, cl_ord_id, orig_cl_ord_id, symbol, side, ord_qty, last_qty, last_px, leaves_qty, cum_qty, avg_px, exec_type, ord_status);
}

} // verus!
