use velocitas_fix::message::{parse_i64, parse_u64};
use velocitas_fix::parser::FixParser;
use velocitas_fix::serializer::fix_message;
use velocitas_fix::tags;

#[test]
fn unsigned_numbers() {
    assert_eq!(parse_u64(b"0"), Some(0));
    assert_eq!(parse_u64(b"000123"), Some(123));
    assert_eq!(parse_u64(b"18446744073709551615"), Some(u64::MAX));
    assert_eq!(parse_u64(b"18446744073709551616"), None);
    assert_eq!(parse_u64(b""), None);
    assert_eq!(parse_u64(b"12a"), None);
    assert_eq!(parse_u64(b"-1"), None);
}

#[test]
fn signed_numbers() {
    assert_eq!(parse_i64(b"42"), Some(42));
    assert_eq!(parse_i64(b"-42"), Some(-42));
    assert_eq!(parse_i64(b"-0"), Some(0));
    assert_eq!(parse_i64(b"9223372036854775807"), Some(i64::MAX));
    assert_eq!(parse_i64(b"9223372036854775808"), None);
    assert_eq!(parse_i64(b"-9223372036854775808"), Some(i64::MIN));
    assert_eq!(parse_i64(b"-9223372036854775809"), None);
    assert_eq!(parse_i64(b"-"), None);
    assert_eq!(parse_i64(b""), None);
    assert_eq!(parse_i64(b"+5"), None);
}

#[test]
fn fields_in_wire_order_with_first_match() {
    let body = b"49=A\x0156=B\x0158=one\x0158=two\x0155=\xff\xfe\x01";
    let msg = fix_message(b"FIX.4.4", b"D", body);
    let parser = FixParser::new();
    let (view, n) = parser.parse(&msg).unwrap();
    assert_eq!(n, msg.len());
    assert_eq!(view.as_bytes(), &msg[..]);
    // 8, 9, 35, five body fields, 10.
    assert_eq!(view.field_count(), 9);
    assert_eq!(view.field_at(0), (8, b"FIX.4.4".as_slice()));
    assert_eq!(view.field_at(2), (35, b"D".as_slice()));
    assert_eq!(view.field_at(8).0, 10);
    assert_eq!(view.get_field_str(tags::TEXT), Some("one"));
    assert_eq!(view.get_field(tags::SYMBOL), Some(b"\xff\xfe".as_slice()));
    assert_eq!(view.get_field_str(tags::SYMBOL), None);
    assert_eq!(view.get_field(tags::PRICE), None);
    assert_eq!(view.begin_string(), Some("FIX.4.4"));
    assert_eq!(view.get_field_u64(tags::BODY_LENGTH), Some((msg.len() - 26) as u64));
}

#[test]
fn values_may_hold_equals_signs() {
    let msg = fix_message(b"FIX.4.4", b"0", b"58=a=b\x01");
    let (view, _) = FixParser::new().parse(&msg).unwrap();
    assert_eq!(view.get_field_str(tags::TEXT), Some("a=b"));
}
