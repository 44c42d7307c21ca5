//! FIX tag=value parser.
//!
//! A message is BeginString (8), BodyLength (9), then exactly BodyLength
//! bytes of fields, then CheckSum (10) as three digits. Each field is a tag
//! in decimal, `=`, a value, and SOH. The parser checks the framing and the
//! checksum and hands back the fields as a `MessageView` over the bytes.
use vstd::prelude::*;

use crate::checksum::{self, spec_checksum};
use crate::message::{
    all_digits, decimal_value, parse_u64, spec_parse_u64, FieldRange, MessageView, fields_of,
    ranges_within,
};
use crate::checksum::spec_checksum_digits;
use crate::message::lemma_dec_digits_value;
use crate::serializer::{
    dec_digits, field_bytes, fields_bytes, i64_digits, i64_field, logon_body, logout_with_text_body,
    heartbeat_with_test_req_id_body, opt_field, pad6_digits, spec_fix_message, spec_logon,
    spec_logout_with_text, spec_heartbeat_with_test_req_id, standard_header_fields, u64_field,
};
use crate::tags::{EQUALS, SOH};

verus! {

/// Why bytes are not (yet) a FIX message.
#[derive(Debug, Clone, Copy, PartialEq, Eq, Structural)]
pub enum ParseError {
    /// More bytes are needed to complete the message.
    Incomplete,
    /// The first field is not BeginString (8).
    MissingBeginString,
    /// The second field is not BodyLength (9).
    MissingBodyLength,
    /// BodyLength is not a number.
    InvalidBodyLength,
    /// A field has no `=`, or its tag is not a number that fits in 32 bits.
    MalformedField,
    /// The body does not end with a complete field where BodyLength says.
    BodyLengthMismatch,
    /// The seven bytes after the body are not `10=` three digits and SOH.
    InvalidChecksumField,
    /// The CheckSum field disagrees with the bytes.
    ChecksumMismatch { declared: u32, computed: u8 },
}

/// The first index in `from..end` where `buf` holds `b`.
pub open spec fn find_byte(buf: Seq<u8>, from: int, end: int, b: u8) -> Option<int>
    decreases end - from,
{
    if from < 0 || from >= end || end > buf.len() {
        None
    } else if buf[from] == b {
        Some(from)
    } else {
        find_byte(buf, from + 1, end, b)
    }
}

/// What `find_byte` finds lies in the range searched and holds the byte.
pub proof fn lemma_find_byte_found(buf: Seq<u8>, from: int, end: int, b: u8)
    ensures
        find_byte(buf, from, end, b) matches Some(i) ==> from <= i < end && end <= buf.len()
            && buf[i] == b,
    decreases end - from,
{
    if !(from < 0 || from >= end || end > buf.len()) && buf[from] != b {
        lemma_find_byte_found(buf, from + 1, end, b);
    }
}

/// The first occurrence of `b` from `from` on is at `i`.
pub proof fn lemma_find_byte_at(buf: Seq<u8>, from: int, end: int, b: u8, i: int)
    requires
        0 <= from <= i < end <= buf.len(),
        buf[i] == b,
        forall|j: int| from <= j < i ==> buf[j] != b,
    ensures
        find_byte(buf, from, end, b) == Some(i),
    decreases i - from,
{
    if from < i {
        lemma_find_byte_at(buf, from + 1, end, b, i);
    }
}

/// Every field the body scan finds lies between `pos` and `end`.
pub proof fn lemma_scan_body_within(buf: Seq<u8>, pos: int, end: int)
    requires
        0 <= pos,
        end <= usize::MAX,
    ensures
        scan_body(buf, pos, end) matches Ok(body) ==> forall|i: int|
            #![trigger body[i]]
            0 <= i < body.len() ==> pos <= body[i].start <= body[i].end < end,
    decreases end - pos,
{
    if pos < end {
        lemma_find_byte_found(buf, pos, end, SOH);
        if let FieldScan::Field { tag, value_start, value_end } = scan_field(buf, pos, end) {
            let soh = find_byte(buf, pos, end, SOH)->Some_0;
            lemma_find_byte_found(buf, pos, soh, EQUALS);
            lemma_scan_body_within(buf, value_end + 1, end);
        }
    }
}

/// How scanning a field went.
pub ghost enum FieldScan {
    /// No SOH ends the field within the bytes looked at.
    Partial,
    /// The field has no `=` or an unreadable tag.
    Malformed,
    /// A field: its tag and where its value lies; SOH is at `value_end`.
    Field { tag: u32, value_start: int, value_end: int },
}

/// Whether `t` is a tag: one or more digits spelling a 32-bit number.
pub open spec fn tag_ok(t: Seq<u8>) -> bool {
    t.len() >= 1 && all_digits(t) && decimal_value(t) <= u32::MAX
}

/// Scanning the field at `pos`, looking no further than `end`: the field
/// runs to the first SOH, and its tag to the first `=` before that.
pub open spec fn scan_field(buf: Seq<u8>, pos: int, end: int) -> FieldScan {
    match find_byte(buf, pos, end, SOH) {
        None => FieldScan::Partial,
        Some(soh) => match find_byte(buf, pos, soh, EQUALS) {
            None => FieldScan::Malformed,
            Some(eq) => if tag_ok(buf.subrange(pos, eq)) {
                FieldScan::Field {
                    tag: decimal_value(buf.subrange(pos, eq)) as u32,
                    value_start: eq + 1,
                    value_end: soh,
                }
            } else {
                FieldScan::Malformed
            },
        },
    }
}

/// The fields from `pos` to exactly `end`.
pub open spec fn scan_body(buf: Seq<u8>, pos: int, end: int) -> Result<Seq<FieldRange>, ParseError>
    decreases end - pos,
{
    if pos >= end {
        Ok(Seq::empty())
    } else {
        match scan_field(buf, pos, end) {
            FieldScan::Partial => Err(ParseError::BodyLengthMismatch),
            FieldScan::Malformed => Err(ParseError::MalformedField),
            FieldScan::Field { tag, value_start, value_end } => {
                proof {
                    lemma_find_byte_found(buf, pos, end, SOH);
                }
                match scan_body(buf, value_end + 1, end) {
                    Ok(rest) => Ok(
                        seq![FieldRange { tag, start: value_start as usize, end: value_end as usize }] + rest,
                    ),
                    Err(e) => Err(e),
                }
            },
        }
    }
}

/// Whether `s` is a CheckSum field: `10=`, three digits, SOH.
pub open spec fn checksum_field_ok(s: Seq<u8>) -> bool {
    &&& s.len() == 7
    &&& s[0] == 49u8
    &&& s[1] == 48u8
    &&& s[2] == EQUALS
    &&& all_digits(s.subrange(3, 6))
    &&& s[6] == SOH
}

/// What parsing the front of `buf` gives: the fields of the message there
/// and its length, or why there is none (yet).
pub open spec fn spec_parse(buf: Seq<u8>) -> Result<(Seq<FieldRange>, nat), ParseError> {
    let len = buf.len() as int;
    match scan_field(buf, 0, len) {
        FieldScan::Partial => Err(ParseError::Incomplete),
        FieldScan::Malformed => Err(ParseError::MalformedField),
        FieldScan::Field { tag: t8, value_start: s8, value_end: e8 } => if t8 != 8 {
            Err(ParseError::MissingBeginString)
        } else {
            match scan_field(buf, e8 + 1, len) {
                FieldScan::Partial => Err(ParseError::Incomplete),
                FieldScan::Malformed => Err(ParseError::MalformedField),
                FieldScan::Field { tag: t9, value_start: s9, value_end: e9 } => if t9 != 9 {
                    Err(ParseError::MissingBodyLength)
                } else {
                    match spec_parse_u64(buf.subrange(s9, e9)) {
                        None => Err(ParseError::InvalidBodyLength),
                        Some(body_len) => {
                            let body_start = e9 + 1;
                            let body_end = body_start + body_len;
                            if body_end + 7 > len {
                                Err(ParseError::Incomplete)
                            } else if !checksum_field_ok(buf.subrange(body_end, body_end + 7)) {
                                Err(ParseError::InvalidChecksumField)
                            } else {
                                let declared = decimal_value(
                                    buf.subrange(body_end + 3, body_end + 6),
                                );
                                let computed = spec_checksum(buf.take(body_end));
                                if declared != computed {
                                    Err(
                                        ParseError::ChecksumMismatch {
                                            declared: declared as u32,
                                            computed,
                                        },
                                    )
                                } else {
                                    match scan_body(buf, body_start, body_end) {
                                        Err(e) => Err(e),
                                        Ok(body) => Ok(
                                            (
                                                seq![
                                                    FieldRange {
                                                        tag: 8,
                                                        start: s8 as usize,
                                                        end: e8 as usize,
                                                    },
                                                    FieldRange {
                                                        tag: 9,
                                                        start: s9 as usize,
                                                        end: e9 as usize,
                                                    },
                                                ] + body + seq![
                                                    FieldRange {
                                                        tag: 10,
                                                        start: (body_end + 3) as usize,
                                                        end: (body_end + 6) as usize,
                                                    },
                                                ],
                                                (body_end + 7) as nat,
                                            ),
                                        ),
                                    }
                                }
                            }
                        },
                    }
                },
            }
        },
    }
}

/// The first index in `from..end` where `buf` holds `b`.
fn find_byte_in(buf: &[u8], from: usize, end: usize, b: u8) -> (r: Option<usize>)
    requires
        from <= end <= buf@.len(),
    ensures
        match r {
            Some(i) => find_byte(buf@, from as int, end as int, b) == Some(i as int),
            None => find_byte(buf@, from as int, end as int, b) is None,
        },
{
    let mut i = from;
    while i < end
        invariant
            from <= i <= end <= buf@.len(),
            find_byte(buf@, from as int, end as int, b) == find_byte(buf@, i as int, end as int, b),
        decreases end - i,
    {
        if buf[i] == b {
            return Some(i);
        }
        i = i + 1;
    }
    None
}

/// A scanned field, as the executable scanner reports it.
enum Scanned {
    Partial,
    Malformed,
    Field { tag: u32, value_start: usize, value_end: usize },
}

/// `s` reports the scan `m`.
spec fn reports(s: Scanned, m: FieldScan) -> bool {
    match s {
        Scanned::Partial => m is Partial,
        Scanned::Malformed => m is Malformed,
        Scanned::Field { tag, value_start, value_end } => m == (FieldScan::Field {
            tag,
            value_start: value_start as int,
            value_end: value_end as int,
        }),
    }
}

/// Scans the field at `pos`, looking no further than `end`.
fn scan_field_in(buf: &[u8], pos: usize, end: usize) -> (r: Scanned)
    requires
        pos <= end <= buf@.len(),
    ensures
        reports(r, scan_field(buf@, pos as int, end as int)),
        r matches Scanned::Field { value_start, value_end, .. } ==> pos < value_start <= value_end
            < end,
{
    match find_byte_in(buf, pos, end, SOH) {
        None => Scanned::Partial,
        Some(soh) => {
            proof {
                lemma_find_byte_found(buf@, pos as int, end as int, SOH);
            }
            match find_byte_in(buf, pos, soh, EQUALS) {
                None => Scanned::Malformed,
                Some(eq) => {
                    proof {
                        lemma_find_byte_found(buf@, pos as int, soh as int, EQUALS);
                    }
                    let tag_bytes = vstd::slice::slice_subrange(buf, pos, eq);
                    match parse_u64(tag_bytes) {
                        Some(t) => {
                            if t <= 0xffff_ffffu64 {
                                Scanned::Field { tag: t as u32, value_start: eq + 1, value_end: soh }
                            } else {
                                Scanned::Malformed
                            }
                        },
                        None => Scanned::Malformed,
                    }
                },
            }
        },
    }
}

/// Scans the fields from `pos` to exactly `end`, appending their ranges to
/// `out`.
fn scan_body_in(buf: &[u8], pos: usize, end: usize, out: &mut Vec<FieldRange>) -> (r: Result<
    (),
    ParseError,
>)
    requires
        pos <= end <= buf@.len(),
    ensures
        match scan_body(buf@, pos as int, end as int) {
            Ok(body) => r is Ok && final(out)@ == old(out)@ + body,
            Err(e) => r == Err::<(), ParseError>(e),
        },
{
    let ghost start = out@;
    let mut p = pos;
    while p < end
        invariant
            pos <= p <= end <= buf@.len(),
            match scan_body(buf@, pos as int, end as int) {
                Ok(body) => match scan_body(buf@, p as int, end as int) {
                    Ok(rest) => body == (out@.skip(start.len() as int)) + rest && out@.take(start.len() as int) == start && out@.len() >= start.len(),
                    Err(_) => false,
                },
                Err(e) => scan_body(buf@, p as int, end as int) == Err::<Seq<FieldRange>, ParseError>(e),
            },
        decreases end - p,
    {
        match scan_field_in(buf, p, end) {
            Scanned::Partial => {
                return Err(ParseError::BodyLengthMismatch);
            },
            Scanned::Malformed => {
                return Err(ParseError::MalformedField);
            },
            Scanned::Field { tag, value_start, value_end } => {
                let ghost before = out@;
                out.push(FieldRange { tag, start: value_start, end: value_end });
                proof {
                    if scan_body(buf@, pos as int, end as int) is Ok {
                        assert(out@.skip(start.len() as int) =~= before.skip(start.len() as int).push(FieldRange { tag, start: value_start, end: value_end }));
                        assert(out@.take(start.len() as int) =~= before.take(start.len() as int));
                    }
                }
                p = value_end + 1;
            },
        }
    }
    proof {
        if scan_body(buf@, pos as int, end as int) is Ok {
            assert(out@ =~= start + out@.skip(start.len() as int));
        }
    }
    Ok(())
}

/// FIX message parser.
pub struct FixParser {}

/// The message `spec_parse` finds at the front of `buf`, if any: its fields
/// over its bytes, and its length.
pub open spec fn parsed_message(buf: Seq<u8>) -> Option<(Seq<(u32, Seq<u8>)>, nat)> {
    match spec_parse(buf) {
        Ok((ranges, n)) => Some((fields_of(buf.take(n as int), ranges), n)),
        Err(_) => None,
    }
}

impl FixParser {
    /// A parser.
    pub fn new() -> (p: Self) {
        FixParser {  }
    }

    /// Parses the message at the front of `buf`: its view and how many bytes
    /// it takes, or why there is none; `Incomplete` when more bytes could
    /// still complete it.
    pub fn parse<'a>(&self, buf: &'a [u8]) -> (r: Result<(MessageView<'a>, usize), ParseError>)
        ensures
            match spec_parse(buf@) {
                Ok((ranges, n)) => r matches Ok((m, k)) && k == n && m@ == fields_of(
                    buf@.take(n as int),
                    ranges,
                ) && m.bytes()@ == buf@.take(n as int),
                Err(e) => r == Err::<(MessageView<'a>, usize), ParseError>(e),
            },
    {
        let len = buf.len();
        let (s8, e8) = match scan_field_in(buf, 0, len) {
            Scanned::Partial => {
                return Err(ParseError::Incomplete);
            },
            Scanned::Malformed => {
                return Err(ParseError::MalformedField);
            },
            Scanned::Field { tag, value_start, value_end } => {
                if tag != 8 {
                    return Err(ParseError::MissingBeginString);
                }
                (value_start, value_end)
            },
        };
        let (s9, e9) = match scan_field_in(buf, e8 + 1, len) {
            Scanned::Partial => {
                return Err(ParseError::Incomplete);
            },
            Scanned::Malformed => {
                return Err(ParseError::MalformedField);
            },
            Scanned::Field { tag, value_start, value_end } => {
                if tag != 9 {
                    return Err(ParseError::MissingBodyLength);
                }
                (value_start, value_end)
            },
        };
        let body_len = match parse_u64(vstd::slice::slice_subrange(buf, s9, e9)) {
            Some(v) => v,
            None => {
                return Err(ParseError::InvalidBodyLength);
            },
        };
        let body_start = e9 + 1;
        if body_len as u128 + 7 > (len - body_start) as u128 {
            return Err(ParseError::Incomplete);
        }
        let body_end = body_start + body_len as usize;
        let trailer = vstd::slice::slice_subrange(buf, body_end, body_end + 7);
        if !(trailer[0] == 49u8 && trailer[1] == 48u8 && trailer[2] == EQUALS && is_digit(trailer[3])
            && is_digit(trailer[4]) && is_digit(trailer[5]) && trailer[6] == SOH) {
            proof {
                if checksum_field_ok(trailer@) {
                    assert(trailer@.subrange(3, 6)[0] == trailer@[3]);
                    assert(trailer@.subrange(3, 6)[1] == trailer@[4]);
                    assert(trailer@.subrange(3, 6)[2] == trailer@[5]);
                }
            }
            return Err(ParseError::InvalidChecksumField);
        }
        let declared = (trailer[3] - 48u8) as u32 * 100 + (trailer[4] - 48u8) as u32 * 10 + (trailer[5]
            - 48u8) as u32;
        proof {
            let d = trailer@.subrange(3, 6);
            assert(all_digits(d)) by {
                assert forall|i: int| 0 <= i < d.len() implies 48 <= #[trigger] d[i] <= 57 by {
                    assert(d[i] == trailer@[3 + i]);
                }
            }
            let d1 = d.drop_last().drop_last();
            let d2 = d.drop_last();
            assert(d.len() == 3);
            assert(d1.len() == 1);
            assert(d1.drop_last() =~= Seq::<u8>::empty());
            assert(decimal_value(d1.drop_last()) == 0);
            assert(d1.last() == trailer@[3]);
            assert(d2.last() == trailer@[4]);
            assert(d.last() == trailer@[5]);
            assert(decimal_value(d1) == (trailer@[3] - 48) as nat);
            assert(decimal_value(d2) == decimal_value(d1) * 10 + (trailer@[4] - 48) as nat);
            assert(decimal_value(d) == decimal_value(d2) * 10 + (trailer@[5] - 48) as nat);
            assert(declared == decimal_value(d));
            assert(buf@.subrange(body_end + 3, body_end + 6) =~= d);
        }
        let computed = checksum::compute(vstd::slice::slice_subrange(buf, 0, body_end));
        assert(buf@.subrange(0, body_end as int) =~= buf@.take(body_end as int));
        if declared != computed as u32 {
            return Err(ParseError::ChecksumMismatch { declared, computed });
        }
        let mut fields: Vec<FieldRange> = Vec::new();
        fields.push(FieldRange { tag: 8, start: s8, end: e8 });
        fields.push(FieldRange { tag: 9, start: s9, end: e9 });
        match scan_body_in(buf, body_start, body_end, &mut fields) {
            Err(e) => {
                return Err(e);
            },
            Ok(()) => {},
        }
        fields.push(FieldRange { tag: 10, start: body_end + 3, end: body_end + 6 });
        let n = body_end + 7;
        let msg = vstd::slice::slice_subrange(buf, 0, n);
        proof {
            assert(msg@ =~= buf@.take(n as int));
            lemma_scan_body_within(buf@, body_start as int, body_end as int);
            assert(ranges_within(fields@, msg@.len())) by {
                assert forall|i: int| #![trigger fields@[i]] 0 <= i < fields@.len() implies fields@[i].start
                    <= fields@[i].end && fields@[i].end <= msg@.len() by {
                    if 2 <= i < fields@.len() - 1 {
                        let body = scan_body(buf@, body_start as int, body_end as int)->Ok_0;
                        assert(fields@[i] == body[i - 2]);
                    }
                }
            }
        }
        Ok((MessageView::from_parts(msg, fields), n))
    }

    /// Parses the message at the front of `data` when it is complete:
    /// `Ok(None)` when more bytes are needed.
    pub fn try_parse_prefix<'a>(&self, data: &'a [u8]) -> (r: Result<
        Option<(MessageView<'a>, usize)>,
        ParseError,
    >)
        ensures
            match spec_parse(data@) {
                Ok((ranges, n)) => r matches Ok(Some((m, k))) && k == n && m@ == fields_of(
                    data@.take(n as int),
                    ranges,
                ) && m.bytes()@ == data@.take(n as int),
                Err(ParseError::Incomplete) => r matches Ok(None),
                Err(e) => r == Err::<Option<(MessageView<'a>, usize)>, ParseError>(e),
            },
    {
        match self.parse(data) {
            Ok(parsed) => Ok(Some(parsed)),
            Err(ParseError::Incomplete) => Ok(None),
            Err(e) => Err(e),
        }
    }
}

/// Whether `b` is an ASCII digit.
fn is_digit(b: u8) -> (r: bool)
    ensures
        r == (48 <= b <= 57),
{
    48u8 <= b && b <= 57u8
}

// ---------------------------------------------------------------------------
// What the serializer writes, the parser reads back
// ---------------------------------------------------------------------------

/// Whether `s` holds no SOH.
pub open spec fn no_soh(s: Seq<u8>) -> bool {
    forall|i: int| 0 <= i < s.len() ==> #[trigger] s[i] != SOH
}

/// Whether no field value in `fields` holds SOH.
pub open spec fn values_without_soh(fields: Seq<(u32, Seq<u8>)>) -> bool {
    forall|i: int| 0 <= i < fields.len() ==> no_soh(#[trigger] fields[i].1)
}

/// A field written at `pos` is scanned back as its tag and value.
proof fn lemma_scan_written_field(buf: Seq<u8>, pos: int, end: int, tag: u32, value: Seq<u8>)
    requires
        0 <= pos,
        pos + field_bytes(tag, value).len() <= end <= buf.len(),
        buf.subrange(pos, pos + field_bytes(tag, value).len()) == field_bytes(tag, value),
        no_soh(value),
    ensures
        scan_field(buf, pos, end) == (FieldScan::Field {
            tag,
            value_start: pos + dec_digits(tag as nat).len() + 1,
            value_end: pos + dec_digits(tag as nat).len() + 1 + value.len(),
        }),
{
    let d = dec_digits(tag as nat);
    let k = d.len() as int;
    let fb = field_bytes(tag, value);
    lemma_dec_digits_value(tag as nat);
    let soh = pos + k + 1 + value.len();
    assert forall|j: int| pos <= j < soh implies buf[j] != SOH by {
        assert(buf[j] == fb[j - pos]);
        if j - pos < k {
            assert(fb[j - pos] == d[j - pos]);
        } else if j - pos == k {
            assert(fb[j - pos] == EQUALS);
        } else {
            assert(fb[j - pos] == value[j - pos - k - 1]);
        }
    }
    assert(buf[soh] == fb[soh - pos]);
    lemma_find_byte_at(buf, pos, end, SOH, soh);
    assert forall|j: int| pos <= j < pos + k implies buf[j] != EQUALS by {
        assert(buf[j] == fb[j - pos]);
        assert(fb[j - pos] == d[j - pos]);
    }
    assert(buf[pos + k] == fb[k]);
    lemma_find_byte_at(buf, pos, soh, EQUALS, pos + k);
    assert(buf.subrange(pos, pos + k) =~= d) by {
        assert forall|j: int| 0 <= j < k implies buf.subrange(pos, pos + k)[j] == d[j] by {
            assert(buf[pos + j] == fb[j]);
        }
    }
}

/// Fields written from `pos` to `end` are scanned back as themselves.
proof fn lemma_scan_written_fields(buf: Seq<u8>, pos: int, end: int, fields: Seq<(u32, Seq<u8>)>)
    requires
        0 <= pos <= end <= buf.len(),
        end <= usize::MAX,
        buf.subrange(pos, end) == fields_bytes(fields),
        values_without_soh(fields),
    ensures
        scan_body(buf, pos, end) matches Ok(body) && fields_of(buf, body) == fields,
    decreases fields.len(),
{
    if fields.len() == 0 {
        assert(buf.subrange(pos, end).len() == 0);
        assert(fields_of(buf, Seq::<FieldRange>::empty()) =~= fields);
    } else {
        let (tag, value) = fields[0];
        let fb = field_bytes(tag, value);
        let rest = fields.drop_first();
        let next = pos + fb.len();
        assert(fields_bytes(fields) == fb + fields_bytes(rest));
        assert(no_soh(fields[0].1));
        assert(buf.subrange(pos, next) =~= fb) by {
            assert forall|j: int| 0 <= j < fb.len() implies buf.subrange(pos, next)[j] == fb[j] by {
                assert(buf.subrange(pos, end)[j] == fields_bytes(fields)[j]);
            }
        }
        lemma_scan_written_field(buf, pos, end, tag, value);
        let k = dec_digits(tag as nat).len() as int;
        assert(pos + k + 1 + value.len() + 1 == next);
        assert(buf.subrange(next, end) =~= fields_bytes(rest)) by {
            assert forall|j: int| 0 <= j < end - next implies buf.subrange(next, end)[j]
                == fields_bytes(rest)[j] by {
                assert(buf.subrange(pos, end)[fb.len() + j] == fields_bytes(fields)[fb.len() + j]);
            }
        }
        assert(values_without_soh(rest)) by {
            assert forall|i: int| 0 <= i < rest.len() implies no_soh(#[trigger] rest[i].1) by {
                assert(rest[i] == fields[i + 1]);
            }
        }
        lemma_scan_written_fields(buf, next, end, rest);
        let body_rest = scan_body(buf, next, end)->Ok_0;
        let r0 = FieldRange {
            tag,
            start: (pos + k + 1) as usize,
            end: (pos + k + 1 + value.len()) as usize,
        };
        assert(scan_body(buf, pos, end) == Ok::<Seq<FieldRange>, ParseError>(seq![r0] + body_rest));
        assert(buf.subrange(pos + k + 1, pos + k + 1 + value.len()) =~= value) by {
            assert forall|j: int| 0 <= j < value.len() implies buf.subrange(
                pos + k + 1,
                pos + k + 1 + value.len(),
            )[j] == value[j] by {
                assert(buf.subrange(pos, next)[k + 1 + j] == fb[k + 1 + j]);
            }
        }
        assert(fields_of(buf, seq![r0] + body_rest) =~= seq![(tag, value)] + fields_of(buf, body_rest));
        assert(seq![(tag, value)] + rest =~= fields);
    }
}

/// Six zero-padded digits read back as the number they pad.
proof fn lemma_pad6_value(n: nat)
    requires
        n < 1_000_000,
    ensures
        all_digits(pad6_digits(n)),
        spec_parse_u64(pad6_digits(n)) == Some(n as u64),
        no_soh(pad6_digits(n)),
{
    let p = pad6_digits(n);
    let p5 = p.drop_last();
    let p4 = p5.drop_last();
    let p3 = p4.drop_last();
    let p2 = p3.drop_last();
    let p1 = p2.drop_last();
    assert(p1.drop_last() =~= Seq::<u8>::empty());
    assert(decimal_value(p1.drop_last()) == 0);
    assert(decimal_value(p1) == n / 100000 % 10);
    assert(decimal_value(p2) == decimal_value(p1) * 10 + n / 10000 % 10);
    assert(decimal_value(p3) == decimal_value(p2) * 10 + n / 1000 % 10);
    assert(decimal_value(p4) == decimal_value(p3) * 10 + n / 100 % 10);
    assert(decimal_value(p5) == decimal_value(p4) * 10 + n / 10 % 10);
    assert(decimal_value(p) == decimal_value(p5) * 10 + n % 10);
    assert(decimal_value(p) == n) by (nonlinear_arith)
        requires
            n < 1_000_000,
            decimal_value(p) == (((((n / 100000 % 10) * 10 + n / 10000 % 10) * 10 + n / 1000 % 10)
                * 10 + n / 100 % 10) * 10 + n / 10 % 10) * 10 + n % 10,
    ;
}

/// The three CheckSum digits read back as the checksum.
proof fn lemma_checksum_digits_value(cs: u8)
    ensures
        all_digits(spec_checksum_digits(cs)),
        decimal_value(spec_checksum_digits(cs)) == cs,
{
    let p = spec_checksum_digits(cs);
    let p2 = p.drop_last();
    let p1 = p2.drop_last();
    assert(p1.drop_last() =~= Seq::<u8>::empty());
    assert(decimal_value(p1.drop_last()) == 0);
    assert(decimal_value(p1) == cs / 100);
    assert(decimal_value(p2) == decimal_value(p1) * 10 + (cs / 10) % 10);
    assert(decimal_value(p) == decimal_value(p2) * 10 + cs % 10);
}


/// The pieces of a written message laid out in `buf`: BeginString at 0,
/// BodyLength after it, the body fields, the CheckSum field, then anything.
proof fn lemma_message_layout(
    begin_string: Seq<u8>,
    msg_type: Seq<u8>,
    fields: Seq<(u32, Seq<u8>)>,
    rest: Seq<u8>,
)
    ensures
        ({
            let body_fields = seq![(35u32, msg_type)] + fields;
            let body = fields_bytes(body_fields);
            let fb8 = field_bytes(8, begin_string);
            let fb9 = field_bytes(9, pad6_digits(body.len()));
            let msg = spec_fix_message(begin_string, msg_type, fields_bytes(fields));
            let content = fb8 + fb9 + body;
            let buf = msg + rest;
            let p9 = fb8.len() as int;
            let body_start = p9 + fb9.len();
            let body_end = body_start + body.len();
            &&& body == field_bytes(35, msg_type) + fields_bytes(fields)
            &&& fb8.len() == 3 + begin_string.len()
            &&& fb9.len() == 9
            &&& msg == content + (seq![49u8, 48u8, EQUALS] + spec_checksum_digits(
                spec_checksum(content),
            ) + seq![SOH])
            &&& msg.len() == body_end + 7
            &&& buf.subrange(0, p9) == fb8
            &&& buf.subrange(p9, body_start) == fb9
            &&& buf.subrange(body_start, body_end) == body
            &&& buf.take(body_end) == content
            &&& buf.subrange(body_end, body_end + 7) == seq![49u8, 48u8, EQUALS]
                + spec_checksum_digits(spec_checksum(content)) + seq![SOH]
            &&& buf.take(msg.len() as int) == msg
        }),
{
    let body_fields = seq![(35u32, msg_type)] + fields;
    assert(body_fields.drop_first() =~= fields);
    let body = fields_bytes(body_fields);
    assert(body == field_bytes(35, msg_type) + fields_bytes(fields));
    assert(dec_digits(9) =~= seq![57u8]);
    assert(dec_digits(8) =~= seq![56u8]);
    let fb8 = field_bytes(8, begin_string);
    let fb9 = field_bytes(9, pad6_digits(body.len()));
    let content = fb8 + fb9 + body;
    assert(fb8 + seq![57u8, EQUALS] + pad6_digits(body.len()) + seq![SOH] + body =~= content);
    let msg = spec_fix_message(begin_string, msg_type, fields_bytes(fields));
    let trailer = seq![49u8, 48u8, EQUALS] + spec_checksum_digits(spec_checksum(content)) + seq![SOH];
    assert(msg == content + trailer);
    let buf = msg + rest;
    let p9 = fb8.len() as int;
    let body_start = p9 + fb9.len();
    let body_end = body_start + body.len();
    assert(buf.subrange(0, p9) =~= fb8);
    assert(buf.subrange(p9, body_start) =~= fb9);
    assert(buf.subrange(body_start, body_end) =~= body);
    assert(buf.take(body_end) =~= content);
    assert(buf.subrange(body_end, body_end + 7) =~= trailer);
    assert(buf.take(msg.len() as int) =~= msg);
}

/// The fields of a message written with BeginString `begin_string`,
/// MsgType `msg_type` and body fields `fields`, as the parser reads them:
/// BeginString, BodyLength, MsgType, the body fields, CheckSum.
pub open spec fn written_fields(
    begin_string: Seq<u8>,
    msg_type: Seq<u8>,
    fields: Seq<(u32, Seq<u8>)>,
) -> Seq<(u32, Seq<u8>)> {
    let body = field_bytes(35, msg_type) + fields_bytes(fields);
    let msg = spec_fix_message(begin_string, msg_type, fields_bytes(fields));
    seq![(8u32, begin_string), (9u32, pad6_digits(body.len())), (35u32, msg_type)] + fields
        + seq![(10u32, msg.subrange(msg.len() - 4, msg.len() - 1))]
}

/// The ranges the parser finds in a written message.
spec fn written_ranges(
    begin_string: Seq<u8>,
    msg_type: Seq<u8>,
    fields: Seq<(u32, Seq<u8>)>,
    rest: Seq<u8>,
) -> Seq<FieldRange> {
    let body_fields = seq![(35u32, msg_type)] + fields;
    let body = fields_bytes(body_fields);
    let p9 = 3 + begin_string.len() as int;
    let body_start = p9 + 9;
    let body_end = body_start + body.len() as int;
    let buf = spec_fix_message(begin_string, msg_type, fields_bytes(fields)) + rest;
    seq![
        FieldRange { tag: 8, start: 2usize, end: (2 + begin_string.len()) as usize },
        FieldRange { tag: 9, start: (p9 + 2) as usize, end: (p9 + 8) as usize },
    ] + scan_body(buf, body_start, body_end)->Ok_0 + seq![
        FieldRange { tag: 10, start: (body_end + 3) as usize, end: (body_end + 6) as usize },
    ]
}

/// How the parser frames a written message: the ranges and the length.
#[verifier::rlimit(40)]
proof fn lemma_parse_frames_written(
    begin_string: Seq<u8>,
    msg_type: Seq<u8>,
    fields: Seq<(u32, Seq<u8>)>,
    rest: Seq<u8>,
)
    requires
        no_soh(begin_string),
        no_soh(msg_type),
        values_without_soh(fields),
        (field_bytes(35, msg_type) + fields_bytes(fields)).len() < 1_000_000,
        spec_fix_message(begin_string, msg_type, fields_bytes(fields)).len() + rest.len()
            <= usize::MAX,
    ensures
        spec_parse(spec_fix_message(begin_string, msg_type, fields_bytes(fields)) + rest) == Ok::<
            (Seq<FieldRange>, nat),
            ParseError,
        >(
            (
                written_ranges(begin_string, msg_type, fields, rest),
                spec_fix_message(begin_string, msg_type, fields_bytes(fields)).len(),
            ),
        ),
        scan_body(
            spec_fix_message(begin_string, msg_type, fields_bytes(fields)) + rest,
            12 + begin_string.len() as int,
            12 + begin_string.len() as int + fields_bytes(seq![(35u32, msg_type)] + fields).len() as int,
        ) matches Ok(body) && fields_of(
            spec_fix_message(begin_string, msg_type, fields_bytes(fields)) + rest,
            body,
        ) == seq![(35u32, msg_type)] + fields,
{
    lemma_message_layout(begin_string, msg_type, fields, rest);
    let body_fields = seq![(35u32, msg_type)] + fields;
    let body = fields_bytes(body_fields);
    let l = body.len();
    let fb8 = field_bytes(8, begin_string);
    let fb9 = field_bytes(9, pad6_digits(l));
    let msg = spec_fix_message(begin_string, msg_type, fields_bytes(fields));
    let content = fb8 + fb9 + body;
    let cs = spec_checksum(content);
    let buf = msg + rest;
    let len = buf.len() as int;
    let p9 = fb8.len() as int;
    let body_start = p9 + 9;
    let body_end = body_start + l;
    lemma_pad6_value(l);
    lemma_checksum_digits_value(cs);
    lemma_scan_written_field(buf, 0, len, 8, begin_string);
    lemma_scan_written_field(buf, p9, len, 9, pad6_digits(l));
    assert(dec_digits(9) =~= seq![57u8]);
    assert(dec_digits(8) =~= seq![56u8]);
    assert(buf.subrange(p9 + 2, p9 + 8) =~= pad6_digits(l)) by {
        assert forall|j: int| 0 <= j < 6 implies buf.subrange(p9 + 2, p9 + 8)[j] == pad6_digits(
            l,
        )[j] by {
            assert(buf.subrange(p9, body_start)[2 + j] == fb9[2 + j]);
        }
    }
    let trailer = buf.subrange(body_end, body_end + 7);
    assert(buf.subrange(body_end + 3, body_end + 6) =~= trailer.subrange(3, 6));
    assert(trailer.subrange(3, 6) =~= spec_checksum_digits(cs));
    assert(values_without_soh(body_fields)) by {
        assert forall|i: int| 0 <= i < body_fields.len() implies no_soh(
            #[trigger] body_fields[i].1,
        ) by {
            if i > 0 {
                assert(body_fields[i] == fields[i - 1]);
            }
        }
    }
    lemma_scan_written_fields(buf, body_start, body_end, body_fields);
    assert(checksum_field_ok(trailer));
}

/// The fields of two runs of ranges are those of each run.
proof fn lemma_fields_of_concat(v: Seq<u8>, x: Seq<FieldRange>, y: Seq<FieldRange>)
    ensures
        fields_of(v, x + y) == fields_of(v, x) + fields_of(v, y),
{
    assert(fields_of(v, x + y) =~= fields_of(v, x) + fields_of(v, y));
}

/// Ranges that lie within the first `n` bytes read the same from those bytes
/// as from all of them.
proof fn lemma_fields_of_prefix(buf: Seq<u8>, n: int, rs: Seq<FieldRange>)
    requires
        0 <= n <= buf.len(),
        forall|i: int| #![trigger rs[i]] 0 <= i < rs.len() ==> rs[i].start <= rs[i].end <= n,
    ensures
        fields_of(buf.take(n), rs) == fields_of(buf, rs),
{
    assert forall|i: int| 0 <= i < rs.len() implies fields_of(buf.take(n), rs)[i] == fields_of(
        buf,
        rs,
    )[i] by {
        let r = rs[i];
        assert(buf.take(n).subrange(r.start as int, r.end as int) =~= buf.subrange(
            r.start as int,
            r.end as int,
        ));
    }
    assert(fields_of(buf.take(n), rs) =~= fields_of(buf, rs));
}

/// What the ranges of a written message read in its bytes.
proof fn lemma_written_view(
    begin_string: Seq<u8>,
    msg_type: Seq<u8>,
    fields: Seq<(u32, Seq<u8>)>,
    rest: Seq<u8>,
)
    requires
        spec_fix_message(begin_string, msg_type, fields_bytes(fields)).len() + rest.len()
            <= usize::MAX,
        scan_body(
            spec_fix_message(begin_string, msg_type, fields_bytes(fields)) + rest,
            12 + begin_string.len() as int,
            12 + begin_string.len() as int + fields_bytes(seq![(35u32, msg_type)] + fields).len() as int,
        ) matches Ok(body) && fields_of(
            spec_fix_message(begin_string, msg_type, fields_bytes(fields)) + rest,
            body,
        ) == seq![(35u32, msg_type)] + fields,
    ensures
        ({
            let msg = spec_fix_message(begin_string, msg_type, fields_bytes(fields));
            fields_of((msg + rest).take(msg.len() as int), written_ranges(begin_string, msg_type, fields, rest))
                == written_fields(begin_string, msg_type, fields)
        }),
{
    lemma_message_layout(begin_string, msg_type, fields, rest);
    let body_fields = seq![(35u32, msg_type)] + fields;
    let body = fields_bytes(body_fields);
    let l = body.len();
    let fb8 = field_bytes(8, begin_string);
    let fb9 = field_bytes(9, pad6_digits(l));
    let msg = spec_fix_message(begin_string, msg_type, fields_bytes(fields));
    let buf = msg + rest;
    let n = msg.len() as int;
    let p9 = fb8.len() as int;
    let body_start = p9 + 9;
    let body_end = body_start + l;
    let body_ranges = scan_body(buf, body_start, body_end)->Ok_0;
    let view = buf.take(n);
    lemma_scan_body_within(buf, body_start, body_end);
    lemma_fields_of_prefix(buf, n, body_ranges);
    let r8 = FieldRange { tag: 8, start: 2usize, end: (2 + begin_string.len()) as usize };
    let r9 = FieldRange { tag: 9, start: (p9 + 2) as usize, end: (p9 + 8) as usize };
    let r10 = FieldRange { tag: 10, start: (body_end + 3) as usize, end: (body_end + 6) as usize };
    assert(written_ranges(begin_string, msg_type, fields, rest) == seq![r8, r9] + body_ranges
        + seq![r10]);
    lemma_fields_of_concat(view, seq![r8, r9] + body_ranges, seq![r10]);
    lemma_fields_of_concat(view, seq![r8, r9], body_ranges);
    assert(dec_digits(9) =~= seq![57u8]);
    assert(dec_digits(8) =~= seq![56u8]);
    let bs_end = 2 + begin_string.len() as int;
    assert(view.subrange(2, bs_end) =~= begin_string) by {
        assert forall|j: int| 0 <= j < begin_string.len() implies view.subrange(2, bs_end)[j]
            == begin_string[j] by {
            assert(buf.subrange(0, p9)[2 + j] == fb8[2 + j]);
        }
    }
    assert(view.subrange(p9 + 2, p9 + 8) =~= pad6_digits(l)) by {
        assert forall|j: int| 0 <= j < 6 implies view.subrange(p9 + 2, p9 + 8)[j] == pad6_digits(
            l,
        )[j] by {
            assert(buf.subrange(p9, body_start)[2 + j] == fb9[2 + j]);
        }
    }
    assert(view.subrange(body_end + 3, body_end + 6) =~= msg.subrange(n - 4, n - 1));
    assert(fields_of(view, seq![r8, r9]) =~= seq![(8u32, begin_string), (9u32, pad6_digits(l))]);
    assert(fields_of(view, seq![r10]) =~= seq![(10u32, msg.subrange(n - 4, n - 1))]);
    assert(fields_of(view, written_ranges(begin_string, msg_type, fields, rest))
        =~= written_fields(begin_string, msg_type, fields));
}

/// Parsing a message the serializer wrote, followed by any bytes, gives back
/// exactly the fields written (BeginString, BodyLength, MsgType, the body
/// fields, CheckSum) and the message's length. Values must not hold SOH and
/// the body must be shorter than the six digits BodyLength has.
pub proof fn lemma_parse_serialized(
    begin_string: Seq<u8>,
    msg_type: Seq<u8>,
    fields: Seq<(u32, Seq<u8>)>,
    rest: Seq<u8>,
)
    requires
        no_soh(begin_string),
        no_soh(msg_type),
        values_without_soh(fields),
        (field_bytes(35, msg_type) + fields_bytes(fields)).len() < 1_000_000,
        spec_fix_message(begin_string, msg_type, fields_bytes(fields)).len() + rest.len()
            <= usize::MAX,
    ensures
        parsed_message(spec_fix_message(begin_string, msg_type, fields_bytes(fields)) + rest)
            == Some(
            (
                written_fields(begin_string, msg_type, fields),
                spec_fix_message(begin_string, msg_type, fields_bytes(fields)).len(),
            ),
        ),
{
    lemma_parse_frames_written(begin_string, msg_type, fields, rest);
    lemma_written_view(begin_string, msg_type, fields, rest);
}

// ---------------------------------------------------------------------------
// The session messages read back
// ---------------------------------------------------------------------------

/// The standard header fields after MsgType, as the parser reads them.
pub open spec fn header_fields(sender: Seq<u8>, target: Seq<u8>, seq_num: u64, sending_time: Seq<u8>) -> Seq<
    (u32, Seq<u8>),
> {
    seq![
        (49u32, sender),
        (56u32, target),
        (34u32, dec_digits(seq_num as nat)),
        (52u32, sending_time),
    ]
}

/// An optional field, as the parser reads it: present or not.
pub open spec fn optional_fields(tag: u32, value: Option<Seq<u8>>) -> Seq<(u32, Seq<u8>)> {
    match value {
        Some(v) => seq![(tag, v)],
        None => Seq::empty(),
    }
}

/// Fields written one run after another.
pub(crate) proof fn lemma_fields_bytes_concat(a: Seq<(u32, Seq<u8>)>, b: Seq<(u32, Seq<u8>)>)
    ensures
        fields_bytes(a + b) == fields_bytes(a) + fields_bytes(b),
    decreases a.len(),
{
    if a.len() == 0 {
        assert(a + b =~= b);
        assert(fields_bytes(a) + fields_bytes(b) =~= fields_bytes(b));
    } else {
        assert((a + b).drop_first() =~= a.drop_first() + b);
        lemma_fields_bytes_concat(a.drop_first(), b);
        assert(fields_bytes(a + b) =~= fields_bytes(a) + fields_bytes(b));
    }
}

/// A list of one field is that field.
pub(crate) proof fn lemma_fields_bytes_one(tag: u32, value: Seq<u8>)
    ensures
        fields_bytes(seq![(tag, value)]) == field_bytes(tag, value),
{
    let one = seq![(tag, value)];
    assert(one.drop_first() =~= Seq::<(u32, Seq<u8>)>::empty());
    assert(fields_bytes(one.drop_first()) =~= Seq::<u8>::empty());
    assert(one[0] == (tag, value));
    assert(field_bytes(tag, value) + Seq::<u8>::empty() =~= field_bytes(tag, value));
}

/// Decimal digits hold no SOH.
pub(crate) proof fn lemma_digits_no_soh(n: nat)
    ensures
        no_soh(dec_digits(n)),
{
    crate::message::lemma_dec_digits_value(n);
    let d = dec_digits(n);
    assert forall|i: int| 0 <= i < d.len() implies #[trigger] d[i] != SOH by {
        assert(48 <= d[i] <= 57);
    }
}

/// The digits of a signed number hold no SOH.
pub(crate) proof fn lemma_i64_digits_no_soh(v: i64)
    ensures
        no_soh(i64_digits(v)),
{
    if v < 0 {
        lemma_digits_no_soh((-v) as nat);
        let d = i64_digits(v);
        assert forall|i: int| 0 <= i < d.len() implies #[trigger] d[i] != SOH by {
            if i > 0 {
                assert(d[i] == dec_digits((-v) as nat)[i - 1]);
            }
        }
    } else {
        lemma_digits_no_soh(v as nat);
    }
}

/// The header fields written are the standard header.
pub(crate) proof fn lemma_header_fields_bytes(sender: Seq<u8>, target: Seq<u8>, seq_num: u64, sending_time: Seq<u8>)
    ensures
        fields_bytes(header_fields(sender, target, seq_num, sending_time)) == standard_header_fields(
            sender,
            target,
            seq_num,
            sending_time,
        ),
{
    let h = header_fields(sender, target, seq_num, sending_time);
    assert(h =~= seq![(49u32, sender)] + seq![(56u32, target)] + seq![(34u32, dec_digits(seq_num as nat))]
        + seq![(52u32, sending_time)]);
    lemma_fields_bytes_concat(seq![(49u32, sender)] + seq![(56u32, target)] + seq![(34u32, dec_digits(seq_num as nat))], seq![(52u32, sending_time)]);
    lemma_fields_bytes_concat(seq![(49u32, sender)] + seq![(56u32, target)], seq![(34u32, dec_digits(seq_num as nat))]);
    lemma_fields_bytes_concat(seq![(49u32, sender)], seq![(56u32, target)]);
    lemma_fields_bytes_one(49, sender);
    lemma_fields_bytes_one(56, target);
    lemma_fields_bytes_one(34, dec_digits(seq_num as nat));
    lemma_fields_bytes_one(52, sending_time);
    assert(fields_bytes(h) =~= standard_header_fields(sender, target, seq_num, sending_time));
}

/// The header fields carry no SOH when the text values carry none.
pub(crate) proof fn lemma_header_values(sender: Seq<u8>, target: Seq<u8>, seq_num: u64, sending_time: Seq<u8>)
    requires
        no_soh(sender),
        no_soh(target),
        no_soh(sending_time),
    ensures
        values_without_soh(header_fields(sender, target, seq_num, sending_time)),
{
    lemma_digits_no_soh(seq_num as nat);
}

/// Two runs of fields without SOH in their values make one.
pub(crate) proof fn lemma_values_concat(a: Seq<(u32, Seq<u8>)>, b: Seq<(u32, Seq<u8>)>)
    requires
        values_without_soh(a),
        values_without_soh(b),
    ensures
        values_without_soh(a + b),
{
    assert forall|i: int| 0 <= i < (a + b).len() implies no_soh(#[trigger] (a + b)[i].1) by {
        if i < a.len() {
            assert((a + b)[i] == a[i]);
        } else {
            assert((a + b)[i] == b[i - a.len()]);
        }
    }
}

/// A Heartbeat the serializer writes, echoing `test_req_id` or not, reads
/// back as its header fields and the TestReqID.
pub proof fn lemma_heartbeat_parses(
    begin_string: Seq<u8>,
    sender: Seq<u8>,
    target: Seq<u8>,
    seq_num: u64,
    sending_time: Seq<u8>,
    test_req_id: Option<Seq<u8>>,
    rest: Seq<u8>,
)
    requires
        no_soh(begin_string),
        no_soh(sender),
        no_soh(target),
        no_soh(sending_time),
        test_req_id matches Some(v) ==> no_soh(v),
        (field_bytes(35, seq![48u8]) + heartbeat_with_test_req_id_body(sender, target, seq_num, sending_time, test_req_id)).len() < 1_000_000,
        spec_heartbeat_with_test_req_id(begin_string, sender, target, seq_num, sending_time, test_req_id).len() + rest.len() <= usize::MAX,
    ensures
        ({
            let fields = header_fields(sender, target, seq_num, sending_time) + optional_fields(112, test_req_id);
            let msg = spec_heartbeat_with_test_req_id(begin_string, sender, target, seq_num, sending_time, test_req_id);
            parsed_message(msg + rest) == Some((written_fields(begin_string, seq![48u8], fields), msg.len()))
        }),
{
    let h = header_fields(sender, target, seq_num, sending_time);
    let o = optional_fields(112, test_req_id);
    lemma_header_fields_bytes(sender, target, seq_num, sending_time);
    lemma_fields_bytes_concat(h, o);
    if let Some(v) = test_req_id {
        lemma_fields_bytes_one(112, v);
    }
    assert(fields_bytes(o) == opt_field(112, test_req_id));
    lemma_header_values(sender, target, seq_num, sending_time);
    lemma_values_concat(h, o);
    assert(fields_bytes(h + o) == heartbeat_with_test_req_id_body(sender, target, seq_num, sending_time, test_req_id));
    lemma_parse_serialized(begin_string, seq![48u8], h + o, rest);
}

/// A Logout the serializer writes, with `text` or not, reads back as its
/// header fields and the Text.
pub proof fn lemma_logout_parses(
    begin_string: Seq<u8>,
    sender: Seq<u8>,
    target: Seq<u8>,
    seq_num: u64,
    sending_time: Seq<u8>,
    text: Option<Seq<u8>>,
    rest: Seq<u8>,
)
    requires
        no_soh(begin_string),
        no_soh(sender),
        no_soh(target),
        no_soh(sending_time),
        text matches Some(v) ==> no_soh(v),
        (field_bytes(35, seq![53u8]) + logout_with_text_body(sender, target, seq_num, sending_time, text)).len() < 1_000_000,
        spec_logout_with_text(begin_string, sender, target, seq_num, sending_time, text).len() + rest.len() <= usize::MAX,
    ensures
        ({
            let fields = header_fields(sender, target, seq_num, sending_time) + optional_fields(58, text);
            let msg = spec_logout_with_text(begin_string, sender, target, seq_num, sending_time, text);
            parsed_message(msg + rest) == Some((written_fields(begin_string, seq![53u8], fields), msg.len()))
        }),
{
    let h = header_fields(sender, target, seq_num, sending_time);
    let o = optional_fields(58, text);
    lemma_header_fields_bytes(sender, target, seq_num, sending_time);
    lemma_fields_bytes_concat(h, o);
    if let Some(v) = text {
        lemma_fields_bytes_one(58, v);
    }
    assert(fields_bytes(o) == opt_field(58, text));
    lemma_header_values(sender, target, seq_num, sending_time);
    lemma_values_concat(h, o);
    lemma_parse_serialized(begin_string, seq![53u8], h + o, rest);
}

/// A Logon the serializer writes reads back as its header fields,
/// EncryptMethod 0 and HeartBtInt.
pub proof fn lemma_logon_parses(
    begin_string: Seq<u8>,
    sender: Seq<u8>,
    target: Seq<u8>,
    seq_num: u64,
    sending_time: Seq<u8>,
    heartbeat_interval: i64,
    rest: Seq<u8>,
)
    requires
        no_soh(begin_string),
        no_soh(sender),
        no_soh(target),
        no_soh(sending_time),
        (field_bytes(35, seq![65u8]) + logon_body(sender, target, seq_num, sending_time, heartbeat_interval)).len() < 1_000_000,
        spec_logon(begin_string, sender, target, seq_num, sending_time, heartbeat_interval).len() + rest.len() <= usize::MAX,
    ensures
        ({
            let fields = header_fields(sender, target, seq_num, sending_time) + seq![
                (98u32, i64_digits(0)),
                (108u32, i64_digits(heartbeat_interval)),
            ];
            let msg = spec_logon(begin_string, sender, target, seq_num, sending_time, heartbeat_interval);
            parsed_message(msg + rest) == Some((written_fields(begin_string, seq![65u8], fields), msg.len()))
        }),
{
    let h = header_fields(sender, target, seq_num, sending_time);
    let o = seq![(98u32, i64_digits(0)), (108u32, i64_digits(heartbeat_interval))];
    lemma_header_fields_bytes(sender, target, seq_num, sending_time);
    lemma_fields_bytes_concat(h, o);
    assert(o =~= seq![(98u32, i64_digits(0))] + seq![(108u32, i64_digits(heartbeat_interval))]);
    lemma_fields_bytes_concat(seq![(98u32, i64_digits(0))], seq![(108u32, i64_digits(heartbeat_interval))]);
    lemma_fields_bytes_one(98, i64_digits(0));
    lemma_fields_bytes_one(108, i64_digits(heartbeat_interval));
    lemma_i64_digits_no_soh(0);
    lemma_i64_digits_no_soh(heartbeat_interval);
    lemma_header_values(sender, target, seq_num, sending_time);
    assert(values_without_soh(o));
    lemma_values_concat(h, o);
    assert(fields_bytes(h + o) =~= logon_body(sender, target, seq_num, sending_time, heartbeat_interval));
    lemma_parse_serialized(begin_string, seq![65u8], h + o, rest);
}

} // verus!
