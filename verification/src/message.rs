//! A parsed FIX message: the fields of a frame, in wire order, as views into
//! the received bytes, and typed lookups by tag.
use vstd::prelude::*;
use vstd::utf8::*;

use crate::sbe::str_from_utf8;
use crate::tags;

verus! {

// ---------------------------------------------------------------------------
// Decimal numbers
// ---------------------------------------------------------------------------

/// Whether every byte of `s` is an ASCII digit.
pub open spec fn all_digits(s: Seq<u8>) -> bool {
    forall|i: int| 0 <= i < s.len() ==> 48 <= #[trigger] s[i] <= 57
}

/// The number the ASCII digits `s` spell in decimal (leading zeros allowed).
pub open spec fn decimal_value(s: Seq<u8>) -> nat
    decreases s.len(),
{
    if s.len() == 0 {
        0
    } else {
        decimal_value(s.drop_last()) * 10 + (s.last() - 48) as nat
    }
}

/// Ten to the power `n`.
pub open spec fn pow10(n: nat) -> nat
    decreases n,
{
    if n == 0 {
        1
    } else {
        10 * pow10((n - 1) as nat)
    }
}

/// `k` digits spell a number below ten to the power `k`.
pub proof fn lemma_decimal_value_bound(s: Seq<u8>)
    requires
        all_digits(s),
    ensures
        decimal_value(s) < pow10(s.len()),
    decreases s.len(),
{
    if s.len() > 0 {
        let p = s.drop_last();
        assert(all_digits(p)) by {
            assert forall|i: int| 0 <= i < p.len() implies 48 <= #[trigger] p[i] <= 57 by {
                assert(p[i] == s[i]);
            }
        }
        lemma_decimal_value_bound(p);
        assert(48 <= s[s.len() - 1] <= 57);
        let a = decimal_value(p);
        let b = pow10(p.len());
        assert(a * 10 + 9 < b * 10) by (nonlinear_arith)
            requires
                a < b,
        ;
    }
}

/// A number spelled by a prefix of some digits is at most the number the
/// digits spell.
pub proof fn lemma_decimal_value_prefix(s: Seq<u8>, k: int)
    requires
        all_digits(s),
        0 <= k <= s.len(),
    ensures
        decimal_value(s.take(k)) <= decimal_value(s),
    decreases s.len(),
{
    if k < s.len() {
        let p = s.drop_last();
        assert(all_digits(p)) by {
            assert forall|i: int| 0 <= i < p.len() implies 48 <= #[trigger] p[i] <= 57 by {
                assert(p[i] == s[i]);
            }
        }
        lemma_decimal_value_prefix(p, k);
        assert(p.take(k) =~= s.take(k));
        assert(48 <= s[s.len() - 1] <= 57);
    } else {
        assert(s.take(k) =~= s);
    }
}

/// Appending a digit: the value of `s` with `d` after it.
proof fn lemma_decimal_value_push(s: Seq<u8>, d: u8)
    ensures
        decimal_value(s.push(d)) == decimal_value(s) * 10 + (d - 48) as nat,
{
    assert(s.push(d).drop_last() =~= s);
}

/// The decimal digits of `n`, read back, are `n`.
pub proof fn lemma_dec_digits_value(n: nat)
    ensures
        all_digits(crate::serializer::dec_digits(n)),
        decimal_value(crate::serializer::dec_digits(n)) == n,
        1 <= crate::serializer::dec_digits(n).len(),
    decreases n,
{
    let d = crate::serializer::dec_digits(n);
    if n < 10 {
        assert(d.drop_last() =~= Seq::<u8>::empty());
        assert(decimal_value(d.drop_last()) == 0);
        assert(d.last() == (48 + n) as u8);
        assert(decimal_value(d) == decimal_value(d.drop_last()) * 10 + (d.last() - 48) as nat);
    } else {
        lemma_dec_digits_value(n / 10);
        let p = crate::serializer::dec_digits(n / 10);
        lemma_decimal_value_push(p, (48 + n % 10) as u8);
        assert(d == p.push((48 + n % 10) as u8));
        assert((n / 10) * 10 + n % 10 == n);
        assert(decimal_value(d) == (n / 10) * 10 + n % 10);
        assert(all_digits(d)) by {
            assert forall|i: int| 0 <= i < d.len() implies 48 <= #[trigger] d[i] <= 57 by {
                if i < p.len() {
                    assert(d[i] == p[i]);
                }
            }
        }
    }
}

/// What reading `s` as an unsigned decimal number gives: the number when `s`
/// is one or more digits spelling a number that fits in 64 bits.
pub open spec fn spec_parse_u64(s: Seq<u8>) -> Option<u64> {
    if s.len() > 0 && all_digits(s) && decimal_value(s) <= u64::MAX {
        Some(decimal_value(s) as u64)
    } else {
        None
    }
}

/// What reading `s` as a signed decimal number gives: digits with an
/// optional leading `-`, when the number fits in 64 bits.
pub open spec fn spec_parse_i64(s: Seq<u8>) -> Option<i64> {
    if s.len() > 0 && s[0] == 45u8 {
        let d = s.skip(1);
        if d.len() > 0 && all_digits(d) && decimal_value(d) <= 0x8000_0000_0000_0000 {
            Some((0 - decimal_value(d)) as i64)
        } else {
            None
        }
    } else if s.len() > 0 && all_digits(s) && decimal_value(s) <= i64::MAX {
        Some(decimal_value(s) as i64)
    } else {
        None
    }
}

/// Reads the digits `s` as an unsigned number up to `limit`; `None` when `s`
/// is empty, holds another byte, or spells a larger number.
fn parse_digits_up_to(s: &[u8], limit: u64) -> (r: Option<u64>)
    ensures
        r matches Some(v) ==> s@.len() > 0 && all_digits(s@) && v == decimal_value(s@) && v
            <= limit,
        r is None ==> !(s@.len() > 0 && all_digits(s@) && decimal_value(s@) <= limit),
{
    if s.len() == 0 {
        return None;
    }
    let mut acc: u64 = 0;
    let mut i: usize = 0;
    while i < s.len()
        invariant
            0 <= i <= s@.len(),
            all_digits(s@.take(i as int)),
            acc == decimal_value(s@.take(i as int)),
            acc <= limit,
        decreases s@.len() - i,
    {
        let b = s[i];
        proof {
            lemma_decimal_value_push(s@.take(i as int), b);
            assert(s@.take(i + 1) =~= s@.take(i as int).push(b));
        }
        if b < 48u8 || b > 57u8 {
            assert(!all_digits(s@)) by {
                assert(s@[i as int] == b);
            }
            return None;
        }
        let d = (b - 48u8) as u64;
        if d > limit || acc > (limit - d) / 10 {
            proof {
                assert(acc * 10 + d > limit) by (nonlinear_arith)
                    requires
                        d > limit || acc > (limit - d) / 10,
                ;
                if all_digits(s@) {
                    lemma_decimal_value_prefix(s@, i + 1);
                }
            }
            return None;
        }
        assert(acc * 10 + d <= limit) by (nonlinear_arith)
            requires
                acc <= (limit - d) / 10,
                d <= limit,
        ;
        acc = acc * 10 + d;
        assert(all_digits(s@.take(i + 1))) by {
            assert forall|j: int| 0 <= j < i + 1 implies 48 <= #[trigger] s@.take(i + 1)[j] <= 57 by {
                if j < i {
                    assert(s@.take(i + 1)[j] == s@.take(i as int)[j]);
                }
            }
        }
        i = i + 1;
    }
    assert(s@.take(i as int) =~= s@);
    Some(acc)
}

/// Reads `s` as an unsigned decimal number.
pub fn parse_u64(s: &[u8]) -> (r: Option<u64>)
    ensures
        r == spec_parse_u64(s@),
{
    parse_digits_up_to(s, u64::MAX)
}

/// Reads `s` as a signed decimal number.
pub fn parse_i64(s: &[u8]) -> (r: Option<i64>)
    ensures
        r == spec_parse_i64(s@),
{
    if s.len() > 0 && s[0] == 45u8 {
        let digits = vstd::slice::slice_subrange(s, 1, s.len());
        assert(digits@ =~= s@.skip(1));
        match parse_digits_up_to(digits, 0x8000_0000_0000_0000u64) {
            Some(v) => {
                if v == 0x8000_0000_0000_0000u64 {
                    Some(i64::MIN)
                } else {
                    Some(0i64 - v as i64)
                }
            },
            None => None,
        }
    } else {
        match parse_digits_up_to(s, i64::MAX as u64) {
            Some(v) => Some(v as i64),
            None => None,
        }
    }
}

// ---------------------------------------------------------------------------
// Message view
// ---------------------------------------------------------------------------

/// Where one field's value lies in the message bytes.
#[derive(Debug, Clone, Copy)]
pub struct FieldRange {
    pub tag: u32,
    pub start: usize,
    pub end: usize,
}

/// The fields of `ranges` over `buf`: each tag with its value bytes.
pub open spec fn fields_of(buf: Seq<u8>, ranges: Seq<FieldRange>) -> Seq<(u32, Seq<u8>)> {
    ranges.map_values(|f: FieldRange| (f.tag, buf.subrange(f.start as int, f.end as int)))
}

/// Whether every range lies within `len` bytes.
pub open spec fn ranges_within(ranges: Seq<FieldRange>, len: nat) -> bool {
    forall|i: int|
        #![trigger ranges[i]]
        0 <= i < ranges.len() ==> ranges[i].start <= ranges[i].end && ranges[i].end <= len
}

proof fn lemma_range_within(ranges: Seq<FieldRange>, len: nat, i: int)
    requires
        ranges_within(ranges, len),
        0 <= i < ranges.len(),
    ensures
        ranges[i].start <= ranges[i].end,
        ranges[i].end <= len,
{
    let r = ranges[i];
}

/// The value of the first field tagged `tag`.
pub open spec fn first_value(fields: Seq<(u32, Seq<u8>)>, tag: u32) -> Option<Seq<u8>>
    decreases fields.len(),
{
    if fields.len() == 0 {
        None
    } else if fields[0].0 == tag {
        Some(fields[0].1)
    } else {
        first_value(fields.drop_first(), tag)
    }
}

/// The first value tagged `tag`, read as text when it is valid UTF-8.
pub open spec fn first_text(fields: Seq<(u32, Seq<u8>)>, tag: u32) -> Option<Seq<char>> {
    match first_value(fields, tag) {
        Some(v) => if valid_utf8(v) {
            Some(decode_utf8(v))
        } else {
            None
        },
        None => None,
    }
}

/// The first value tagged `tag`, read as an unsigned number.
pub open spec fn first_u64(fields: Seq<(u32, Seq<u8>)>, tag: u32) -> Option<u64> {
    match first_value(fields, tag) {
        Some(v) => spec_parse_u64(v),
        None => None,
    }
}

/// The first value tagged `tag`, read as a signed number.
pub open spec fn first_i64(fields: Seq<(u32, Seq<u8>)>, tag: u32) -> Option<i64> {
    match first_value(fields, tag) {
        Some(v) => spec_parse_i64(v),
        None => None,
    }
}

/// A parsed FIX message: its bytes and the fields found in them, in order.
#[derive(Debug)]
pub struct MessageView<'a> {
    buf: &'a [u8],
    fields: Vec<FieldRange>,
}

impl<'a> View for MessageView<'a> {
    type V = Seq<(u32, Seq<u8>)>;

    closed spec fn view(&self) -> Seq<(u32, Seq<u8>)> {
        fields_of(self.buf@, self.fields@)
    }
}

impl<'a> MessageView<'a> {
    #[verifier::type_invariant]
    closed spec fn ranges_valid(self) -> bool {
        ranges_within(self.fields@, self.buf@.len())
    }

    /// The message whose bytes are `buf` and whose fields lie at `fields`.
    pub(crate) fn from_parts(buf: &'a [u8], fields: Vec<FieldRange>) -> (m: Self)
        requires
            ranges_within(fields@, buf@.len()),
        ensures
            m@ == fields_of(buf@, fields@),
            m.bytes()@ == buf@,
    {
        MessageView { buf, fields }
    }

    /// The bytes of the message.
    pub closed spec fn bytes(&self) -> &'a [u8] {
        self.buf
    }

    /// The message's bytes.
    pub fn as_bytes(&self) -> (b: &'a [u8])
        ensures
            b@ == self.bytes()@,
    {
        self.buf
    }

    /// How many fields the message has.
    pub fn field_count(&self) -> (n: usize)
        ensures
            n == self@.len(),
    {
        self.fields.len()
    }

    /// The tag and value of the `i`-th field.
    pub fn field_at(&self, i: usize) -> (f: (u32, &'a [u8]))
        requires
            i < self@.len(),
        ensures
            f.0 == self@[i as int].0,
            f.1@ == self@[i as int].1,
    {
        proof {
            use_type_invariant(self);
        }
        assert(self@.len() == self.fields@.len());
        let r = self.fields[i];
        assert(r.start <= r.end && r.end <= self.buf@.len()) by {
            lemma_range_within(self.fields@, self.buf@.len(), i as int);
        }
        (r.tag, vstd::slice::slice_subrange(self.buf, r.start, r.end))
    }

    /// The value of the first field tagged `tag`.
    pub fn get_field(&self, tag: u32) -> (r: Option<&'a [u8]>)
        ensures
            match r {
                Some(v) => first_value(self@, tag) == Some(v@),
                None => first_value(self@, tag) is None,
            },
    {
        proof {
            use_type_invariant(self);
        }
        let mut i: usize = 0;
        assert(self@.skip(0) =~= self@);
        while i < self.fields.len()
            invariant
                0 <= i <= self@.len(),
                self@.len() == self.fields@.len(),
                ranges_within(self.fields@, self.buf@.len()),
                first_value(self@, tag) == first_value(self@.skip(i as int), tag),
            decreases self@.len() - i,
        {
            let r = self.fields[i];
            assert(self@.skip(i as int)[0] == self@[i as int]);
            if r.tag == tag {
                assert(self.fields@[i as int].start <= self.fields@[i as int].end <= self.buf@.len());
                return Some(vstd::slice::slice_subrange(self.buf, r.start, r.end));
            }
            assert(self@.skip(i as int).drop_first() =~= self@.skip(i + 1));
            i = i + 1;
        }
        None
    }

    /// The first value tagged `tag` as text; `None` when absent or not
    /// UTF-8.
    pub fn get_field_str(&self, tag: u32) -> (r: Option<&'a str>)
        ensures
            match r {
                Some(s) => first_text(self@, tag) == Some(s@),
                None => first_text(self@, tag) is None,
            },
    {
        match self.get_field(tag) {
            Some(v) => str_from_utf8(v),
            None => None,
        }
    }

    /// The first value tagged `tag` as a signed number.
    pub fn get_field_i64(&self, tag: u32) -> (r: Option<i64>)
        ensures
            r == first_i64(self@, tag),
    {
        match self.get_field(tag) {
            Some(v) => parse_i64(v),
            None => None,
        }
    }

    /// The first value tagged `tag` as an unsigned number.
    pub fn get_field_u64(&self, tag: u32) -> (r: Option<u64>)
        ensures
            r == first_u64(self@, tag),
    {
        match self.get_field(tag) {
            Some(v) => parse_u64(v),
            None => None,
        }
    }

    /// MsgType (35).
    pub fn msg_type(&self) -> (r: Option<&'a [u8]>)
        ensures
            match r {
                Some(v) => first_value(self@, tags::MSG_TYPE) == Some(v@),
                None => first_value(self@, tags::MSG_TYPE) is None,
            },
    {
        self.get_field(tags::MSG_TYPE)
    }

    /// BeginString (8) as text.
    pub fn begin_string(&self) -> (r: Option<&'a str>)
        ensures
            match r {
                Some(s) => first_text(self@, tags::BEGIN_STRING) == Some(s@),
                None => first_text(self@, tags::BEGIN_STRING) is None,
            },
    {
        self.get_field_str(tags::BEGIN_STRING)
    }

    /// SenderCompID (49) as text.
    pub fn sender_comp_id(&self) -> (r: Option<&'a str>)
        ensures
            match r {
                Some(s) => first_text(self@, tags::SENDER_COMP_ID) == Some(s@),
                None => first_text(self@, tags::SENDER_COMP_ID) is None,
            },
    {
        self.get_field_str(tags::SENDER_COMP_ID)
    }

    /// TargetCompID (56) as text.
    pub fn target_comp_id(&self) -> (r: Option<&'a str>)
        ensures
            match r {
                Some(s) => first_text(self@, tags::TARGET_COMP_ID) == Some(s@),
                None => first_text(self@, tags::TARGET_COMP_ID) is None,
            },
    {
        self.get_field_str(tags::TARGET_COMP_ID)
    }

    /// MsgSeqNum (34) as a number.
    pub fn msg_seq_num(&self) -> (r: Option<u64>)
        ensures
            r == first_u64(self@, tags::MSG_SEQ_NUM),
    {
        self.get_field_u64(tags::MSG_SEQ_NUM)
    }
}

} // verus!
