//! FIX tag=value serializer.
//!
//! Builds FIX messages directly into a caller-provided buffer: BeginString,
//! a reserved BodyLength, the body, then the CheckSum. `finalize` fills in
//! the BodyLength (six zero-padded digits) and appends the CheckSum.
use vstd::prelude::*;

use crate::checksum::{self, spec_checksum, spec_checksum_digits};
use crate::tags::{self, EQUALS, SOH};

verus! {

// ---------------------------------------------------------------------------
// Wire format
// ---------------------------------------------------------------------------

/// Decimal ASCII digits of `n`, without leading zeros.
pub open spec fn dec_digits(n: nat) -> Seq<u8>
    decreases n,
{
    if n < 10 {
        seq![(48 + n) as u8]
    } else {
        dec_digits(n / 10).push((48 + n % 10) as u8)
    }
}

/// Decimal ASCII text of a signed integer.
pub open spec fn i64_digits(v: i64) -> Seq<u8> {
    if v < 0 {
        seq![45u8] + dec_digits((-v) as nat)
    } else {
        dec_digits(v as nat)
    }
}

/// Six zero-padded decimal digits of `n` modulo 1,000,000.
pub open spec fn pad6_digits(n: nat) -> Seq<u8> {
    seq![
        (48 + (n / 100000) % 10) as u8,
        (48 + (n / 10000) % 10) as u8,
        (48 + (n / 1000) % 10) as u8,
        (48 + (n / 100) % 10) as u8,
        (48 + (n / 10) % 10) as u8,
        (48 + n % 10) as u8,
    ]
}

/// One field on the wire: `tag=value` then SOH.
pub open spec fn field_bytes(tag: u32, value: Seq<u8>) -> Seq<u8> {
    dec_digits(tag as nat) + seq![EQUALS] + value + seq![SOH]
}

/// Fields on the wire, one after the other.
pub open spec fn fields_bytes(fields: Seq<(u32, Seq<u8>)>) -> Seq<u8>
    decreases fields.len(),
{
    if fields.len() == 0 {
        Seq::empty()
    } else {
        field_bytes(fields[0].0, fields[0].1) + fields_bytes(fields.drop_first())
    }
}

/// A field with an unsigned integer value.
pub open spec fn u64_field(tag: u32, value: u64) -> Seq<u8> {
    field_bytes(tag, dec_digits(value as nat))
}

/// A field with a signed integer value.
pub open spec fn i64_field(tag: u32, value: i64) -> Seq<u8> {
    field_bytes(tag, i64_digits(value))
}

/// The placeholder `begin` writes for the BodyLength field.
pub open spec fn body_length_placeholder() -> Seq<u8> {
    seq![57u8, EQUALS, 48u8, 48u8, 48u8, 48u8, 48u8, 48u8, SOH]
}

/// The CheckSum field of the bytes `content`.
pub open spec fn checksum_field(content: Seq<u8>) -> Seq<u8> {
    seq![49u8, 48u8, EQUALS] + spec_checksum_digits(spec_checksum(content)) + seq![SOH]
}

/// A complete FIX message: BeginString, BodyLength, MsgType, the fields
/// `body_fields` (already on the wire), then CheckSum. BodyLength counts the
/// bytes from MsgType through the last body field, modulo 1,000,000 (six
/// digits); CheckSum is computed over everything before it.
pub open spec fn spec_fix_message(begin_string: Seq<u8>, msg_type: Seq<u8>, body_fields: Seq<u8>) -> Seq<
    u8,
> {
    let body = field_bytes(tags::MSG_TYPE, msg_type) + body_fields;
    let content = field_bytes(tags::BEGIN_STRING, begin_string) + seq![57u8, EQUALS] + pad6_digits(
        body.len(),
    ) + seq![SOH] + body;
    content + checksum_field(content)
}

/// `d` preceded by as many `0` digits as make it `width` long.
pub open spec fn zero_padded(d: Seq<u8>, width: nat) -> Seq<u8> {
    Seq::new((width - d.len()) as nat, |_i: int| 48u8) + d
}

/// A number below 1,000,000 in six digits is its decimal digits padded
/// with zeros: what `pad6_digits` writes is the number itself.
pub proof fn lemma_pad6_is_zero_padded(n: nat)
    requires
        n < 1_000_000,
    ensures
        n < 10 ==> dec_digits(n).len() <= 1,
        n < 100 ==> dec_digits(n).len() <= 2,
        n < 1000 ==> dec_digits(n).len() <= 3,
        n < 10000 ==> dec_digits(n).len() <= 4,
        n < 100000 ==> dec_digits(n).len() <= 5,
        dec_digits(n).len() <= 6,
        pad6_digits(n) == zero_padded(dec_digits(n), 6),
    decreases n,
{
    if n < 10 {
        assert(pad6_digits(n) =~= zero_padded(dec_digits(n), 6));
    } else {
        let m = n / 10;
        lemma_pad6_is_zero_padded(m);
        let d = (48 + n % 10) as u8;
        assert(dec_digits(n) == dec_digits(m).push(d));
        assert(m / 10 == n / 100);
        assert(m / 100 == n / 1000);
        assert(m / 1000 == n / 10000);
        assert(m / 10000 == n / 100000);
        assert(m % 10 == (n / 10) % 10);
        assert(pad6_digits(n) =~= pad6_digits(m).drop_first().push(d));
        assert(zero_padded(dec_digits(n), 6) =~= zero_padded(dec_digits(m), 6).drop_first().push(d));
    }
}

/// The BodyLength of a message whose body (MsgType through the last body
/// field) is shorter than 1,000,000 bytes is that length in decimal, padded
/// with zeros to six digits; it follows the BeginString field.
pub proof fn lemma_body_length_field(begin_string: Seq<u8>, msg_type: Seq<u8>, body_fields: Seq<u8>)
    requires
        (field_bytes(tags::MSG_TYPE, msg_type) + body_fields).len() < 1_000_000,
    ensures
        ({
            let h = field_bytes(tags::BEGIN_STRING, begin_string).len();
            let b = (field_bytes(tags::MSG_TYPE, msg_type) + body_fields).len();
            spec_fix_message(begin_string, msg_type, body_fields).subrange(h as int, h + 9int) == seq![
                57u8,
                EQUALS,
            ] + zero_padded(dec_digits(b), 6) + seq![SOH]
        }),
{
    let h = field_bytes(tags::BEGIN_STRING, begin_string).len();
    let b = (field_bytes(tags::MSG_TYPE, msg_type) + body_fields).len();
    lemma_pad6_is_zero_padded(b);
    assert(spec_fix_message(begin_string, msg_type, body_fields).subrange(h as int, h + 9int) =~= seq![
        57u8,
        EQUALS,
    ] + pad6_digits(b) + seq![SOH]);
}

/// Splicing `data` into `s` at `pos`.
pub open spec fn splice(s: Seq<u8>, pos: int, data: Seq<u8>) -> Seq<u8> {
    s.take(pos) + data + s.skip(pos + data.len())
}

/// Decimal digits of `v`.
pub(crate) fn u64_digits(v: u64) -> (d: Vec<u8>)
    ensures
        d@ == dec_digits(v as nat),
{
    let mut out: Vec<u8> = Vec::new();
    let mut val = v;
    assert(dec_digits(v as nat) =~= dec_digits(val as nat) + out@);
    while val >= 10
        invariant
            dec_digits(v as nat) == dec_digits(val as nat) + out@,
        decreases val,
    {
        let d = 48u8 + (val % 10) as u8;
        out.insert(0, d);
        assert(dec_digits(val as nat) == dec_digits((val / 10) as nat).push(d));
        val = val / 10;
        assert(dec_digits(v as nat) =~= dec_digits(val as nat) + out@);
    }
    let d = 48u8 + val as u8;
    out.insert(0, d);
    assert(dec_digits(v as nat) =~= out@);
    out
}

/// Decimal text of `v`, with a leading `-` when negative.
pub(crate) fn i64_text(v: i64) -> (d: Vec<u8>)
    ensures
        d@ == i64_digits(v),
{
    if v < 0 {
        let mag = 0u64.wrapping_sub(v as u64);
        assert(mag as i128 == -(v as i128)) by (bit_vector)
            requires
                v < 0,
                mag == 0u64.wrapping_sub(v as u64),
        ;
        let mut out: Vec<u8> = Vec::new();
        out.push(45u8);
        let mut digits = u64_digits(mag);
        out.append(&mut digits);
        assert(out@ =~= i64_digits(v));
        out
    } else {
        u64_digits(v as u64)
    }
}

/// Six zero-padded digits of `n` modulo 1,000,000.
fn pad6(n: usize) -> (d: [u8; 6])
    ensures
        d@ == pad6_digits(n as nat),
{
    let d = [
        48u8 + ((n / 100000) % 10) as u8,
        48u8 + ((n / 10000) % 10) as u8,
        48u8 + ((n / 1000) % 10) as u8,
        48u8 + ((n / 100) % 10) as u8,
        48u8 + ((n / 10) % 10) as u8,
        48u8 + (n % 10) as u8,
    ];
    assert(d@ =~= pad6_digits(n as nat));
    d
}

// ---------------------------------------------------------------------------
// Writing in place
// ---------------------------------------------------------------------------

/// Writes `data` into `buf` at `pos`; the position after it.
fn put_bytes(buf: &mut [u8], pos: usize, data: &[u8]) -> (p: usize)
    requires
        pos + data@.len() <= old(buf)@.len(),
    ensures
        final(buf)@ == splice(old(buf)@, pos as int, data@),
        p == pos + data@.len(),
{
    let ghost b0 = buf@;
    let blen = buf.len();
    let mut i: usize = 0;
    while i < data.len()
        invariant
            0 <= i <= data@.len(),
            blen == b0.len(),
            pos + data@.len() <= b0.len(),
            buf@.len() == b0.len(),
            forall|j: int| 0 <= j < i ==> buf@[pos + j] == data@[j],
            forall|j: int|
                0 <= j < buf@.len() && !(pos <= j < pos + i) ==> buf@[j] == b0[j],
        decreases data@.len() - i,
    {
        buf[pos + i] = data[i];
        i = i + 1;
    }
    assert(buf@ =~= splice(b0, pos as int, data@));
    pos + data.len()
}

/// Writes the byte `b` into `buf` at `pos`; the position after it.
fn put_byte(buf: &mut [u8], pos: usize, b: u8) -> (p: usize)
    requires
        pos < old(buf)@.len(),
    ensures
        final(buf)@ == splice(old(buf)@, pos as int, seq![b]),
        p == pos + 1,
{
    buf[pos] = b;
    assert(final(buf)@ =~= splice(old(buf)@, pos as int, seq![b]));
    pos + 1
}

/// The decimal digits of `n` are one more than those of `n / 10`, for
/// `n` of two digits or more.
proof fn lemma_dec_digits_step(n: nat)
    requires
        n >= 10,
    ensures
        dec_digits(n) == dec_digits(n / 10).push((48 + n % 10) as u8),
        dec_digits(n).len() == dec_digits(n / 10).len() + 1,
{
}

/// A number has at least one decimal digit.
proof fn lemma_dec_digits_nonempty(n: nat)
    ensures
        dec_digits(n).len() >= 1,
{
}

/// Writes the decimal digits of `v` into `buf` at `pos`, without any
/// allocation; the position after them.
fn put_u64(buf: &mut [u8], pos: usize, v: u64) -> (p: usize)
    requires
        pos + dec_digits(v as nat).len() <= old(buf)@.len(),
    ensures
        final(buf)@ == splice(old(buf)@, pos as int, dec_digits(v as nat)),
        p == pos + dec_digits(v as nat).len(),
{
    let ghost b0 = buf@;
    let ghost all = dec_digits(v as nat);
    let blen = buf.len();
    let mut len: usize = 1;
    let mut t = v;
    proof {
        lemma_dec_digits_nonempty(v as nat);
    }
    while t >= 10
        invariant
            1 <= len,
            all.len() == dec_digits(t as nat).len() + len - 1,
            pos + all.len() <= b0.len(),
            blen == b0.len(),
        decreases t,
    {
        proof {
            lemma_dec_digits_step(t as nat);
            lemma_dec_digits_nonempty((t / 10) as nat);
        }
        t = t / 10;
        len = len + 1;
    }
    let end = pos + len;
    let mut q = end;
    let mut val = v;
    assert(buf@.subrange(q as int, end as int) =~= Seq::<u8>::empty());
    assert(all =~= dec_digits(val as nat) + buf@.subrange(q as int, end as int));
    while val >= 10
        invariant
            end == pos + all.len(),
            end <= b0.len(),
            all == dec_digits(val as nat) + buf@.subrange(q as int, end as int),
            q == pos + dec_digits(val as nat).len(),
            buf@.len() == b0.len(),
            forall|j: int| 0 <= j < buf@.len() && !(q <= j < end) ==> buf@[j] == b0[j],
        decreases val,
    {
        proof {
            lemma_dec_digits_step(val as nat);
        }
        let d = 48u8 + (val % 10) as u8;
        let ghost tail = buf@.subrange(q as int, end as int);
        q = q - 1;
        buf[q] = d;
        assert(buf@.subrange(q as int, end as int) =~= seq![d] + tail);
        val = val / 10;
        assert(all =~= dec_digits(val as nat) + buf@.subrange(q as int, end as int));
    }
    let ghost tail = buf@.subrange(q as int, end as int);
    q = q - 1;
    buf[q] = 48u8 + val as u8;
    assert(buf@.subrange(q as int, end as int) =~= seq![(48 + val) as u8] + tail);
    assert(q == pos);
    assert(buf@ =~= splice(b0, pos as int, all));
    end
}

/// Writes the decimal text of `v`, with a leading `-` when negative, into
/// `buf` at `pos`, without any allocation; the position after it.
fn put_i64(buf: &mut [u8], pos: usize, v: i64) -> (p: usize)
    requires
        pos + i64_digits(v).len() <= old(buf)@.len(),
    ensures
        final(buf)@ == splice(old(buf)@, pos as int, i64_digits(v)),
        p == pos + i64_digits(v).len(),
{
    if v < 0 {
        let ghost b0 = buf@;
        let mag = 0u64.wrapping_sub(v as u64);
        assert(mag as i128 == -(v as i128)) by (bit_vector)
            requires
                v < 0,
                mag == 0u64.wrapping_sub(v as u64),
        ;
        let p1 = put_byte(buf, pos, 45u8);
        let p2 = put_u64(buf, p1, mag);
        proof {
            lemma_splice_twice(b0, pos as int, seq![45u8], dec_digits(mag as nat));
            assert(seq![45u8] + dec_digits(mag as nat) =~= i64_digits(v));
        }
        p2
    } else {
        put_u64(buf, pos, v as u64)
    }
}

/// Writes the field `tag=value` and SOH into `buf` at `pos`, without any
/// allocation; the position after it.
fn put_field(buf: &mut [u8], pos: usize, tag: u32, value: &[u8]) -> (p: usize)
    requires
        pos + field_bytes(tag, value@).len() <= old(buf)@.len(),
    ensures
        final(buf)@ == splice(old(buf)@, pos as int, field_bytes(tag, value@)),
        p == pos + field_bytes(tag, value@).len(),
{
    let ghost b0 = buf@;
    let ghost t = dec_digits(tag as nat);
    let p1 = put_u64(buf, pos, tag as u64);
    let p2 = put_byte(buf, p1, EQUALS);
    proof {
        lemma_splice_twice(b0, pos as int, t, seq![EQUALS]);
    }
    let p3 = put_bytes(buf, p2, value);
    proof {
        lemma_splice_twice(b0, pos as int, t + seq![EQUALS], value@);
    }
    let p4 = put_byte(buf, p3, SOH);
    proof {
        lemma_splice_twice(b0, pos as int, t + seq![EQUALS] + value@, seq![SOH]);
        assert(t + seq![EQUALS] + value@ + seq![SOH] =~= field_bytes(tag, value@));
    }
    p4
}

/// Writes a field with an unsigned integer value into `buf` at `pos`,
/// without any allocation; the position after it.
fn put_u64_field(buf: &mut [u8], pos: usize, tag: u32, value: u64) -> (p: usize)
    requires
        pos + u64_field(tag, value).len() <= old(buf)@.len(),
    ensures
        final(buf)@ == splice(old(buf)@, pos as int, u64_field(tag, value)),
        p == pos + u64_field(tag, value).len(),
{
    let ghost b0 = buf@;
    let ghost t = dec_digits(tag as nat);
    let ghost v = dec_digits(value as nat);
    let p1 = put_u64(buf, pos, tag as u64);
    let p2 = put_byte(buf, p1, EQUALS);
    proof {
        lemma_splice_twice(b0, pos as int, t, seq![EQUALS]);
    }
    let p3 = put_u64(buf, p2, value);
    proof {
        lemma_splice_twice(b0, pos as int, t + seq![EQUALS], v);
    }
    let p4 = put_byte(buf, p3, SOH);
    proof {
        lemma_splice_twice(b0, pos as int, t + seq![EQUALS] + v, seq![SOH]);
        assert(t + seq![EQUALS] + v + seq![SOH] =~= u64_field(tag, value));
    }
    p4
}

/// Writes a field with a signed integer value into `buf` at `pos`, without
/// any allocation; the position after it.
fn put_i64_field(buf: &mut [u8], pos: usize, tag: u32, value: i64) -> (p: usize)
    requires
        pos + i64_field(tag, value).len() <= old(buf)@.len(),
    ensures
        final(buf)@ == splice(old(buf)@, pos as int, i64_field(tag, value)),
        p == pos + i64_field(tag, value).len(),
{
    let ghost b0 = buf@;
    let ghost t = dec_digits(tag as nat);
    let ghost v = i64_digits(value);
    let p1 = put_u64(buf, pos, tag as u64);
    let p2 = put_byte(buf, p1, EQUALS);
    proof {
        lemma_splice_twice(b0, pos as int, t, seq![EQUALS]);
    }
    let p3 = put_i64(buf, p2, value);
    proof {
        lemma_splice_twice(b0, pos as int, t + seq![EQUALS], v);
    }
    let p4 = put_byte(buf, p3, SOH);
    proof {
        lemma_splice_twice(b0, pos as int, t + seq![EQUALS] + v, seq![SOH]);
        assert(t + seq![EQUALS] + v + seq![SOH] =~= i64_field(tag, value));
    }
    p4
}

// ---------------------------------------------------------------------------
// Serializer
// ---------------------------------------------------------------------------

/// FIX message serializer. Writes into a buffer it owns until
/// `into_buffer` hands it back.
pub struct FixSerializer {
    buffer: Vec<u8>,
    pos: usize,
    body_start: usize,
}

/// The state of a serializer: its buffer, the write position, and where the
/// body (MsgType onwards) starts.
pub ghost struct SerializerModel {
    pub buffer: Seq<u8>,
    pub pos: nat,
    pub body_start: nat,
}

impl View for FixSerializer {
    type V = SerializerModel;

    closed spec fn view(&self) -> SerializerModel {
        SerializerModel { buffer: self.buffer@, pos: self.pos as nat, body_start: self.body_start as nat }
    }
}

/// `after` is `before` with `data` written at its write position.
pub open spec fn wrote(before: SerializerModel, after: SerializerModel, data: Seq<u8>) -> bool {
    &&& after.buffer == splice(before.buffer, before.pos as int, data)
    &&& after.pos == before.pos + data.len()
    &&& after.body_start == before.body_start
    &&& after.buffer.len() == before.buffer.len()
}

impl FixSerializer {
    /// A serializer writing into `buffer` from its start.
    pub fn new(buffer: Vec<u8>) -> (s: Self)
        ensures
            s@ == (SerializerModel { buffer: buffer@, pos: 0, body_start: 0 }),
    {
        FixSerializer { buffer, pos: 0, body_start: 0 }
    }

    /// Gives the buffer back.
    pub fn into_buffer(self) -> (b: Vec<u8>)
        ensures
            b@ == self@.buffer,
    {
        self.buffer
    }

    /// Begins a message with the given BeginString and MsgType, reserving
    /// six digits for BodyLength; gives the serializer back for the next
    /// call.
    pub fn begin(&mut self, begin_string: &[u8], msg_type: &[u8]) -> (s: &mut Self)
        requires
            old(self)@.pos + field_bytes(tags::BEGIN_STRING, begin_string@).len() + 9
                + field_bytes(tags::MSG_TYPE, msg_type@).len() <= old(self)@.buffer.len(),
        ensures
            *final(self) == *final(s),
            s@.buffer == splice(
                old(self)@.buffer,
                old(self)@.pos as int,
                field_bytes(tags::BEGIN_STRING, begin_string@) + body_length_placeholder()
                    + field_bytes(tags::MSG_TYPE, msg_type@),
            ),
            s@.body_start == old(self)@.pos + field_bytes(tags::BEGIN_STRING, begin_string@).len()
                + 9,
            s@.pos == s@.body_start + field_bytes(tags::MSG_TYPE, msg_type@).len(),
            s@.buffer.len() == old(self)@.buffer.len(),
    {
        let ghost s0 = self@;
        self.write_tag_value(tags::BEGIN_STRING, begin_string);
        let ghost s1 = self@;
        let placeholder = [57u8, EQUALS, 48u8, 48u8, 48u8, 48u8, 48u8, 48u8, SOH];
        assert(placeholder@ =~= body_length_placeholder());
        self.write_bytes(placeholder.as_slice());
        self.body_start = self.pos;
        let ghost s2 = self@;
        self.write_tag_value(tags::MSG_TYPE, msg_type);
        proof {
            lemma_splice_twice(s0.buffer, s0.pos as int, field_bytes(tags::BEGIN_STRING, begin_string@), body_length_placeholder());
            lemma_splice_twice(s0.buffer, s0.pos as int, field_bytes(tags::BEGIN_STRING, begin_string@) + body_length_placeholder(), field_bytes(tags::MSG_TYPE, msg_type@));
            assert(field_bytes(tags::BEGIN_STRING, begin_string@) + body_length_placeholder()
                + field_bytes(tags::MSG_TYPE, msg_type@) =~= field_bytes(tags::BEGIN_STRING, begin_string@) + (body_length_placeholder()
                + field_bytes(tags::MSG_TYPE, msg_type@)));
        }
        self
    }

    /// Adds a field with a byte-string value; gives the serializer back for
    /// the next call.
    pub fn add_str(&mut self, tag: u32, value: &[u8]) -> (s: &mut Self)
        requires
            old(self)@.pos + field_bytes(tag, value@).len() <= old(self)@.buffer.len(),
        ensures
            wrote(old(self)@, s@, field_bytes(tag, value@)),
            *final(self) == *final(s),
    {
        self.write_tag_value(tag, value);
        self
    }

    /// Adds a field with a signed integer value; gives the serializer back
    /// for the next call.
    pub fn add_int(&mut self, tag: u32, value: i64) -> (s: &mut Self)
        requires
            old(self)@.pos + i64_field(tag, value).len() <= old(self)@.buffer.len(),
        ensures
            wrote(old(self)@, s@, i64_field(tag, value)),
            *final(self) == *final(s),
    {
        let pos = self.pos;
        self.pos = put_i64_field(self.buffer.as_mut_slice(), pos, tag, value);
        self
    }

    /// Adds a field with an unsigned integer value; gives the serializer
    /// back for the next call.
    pub fn add_u64(&mut self, tag: u32, value: u64) -> (s: &mut Self)
        requires
            old(self)@.pos + u64_field(tag, value).len() <= old(self)@.buffer.len(),
        ensures
            wrote(old(self)@, s@, u64_field(tag, value)),
            *final(self) == *final(s),
    {
        let pos = self.pos;
        self.pos = put_u64_field(self.buffer.as_mut_slice(), pos, tag, value);
        self
    }

    /// Finalizes the message: writes the BodyLength (the bytes since the
    /// reserved BodyLength field) into its six reserved digits, then appends
    /// the CheckSum of everything written. Returns the message length.
    pub fn finalize(&mut self) -> (n: usize)
        requires
            9 <= old(self)@.body_start <= old(self)@.pos,
            old(self)@.pos + 7 <= old(self)@.buffer.len(),
        ensures
            ({
                let s = old(self)@;
                let content = splice(
                    s.buffer.take(s.pos as int),
                    s.body_start - 7,
                    pad6_digits((s.pos - s.body_start) as nat),
                );
                &&& final(self)@.buffer == splice(
                    splice(s.buffer, s.body_start - 7, pad6_digits((s.pos - s.body_start) as nat)),
                    s.pos as int,
                    checksum_field(content),
                )
                &&& final(self)@.pos == s.pos + 7
                &&& final(self)@.body_start == s.body_start
                &&& final(self)@.buffer.len() == s.buffer.len()
                &&& n == s.pos + 7
                &&& final(self)@.buffer.take(n as int) == content + checksum_field(content)
            }),
    {
        let ghost s = self@;
        let body_length = self.pos - self.body_start;
        let bl = pad6(body_length);
        let bl_start = self.body_start - 7;
        let mut i: usize = 0;
        while i < 6
            invariant
                0 <= i <= 6,
                bl@ == pad6_digits(body_length as nat),
                bl_start + 7 == self.body_start,
                self.body_start <= self.pos,
                self.pos + 7 <= self.buffer@.len(),
                self.pos == s.pos && self.body_start == s.body_start,
                self.buffer@.len() == s.buffer.len(),
                forall|j: int| 0 <= j < i ==> self.buffer@[bl_start + j] == bl@[j],
                forall|j: int|
                    0 <= j < self.buffer@.len() && !(bl_start <= j < bl_start + i)
                        ==> self.buffer@[j] == s.buffer[j],
            decreases 6 - i,
        {
            self.buffer.set(bl_start + i, bl[i]);
            i = i + 1;
        }
        let ghost patched = self.buffer@;
        assert(patched =~= splice(s.buffer, bl_start as int, pad6_digits(body_length as nat)));
        let body_end = self.pos;
        let cs = checksum::compute(vstd::slice::slice_subrange(self.buffer.as_slice(), 0, body_end));
        let cs_buf = checksum::format(cs);
        let ghost content = patched.take(body_end as int);
        assert(content =~= splice(s.buffer.take(s.pos as int), bl_start as int, pad6_digits(body_length as nat)));
        let trailer = [49u8, 48u8, EQUALS, cs_buf[0], cs_buf[1], cs_buf[2], SOH];
        assert(trailer@ =~= checksum_field(content));
        self.write_bytes(trailer.as_slice());
        assert(self.buffer@.take(self.pos as int) =~= content + checksum_field(content));
        self.pos
    }

    /// The bytes written so far.
    pub fn as_bytes(&self) -> (b: &[u8])
        requires
            self@.pos <= self@.buffer.len(),
        ensures
            b@ == self@.buffer.take(self@.pos as int),
    {
        vstd::slice::slice_subrange(self.buffer.as_slice(), 0, self.pos)
    }

    /// The current write position.
    pub fn position(&self) -> (p: usize)
        ensures
            p == self@.pos,
    {
        self.pos
    }

    fn write_tag_value(&mut self, tag: u32, value: &[u8])
        requires
            old(self)@.pos + field_bytes(tag, value@).len() <= old(self)@.buffer.len(),
        ensures
            wrote(old(self)@, final(self)@, field_bytes(tag, value@)),
    {
        let pos = self.pos;
        self.pos = put_field(self.buffer.as_mut_slice(), pos, tag, value);
    }

    fn write_bytes(&mut self, data: &[u8])
        requires
            old(self)@.pos + data@.len() <= old(self)@.buffer.len(),
        ensures
            wrote(old(self)@, final(self)@, data@),
    {
        let ghost s = self@;
        let blen = self.buffer.len();
        let mut i: usize = 0;
        while i < data.len()
            invariant
                0 <= i <= data@.len(),
                blen == s.buffer.len(),
                s.pos + data@.len() <= s.buffer.len(),
                self.pos == s.pos && self.body_start == s.body_start,
                self.buffer@.len() == s.buffer.len(),
                forall|j: int| 0 <= j < i ==> self.buffer@[s.pos + j] == data@[j],
                forall|j: int|
                    0 <= j < self.buffer@.len() && !(s.pos <= j < s.pos + i) ==> self.buffer@[j]
                        == s.buffer[j],
            decreases data@.len() - i,
        {
            self.buffer.set(self.pos + i, data[i]);
            i = i + 1;
        }
        self.pos = self.pos + data.len();
        assert(self.buffer@ =~= splice(s.buffer, s.pos as int, data@));
    }
}

/// Splicing `a` then `b` right after it is splicing `a + b`.
proof fn lemma_splice_twice(s: Seq<u8>, pos: int, a: Seq<u8>, b: Seq<u8>)
    requires
        0 <= pos,
        pos + a.len() + b.len() <= s.len(),
    ensures
        splice(splice(s, pos, a), pos + a.len(), b) == splice(s, pos, a + b),
{
    assert(splice(splice(s, pos, a), pos + a.len(), b) =~= splice(s, pos, a + b));
}

// ---------------------------------------------------------------------------
// Messages
// ---------------------------------------------------------------------------

/// `after` holds `msg` at its front; the rest of the buffer is as `before`.
pub open spec fn message_written(before: Seq<u8>, after: Seq<u8>, n: usize, msg: Seq<u8>) -> bool {
    &&& n == msg.len()
    &&& after.len() == before.len()
    &&& after.take(n as int) == msg
    &&& after.skip(n as int) == before.skip(n as int)
}

/// Appends a field with a byte-string value.
fn push_field(out: &mut Vec<u8>, tag: u32, value: &[u8])
    ensures
        final(out)@ == old(out)@ + field_bytes(tag, value@),
{
    let mut digits = u64_digits(tag as u64);
    out.append(&mut digits);
    out.push(EQUALS);
    out.extend_from_slice(value);
    out.push(SOH);
    assert(final(out)@ =~= old(out)@ + field_bytes(tag, value@));
}

/// Appends a field with an unsigned integer value.
fn push_u64_field(out: &mut Vec<u8>, tag: u32, value: u64)
    ensures
        final(out)@ == old(out)@ + u64_field(tag, value),
{
    let text = u64_digits(value);
    push_field(out, tag, text.as_slice());
}

/// Appends a field with a signed integer value.
fn push_i64_field(out: &mut Vec<u8>, tag: u32, value: i64)
    ensures
        final(out)@ == old(out)@ + i64_field(tag, value),
{
    let text = i64_text(value);
    push_field(out, tag, text.as_slice());
}

/// The message with BeginString `begin_string`, MsgType `msg_type` and body
/// fields `body`, in a buffer of its own.
pub fn fix_message(begin_string: &[u8], msg_type: &[u8], body: &[u8]) -> (m: Vec<u8>)
    ensures
        m@ == spec_fix_message(begin_string@, msg_type@, body@),
{
    let mut body_all: Vec<u8> = Vec::new();
    push_field(&mut body_all, tags::MSG_TYPE, msg_type);
    body_all.extend_from_slice(body);
    let mut out: Vec<u8> = Vec::new();
    push_field(&mut out, tags::BEGIN_STRING, begin_string);
    out.push(57u8);
    out.push(EQUALS);
    let length = pad6(body_all.len());
    out.extend_from_slice(length.as_slice());
    out.push(SOH);
    out.append(&mut body_all);
    let ghost content = out@;
    assert(content =~= field_bytes(tags::BEGIN_STRING, begin_string@) + seq![57u8, EQUALS]
        + pad6_digits((field_bytes(tags::MSG_TYPE, msg_type@) + body@).len()) + seq![SOH] + (
    field_bytes(tags::MSG_TYPE, msg_type@) + body@));
    let cs = checksum::compute(out.as_slice());
    let digits = checksum::format(cs);
    out.push(49u8);
    out.push(48u8);
    out.push(EQUALS);
    out.push(digits[0]);
    out.push(digits[1]);
    out.push(digits[2]);
    out.push(SOH);
    assert(out@ =~= content + checksum_field(content));
    out
}

/// The standard header fields after MsgType: SenderCompID, TargetCompID,
/// MsgSeqNum, SendingTime.
pub open spec fn standard_header_fields(sender: Seq<u8>, target: Seq<u8>, seq_num: u64, sending_time: Seq<u8>) -> Seq<u8> {
    field_bytes(tags::SENDER_COMP_ID, sender) + field_bytes(tags::TARGET_COMP_ID, target)
        + u64_field(tags::MSG_SEQ_NUM, seq_num) + field_bytes(tags::SENDING_TIME, sending_time)
}

/// The standard header fields every builder writes first: SenderCompID,
/// TargetCompID, MsgSeqNum, SendingTime.
fn push_standard_header(out: &mut Vec<u8>, sender: &[u8], target: &[u8], seq_num: u64, sending_time: &[u8])
    ensures
        final(out)@ == old(out)@ + standard_header_fields(sender@, target@, seq_num, sending_time@),
{
    push_field(out, tags::SENDER_COMP_ID, sender);
    push_field(out, tags::TARGET_COMP_ID, target);
    push_u64_field(out, tags::MSG_SEQ_NUM, seq_num);
    push_field(out, tags::SENDING_TIME, sending_time);
    assert(final(out)@ =~= old(out)@ + standard_header_fields(sender@, target@, seq_num, sending_time@));
}

/// What `begin` writes: BeginString, the reserved BodyLength, and MsgType.
pub open spec fn message_head(begin_string: Seq<u8>, msg_type: Seq<u8>) -> Seq<u8> {
    field_bytes(tags::BEGIN_STRING, begin_string) + body_length_placeholder() + field_bytes(
        tags::MSG_TYPE,
        msg_type,
    )
}

/// Writes the head of a message at the front of `buf`: the position after
/// it, and where the body (MsgType onwards) starts.
fn start_message(buf: &mut [u8], begin_string: &[u8], msg_type: &[u8]) -> (r: (usize, usize))
    requires
        message_head(begin_string@, msg_type@).len() <= old(buf)@.len(),
    ensures
        final(buf)@ == splice(old(buf)@, 0, message_head(begin_string@, msg_type@)),
        r.0 == message_head(begin_string@, msg_type@).len(),
        r.1 == field_bytes(tags::BEGIN_STRING, begin_string@).len() + 9,
{
    let ghost b0 = buf@;
    let ghost f8 = field_bytes(tags::BEGIN_STRING, begin_string@);
    let p1 = put_field(buf, 0, tags::BEGIN_STRING, begin_string);
    let placeholder = [57u8, EQUALS, 48u8, 48u8, 48u8, 48u8, 48u8, 48u8, SOH];
    assert(placeholder@ =~= body_length_placeholder());
    let p2 = put_bytes(buf, p1, placeholder.as_slice());
    proof {
        lemma_splice_twice(b0, 0, f8, body_length_placeholder());
    }
    let p3 = put_field(buf, p2, tags::MSG_TYPE, msg_type);
    proof {
        lemma_splice_twice(b0, 0, f8 + body_length_placeholder(), field_bytes(tags::MSG_TYPE, msg_type@));
    }
    (p3, p2)
}

/// Appends a field after the bytes `prefix` already written at the front
/// of `buf`.
fn append_field(buf: &mut [u8], pos: usize, tag: u32, value: &[u8], Ghost(b0): Ghost<Seq<u8>>, Ghost(prefix): Ghost<Seq<u8>>) -> (p: usize)
    requires
        old(buf)@ == splice(b0, 0, prefix),
        pos == prefix.len(),
        pos + field_bytes(tag, value@).len() <= b0.len(),
    ensures
        final(buf)@ == splice(b0, 0, prefix + field_bytes(tag, value@)),
        p == pos + field_bytes(tag, value@).len(),
{
    let p = put_field(buf, pos, tag, value);
    proof {
        lemma_splice_twice(b0, 0, prefix, field_bytes(tag, value@));
    }
    p
}

/// Appends a field with an unsigned integer value after the bytes `prefix`.
fn append_u64_field(buf: &mut [u8], pos: usize, tag: u32, value: u64, Ghost(b0): Ghost<Seq<u8>>, Ghost(prefix): Ghost<Seq<u8>>) -> (p: usize)
    requires
        old(buf)@ == splice(b0, 0, prefix),
        pos == prefix.len(),
        pos + u64_field(tag, value).len() <= b0.len(),
    ensures
        final(buf)@ == splice(b0, 0, prefix + u64_field(tag, value)),
        p == pos + u64_field(tag, value).len(),
{
    let p = put_u64_field(buf, pos, tag, value);
    proof {
        lemma_splice_twice(b0, 0, prefix, u64_field(tag, value));
    }
    p
}

/// Appends a field with a signed integer value after the bytes `prefix`.
fn append_i64_field(buf: &mut [u8], pos: usize, tag: u32, value: i64, Ghost(b0): Ghost<Seq<u8>>, Ghost(prefix): Ghost<Seq<u8>>) -> (p: usize)
    requires
        old(buf)@ == splice(b0, 0, prefix),
        pos == prefix.len(),
        pos + i64_field(tag, value).len() <= b0.len(),
    ensures
        final(buf)@ == splice(b0, 0, prefix + i64_field(tag, value)),
        p == pos + i64_field(tag, value).len(),
{
    let p = put_i64_field(buf, pos, tag, value);
    proof {
        lemma_splice_twice(b0, 0, prefix, i64_field(tag, value));
    }
    p
}

/// Appends the standard header fields after the bytes `prefix`.
fn append_standard_header(
    buf: &mut [u8],
    pos: usize,
    sender: &[u8],
    target: &[u8],
    seq_num: u64,
    sending_time: &[u8],
    Ghost(b0): Ghost<Seq<u8>>,
    Ghost(prefix): Ghost<Seq<u8>>,
) -> (p: usize)
    requires
        old(buf)@ == splice(b0, 0, prefix),
        pos == prefix.len(),
        pos + standard_header_fields(sender@, target@, seq_num, sending_time@).len() <= b0.len(),
    ensures
        final(buf)@ == splice(b0, 0, prefix + standard_header_fields(sender@, target@, seq_num, sending_time@)),
        p == pos + standard_header_fields(sender@, target@, seq_num, sending_time@).len(),
{
    let ghost a1 = prefix + field_bytes(tags::SENDER_COMP_ID, sender@);
    let ghost a2 = a1 + field_bytes(tags::TARGET_COMP_ID, target@);
    let ghost a3 = a2 + u64_field(tags::MSG_SEQ_NUM, seq_num);
    let p1 = append_field(buf, pos, tags::SENDER_COMP_ID, sender, Ghost(b0), Ghost(prefix));
    let p2 = append_field(buf, p1, tags::TARGET_COMP_ID, target, Ghost(b0), Ghost(a1));
    let p3 = append_u64_field(buf, p2, tags::MSG_SEQ_NUM, seq_num, Ghost(b0), Ghost(a2));
    let p4 = append_field(buf, p3, tags::SENDING_TIME, sending_time, Ghost(b0), Ghost(a3));
    assert(a3 + field_bytes(tags::SENDING_TIME, sending_time@) =~= prefix + standard_header_fields(
        sender@,
        target@,
        seq_num,
        sending_time@,
    ));
    p4
}

/// Completes the message whose head and body fields `body` are written at
/// the front of `buf`: fills in the BodyLength and appends the CheckSum,
/// without any allocation; the message length.
fn finish_message(
    buf: &mut [u8],
    pos: usize,
    body_start: usize,
    Ghost(b0): Ghost<Seq<u8>>,
    Ghost(begin_string): Ghost<Seq<u8>>,
    Ghost(msg_type): Ghost<Seq<u8>>,
    Ghost(body): Ghost<Seq<u8>>,
) -> (n: usize)
    requires
        old(buf)@ == splice(b0, 0, message_head(begin_string, msg_type) + body),
        pos == message_head(begin_string, msg_type).len() + body.len(),
        body_start == field_bytes(tags::BEGIN_STRING, begin_string).len() + 9,
        spec_fix_message(begin_string, msg_type, body).len() <= b0.len(),
    ensures
        message_written(b0, final(buf)@, n, spec_fix_message(begin_string, msg_type, body)),
{
    let ghost f8 = field_bytes(tags::BEGIN_STRING, begin_string);
    let ghost body_all = field_bytes(tags::MSG_TYPE, msg_type) + body;
    let ghost b1 = buf@;
    let bl = pad6(pos - body_start);
    let _ = put_bytes(buf, body_start - 7, bl.as_slice());
    let ghost content = f8 + seq![57u8, EQUALS] + pad6_digits(body_all.len()) + seq![SOH] + body_all;
    assert(pos - body_start == body_all.len());
    assert(buf@.take(pos as int) =~= content);
    let cs = checksum::compute(vstd::slice::slice_subrange(buf, 0, pos));
    let digits = checksum::format(cs);
    let trailer = [49u8, 48u8, EQUALS, digits[0], digits[1], digits[2], SOH];
    assert(trailer@ =~= checksum_field(content));
    let ghost b2 = buf@;
    let n = put_bytes(buf, pos, trailer.as_slice());
    assert(content + checksum_field(content) == spec_fix_message(begin_string, msg_type, body));
    assert(buf@.take(n as int) =~= content + checksum_field(content));
    assert(buf@.skip(n as int) =~= b0.skip(n as int));
    n
}

/// The view of an optional byte string.
pub open spec fn opt_bytes(o: Option<&[u8]>) -> Option<Seq<u8>> {
    match o {
        Some(b) => Some(b@),
        None => None,
    }
}

/// A field present only when a value is given.
pub open spec fn opt_field(tag: u32, value: Option<Seq<u8>>) -> Seq<u8> {
    match value {
        Some(v) => field_bytes(tag, v),
        None => Seq::empty(),
    }
}

/// An integer field present only when a value is given.
pub open spec fn opt_i64_field(tag: u32, value: Option<i64>) -> Seq<u8> {
    match value {
        Some(v) => i64_field(tag, v),
        None => Seq::empty(),
    }
}

/// The body fields of the Heartbeat (35=0) message.
pub open spec fn heartbeat_body(sender: Seq<u8>, target: Seq<u8>, seq_num: u64, sending_time: Seq<u8>) -> Seq<u8> {
    standard_header_fields(sender, target, seq_num, sending_time)
}

/// The Heartbeat (35=0) message.
pub open spec fn spec_heartbeat(begin_string: Seq<u8>, sender: Seq<u8>, target: Seq<u8>, seq_num: u64, sending_time: Seq<u8>) -> Seq<u8> {
    spec_fix_message(begin_string, seq![48u8], heartbeat_body(sender, target, seq_num, sending_time))
}

/// Writes the body fields of the Heartbeat (35=0) message after the bytes
/// `prefix` at the front of `buf`.
fn append_heartbeat_body(
    buf: &mut [u8],
    pos: usize,
    sender: &[u8],
    target: &[u8],
    seq_num: u64,
    sending_time: &[u8],
    Ghost(b0): Ghost<Seq<u8>>,
    Ghost(prefix): Ghost<Seq<u8>>,
) -> (p: usize)
    requires
        old(buf)@ == splice(b0, 0, prefix),
        pos == prefix.len(),
        pos + heartbeat_body(sender@, target@, seq_num, sending_time@).len() <= b0.len(),
    ensures
        final(buf)@ == splice(b0, 0, prefix + heartbeat_body(sender@, target@, seq_num, sending_time@)),
        p == pos + heartbeat_body(sender@, target@, seq_num, sending_time@).len(),
{
    let mut pos = pos;
    let ghost mut acc = prefix;
    pos = append_standard_header(buf, pos, sender, target, seq_num, sending_time, Ghost(b0), Ghost(acc));
    proof {
        acc = acc + standard_header_fields(sender@, target@, seq_num, sending_time@);
    }
    assert(acc =~= prefix + heartbeat_body(sender@, target@, seq_num, sending_time@));
    pos
}

/// Builds a Heartbeat (35=0) message at the front of `buf`, in place; the message
/// length.
pub fn build_heartbeat(
    buf: &mut [u8],
    begin_string: &[u8],
    sender: &[u8],
    target: &[u8],
    seq_num: u64,
    sending_time: &[u8],
) -> (n: usize)
    requires
        spec_heartbeat(begin_string@, sender@, target@, seq_num, sending_time@).len() <= old(buf)@.len(),
    ensures
        message_written(old(buf)@, final(buf)@, n, spec_heartbeat(begin_string@, sender@, target@, seq_num, sending_time@)),
{
    let ghost b0 = buf@;
    let msg_type = [48u8];
    assert(msg_type@ =~= seq![48u8]);
    let ghost head = message_head(begin_string@, msg_type@);
    let ghost body = heartbeat_body(sender@, target@, seq_num, sending_time@);
    let (pos, body_start): (usize, usize) = start_message(buf, begin_string, msg_type.as_slice());
    let end = append_heartbeat_body(buf, pos, sender, target, seq_num, sending_time, Ghost(b0), Ghost(head));
    finish_message(buf, end, body_start, Ghost(b0), Ghost(begin_string@), Ghost(msg_type@), Ghost(body))
}

/// The body fields of the Logon (35=A) message.
pub open spec fn logon_body(sender: Seq<u8>, target: Seq<u8>, seq_num: u64, sending_time: Seq<u8>, heartbeat_interval: i64) -> Seq<u8> {
    standard_header_fields(sender, target, seq_num, sending_time)
        + i64_field(tags::ENCRYPT_METHOD, 0i64)
        + i64_field(tags::HEARTBT_INT, heartbeat_interval)
}

/// The Logon (35=A) message.
pub open spec fn spec_logon(begin_string: Seq<u8>, sender: Seq<u8>, target: Seq<u8>, seq_num: u64, sending_time: Seq<u8>, heartbeat_interval: i64) -> Seq<u8> {
    spec_fix_message(begin_string, seq![65u8], logon_body(sender, target, seq_num, sending_time, heartbeat_interval))
}

/// The body fields of the Logon (35=A) message, on the wire.
pub(crate) fn logon_fields(
    sender: &[u8],
    target: &[u8],
    seq_num: u64,
    sending_time: &[u8],
    heartbeat_interval: i64,
) -> (body: Vec<u8>)
    ensures
        body@ == logon_body(sender@, target@, seq_num, sending_time@, heartbeat_interval),
{
    let mut body: Vec<u8> = Vec::new();
    push_standard_header(&mut body, sender, target, seq_num, sending_time);
    push_i64_field(&mut body, tags::ENCRYPT_METHOD, 0i64);
    push_i64_field(&mut body, tags::HEARTBT_INT, heartbeat_interval);
    assert(body@ =~= logon_body(sender@, target@, seq_num, sending_time@, heartbeat_interval));
    body
}

/// Writes the body fields of the Logon (35=A) message after the bytes
/// `prefix` at the front of `buf`.
fn append_logon_body(
    buf: &mut [u8],
    pos: usize,
    sender: &[u8],
    target: &[u8],
    seq_num: u64,
    sending_time: &[u8],
    heartbeat_interval: i64,
    Ghost(b0): Ghost<Seq<u8>>,
    Ghost(prefix): Ghost<Seq<u8>>,
) -> (p: usize)
    requires
        old(buf)@ == splice(b0, 0, prefix),
        pos == prefix.len(),
        pos + logon_body(sender@, target@, seq_num, sending_time@, heartbeat_interval).len() <= b0.len(),
    ensures
        final(buf)@ == splice(b0, 0, prefix + logon_body(sender@, target@, seq_num, sending_time@, heartbeat_interval)),
        p == pos + logon_body(sender@, target@, seq_num, sending_time@, heartbeat_interval).len(),
{
    let mut pos = pos;
    let ghost mut acc = prefix;
    pos = append_standard_header(buf, pos, sender, target, seq_num, sending_time, Ghost(b0), Ghost(acc));
    proof {
        acc = acc + standard_header_fields(sender@, target@, seq_num, sending_time@);
    }
    pos = append_i64_field(buf, pos, tags::ENCRYPT_METHOD, 0i64, Ghost(b0), Ghost(acc));
    proof {
        acc = acc + i64_field(tags::ENCRYPT_METHOD, 0i64);
    }
    pos = append_i64_field(buf, pos, tags::HEARTBT_INT, heartbeat_interval, Ghost(b0), Ghost(acc));
    proof {
        acc = acc + i64_field(tags::HEARTBT_INT, heartbeat_interval);
    }
    assert(acc =~= prefix + logon_body(sender@, target@, seq_num, sending_time@, heartbeat_interval));
    pos
}

/// Builds a Logon (35=A) message at the front of `buf`, in place; the message
/// length.
pub fn build_logon(
    buf: &mut [u8],
    begin_string: &[u8],
    sender: &[u8],
    target: &[u8],
    seq_num: u64,
    sending_time: &[u8],
    heartbeat_interval: i64,
) -> (n: usize)
    requires
        spec_logon(begin_string@, sender@, target@, seq_num, sending_time@, heartbeat_interval).len() <= old(buf)@.len(),
    ensures
        message_written(old(buf)@, final(buf)@, n, spec_logon(begin_string@, sender@, target@, seq_num, sending_time@, heartbeat_interval)),
{
    let ghost b0 = buf@;
    let msg_type = [65u8];
    assert(msg_type@ =~= seq![65u8]);
    let ghost head = message_head(begin_string@, msg_type@);
    let ghost body = logon_body(sender@, target@, seq_num, sending_time@, heartbeat_interval);
    let (pos, body_start): (usize, usize) = start_message(buf, begin_string, msg_type.as_slice());
    let end = append_logon_body(buf, pos, sender, target, seq_num, sending_time, heartbeat_interval, Ghost(b0), Ghost(head));
    finish_message(buf, end, body_start, Ghost(b0), Ghost(begin_string@), Ghost(msg_type@), Ghost(body))
}

/// The body fields of the Logon (35=A) with ResetSeqNumFlag=Y message.
pub open spec fn logon_with_reset_body(sender: Seq<u8>, target: Seq<u8>, seq_num: u64, sending_time: Seq<u8>, heartbeat_interval: i64) -> Seq<u8> {
    standard_header_fields(sender, target, seq_num, sending_time)
        + i64_field(tags::ENCRYPT_METHOD, 0i64)
        + i64_field(tags::HEARTBT_INT, heartbeat_interval)
        + field_bytes(tags::RESET_SEQ_NUM_FLAG, seq![89u8])
}

/// The Logon (35=A) with ResetSeqNumFlag=Y message.
pub open spec fn spec_logon_with_reset(begin_string: Seq<u8>, sender: Seq<u8>, target: Seq<u8>, seq_num: u64, sending_time: Seq<u8>, heartbeat_interval: i64) -> Seq<u8> {
    spec_fix_message(begin_string, seq![65u8], logon_with_reset_body(sender, target, seq_num, sending_time, heartbeat_interval))
}

/// The body fields of the Logon (35=A) with ResetSeqNumFlag=Y message, on the wire.
pub(crate) fn logon_with_reset_fields(
    sender: &[u8],
    target: &[u8],
    seq_num: u64,
    sending_time: &[u8],
    heartbeat_interval: i64,
) -> (body: Vec<u8>)
    ensures
        body@ == logon_with_reset_body(sender@, target@, seq_num, sending_time@, heartbeat_interval),
{
    let mut body: Vec<u8> = Vec::new();
    push_standard_header(&mut body, sender, target, seq_num, sending_time);
    push_i64_field(&mut body, tags::ENCRYPT_METHOD, 0i64);
    push_i64_field(&mut body, tags::HEARTBT_INT, heartbeat_interval);
    let value = [89u8];
    assert(value@ =~= seq![89u8]);
    push_field(&mut body, tags::RESET_SEQ_NUM_FLAG, value.as_slice());
    assert(body@ =~= logon_with_reset_body(sender@, target@, seq_num, sending_time@, heartbeat_interval));
    body
}

/// Writes the body fields of the Logon (35=A) with ResetSeqNumFlag=Y message after the bytes
/// `prefix` at the front of `buf`.
fn append_logon_with_reset_body(
    buf: &mut [u8],
    pos: usize,
    sender: &[u8],
    target: &[u8],
    seq_num: u64,
    sending_time: &[u8],
    heartbeat_interval: i64,
    Ghost(b0): Ghost<Seq<u8>>,
    Ghost(prefix): Ghost<Seq<u8>>,
) -> (p: usize)
    requires
        old(buf)@ == splice(b0, 0, prefix),
        pos == prefix.len(),
        pos + logon_with_reset_body(sender@, target@, seq_num, sending_time@, heartbeat_interval).len() <= b0.len(),
    ensures
        final(buf)@ == splice(b0, 0, prefix + logon_with_reset_body(sender@, target@, seq_num, sending_time@, heartbeat_interval)),
        p == pos + logon_with_reset_body(sender@, target@, seq_num, sending_time@, heartbeat_interval).len(),
{
    let mut pos = pos;
    let ghost mut acc = prefix;
    pos = append_standard_header(buf, pos, sender, target, seq_num, sending_time, Ghost(b0), Ghost(acc));
    proof {
        acc = acc + standard_header_fields(sender@, target@, seq_num, sending_time@);
    }
    pos = append_i64_field(buf, pos, tags::ENCRYPT_METHOD, 0i64, Ghost(b0), Ghost(acc));
    proof {
        acc = acc + i64_field(tags::ENCRYPT_METHOD, 0i64);
    }
    pos = append_i64_field(buf, pos, tags::HEARTBT_INT, heartbeat_interval, Ghost(b0), Ghost(acc));
    proof {
        acc = acc + i64_field(tags::HEARTBT_INT, heartbeat_interval);
    }
    let value = [89u8];
    assert(value@ =~= seq![89u8]);
    pos = append_field(buf, pos, tags::RESET_SEQ_NUM_FLAG, value.as_slice(), Ghost(b0), Ghost(acc));
    proof {
        acc = acc + field_bytes(tags::RESET_SEQ_NUM_FLAG, value@);
    }
    assert(acc =~= prefix + logon_with_reset_body(sender@, target@, seq_num, sending_time@, heartbeat_interval));
    pos
}

/// Builds a Logon (35=A) with ResetSeqNumFlag=Y message at the front of `buf`, in place; the message
/// length.
pub fn build_logon_with_reset(
    buf: &mut [u8],
    begin_string: &[u8],
    sender: &[u8],
    target: &[u8],
    seq_num: u64,
    sending_time: &[u8],
    heartbeat_interval: i64,
) -> (n: usize)
    requires
        spec_logon_with_reset(begin_string@, sender@, target@, seq_num, sending_time@, heartbeat_interval).len() <= old(buf)@.len(),
    ensures
        message_written(old(buf)@, final(buf)@, n, spec_logon_with_reset(begin_string@, sender@, target@, seq_num, sending_time@, heartbeat_interval)),
{
    let ghost b0 = buf@;
    let msg_type = [65u8];
    assert(msg_type@ =~= seq![65u8]);
    let ghost head = message_head(begin_string@, msg_type@);
    let ghost body = logon_with_reset_body(sender@, target@, seq_num, sending_time@, heartbeat_interval);
    let (pos, body_start): (usize, usize) = start_message(buf, begin_string, msg_type.as_slice());
    let end = append_logon_with_reset_body(buf, pos, sender, target, seq_num, sending_time, heartbeat_interval, Ghost(b0), Ghost(head));
    finish_message(buf, end, body_start, Ghost(b0), Ghost(begin_string@), Ghost(msg_type@), Ghost(body))
}

/// The body fields of the Logout (35=5) message.
pub open spec fn logout_body(sender: Seq<u8>, target: Seq<u8>, seq_num: u64, sending_time: Seq<u8>) -> Seq<u8> {
    standard_header_fields(sender, target, seq_num, sending_time)
}

/// The Logout (35=5) message.
pub open spec fn spec_logout(begin_string: Seq<u8>, sender: Seq<u8>, target: Seq<u8>, seq_num: u64, sending_time: Seq<u8>) -> Seq<u8> {
    spec_fix_message(begin_string, seq![53u8], logout_body(sender, target, seq_num, sending_time))
}

/// Writes the body fields of the Logout (35=5) message after the bytes
/// `prefix` at the front of `buf`.
fn append_logout_body(
    buf: &mut [u8],
    pos: usize,
    sender: &[u8],
    target: &[u8],
    seq_num: u64,
    sending_time: &[u8],
    Ghost(b0): Ghost<Seq<u8>>,
    Ghost(prefix): Ghost<Seq<u8>>,
) -> (p: usize)
    requires
        old(buf)@ == splice(b0, 0, prefix),
        pos == prefix.len(),
        pos + logout_body(sender@, target@, seq_num, sending_time@).len() <= b0.len(),
    ensures
        final(buf)@ == splice(b0, 0, prefix + logout_body(sender@, target@, seq_num, sending_time@)),
        p == pos + logout_body(sender@, target@, seq_num, sending_time@).len(),
{
    let mut pos = pos;
    let ghost mut acc = prefix;
    pos = append_standard_header(buf, pos, sender, target, seq_num, sending_time, Ghost(b0), Ghost(acc));
    proof {
        acc = acc + standard_header_fields(sender@, target@, seq_num, sending_time@);
    }
    assert(acc =~= prefix + logout_body(sender@, target@, seq_num, sending_time@));
    pos
}

/// Builds a Logout (35=5) message at the front of `buf`, in place; the message
/// length.
pub fn build_logout(
    buf: &mut [u8],
    begin_string: &[u8],
    sender: &[u8],
    target: &[u8],
    seq_num: u64,
    sending_time: &[u8],
) -> (n: usize)
    requires
        spec_logout(begin_string@, sender@, target@, seq_num, sending_time@).len() <= old(buf)@.len(),
    ensures
        message_written(old(buf)@, final(buf)@, n, spec_logout(begin_string@, sender@, target@, seq_num, sending_time@)),
{
    let ghost b0 = buf@;
    let msg_type = [53u8];
    assert(msg_type@ =~= seq![53u8]);
    let ghost head = message_head(begin_string@, msg_type@);
    let ghost body = logout_body(sender@, target@, seq_num, sending_time@);
    let (pos, body_start): (usize, usize) = start_message(buf, begin_string, msg_type.as_slice());
    let end = append_logout_body(buf, pos, sender, target, seq_num, sending_time, Ghost(b0), Ghost(head));
    finish_message(buf, end, body_start, Ghost(b0), Ghost(begin_string@), Ghost(msg_type@), Ghost(body))
}

/// The body fields of the SequenceReset-GapFill (35=4, 123=Y, 43=Y) message.
pub open spec fn sequence_reset_gap_fill_body(sender: Seq<u8>, target: Seq<u8>, seq_num: u64, sending_time: Seq<u8>, new_seq_no: u64) -> Seq<u8> {
    standard_header_fields(sender, target, seq_num, sending_time)
        + field_bytes(tags::GAP_FILL_FLAG, seq![89u8])
        + u64_field(tags::NEW_SEQ_NO, new_seq_no)
        + field_bytes(tags::POSS_DUP_FLAG, seq![89u8])
}

/// The SequenceReset-GapFill (35=4, 123=Y, 43=Y) message.
pub open spec fn spec_sequence_reset_gap_fill(begin_string: Seq<u8>, sender: Seq<u8>, target: Seq<u8>, seq_num: u64, sending_time: Seq<u8>, new_seq_no: u64) -> Seq<u8> {
    spec_fix_message(begin_string, seq![52u8], sequence_reset_gap_fill_body(sender, target, seq_num, sending_time, new_seq_no))
}

/// The body fields of the SequenceReset-GapFill (35=4, 123=Y, 43=Y) message, on the wire.
pub(crate) fn sequence_reset_gap_fill_fields(
    sender: &[u8],
    target: &[u8],
    seq_num: u64,
    sending_time: &[u8],
    new_seq_no: u64,
) -> (body: Vec<u8>)
    ensures
        body@ == sequence_reset_gap_fill_body(sender@, target@, seq_num, sending_time@, new_seq_no),
{
    let mut body: Vec<u8> = Vec::new();
    push_standard_header(&mut body, sender, target, seq_num, sending_time);
    let value = [89u8];
    assert(value@ =~= seq![89u8]);
    push_field(&mut body, tags::GAP_FILL_FLAG, value.as_slice());
    push_u64_field(&mut body, tags::NEW_SEQ_NO, new_seq_no);
    let value = [89u8];
    assert(value@ =~= seq![89u8]);
    push_field(&mut body, tags::POSS_DUP_FLAG, value.as_slice());
    assert(body@ =~= sequence_reset_gap_fill_body(sender@, target@, seq_num, sending_time@, new_seq_no));
    body
}

/// Writes the body fields of the SequenceReset-GapFill (35=4, 123=Y, 43=Y) message after the bytes
/// `prefix` at the front of `buf`.
fn append_sequence_reset_gap_fill_body(
    buf: &mut [u8],
    pos: usize,
    sender: &[u8],
    target: &[u8],
    seq_num: u64,
    sending_time: &[u8],
    new_seq_no: u64,
    Ghost(b0): Ghost<Seq<u8>>,
    Ghost(prefix): Ghost<Seq<u8>>,
) -> (p: usize)
    requires
        old(buf)@ == splice(b0, 0, prefix),
        pos == prefix.len(),
        pos + sequence_reset_gap_fill_body(sender@, target@, seq_num, sending_time@, new_seq_no).len() <= b0.len(),
    ensures
        final(buf)@ == splice(b0, 0, prefix + sequence_reset_gap_fill_body(sender@, target@, seq_num, sending_time@, new_seq_no)),
        p == pos + sequence_reset_gap_fill_body(sender@, target@, seq_num, sending_time@, new_seq_no).len(),
{
    let mut pos = pos;
    let ghost mut acc = prefix;
    pos = append_standard_header(buf, pos, sender, target, seq_num, sending_time, Ghost(b0), Ghost(acc));
    proof {
        acc = acc + standard_header_fields(sender@, target@, seq_num, sending_time@);
    }
    let value = [89u8];
    assert(value@ =~= seq![89u8]);
    pos = append_field(buf, pos, tags::GAP_FILL_FLAG, value.as_slice(), Ghost(b0), Ghost(acc));
    proof {
        acc = acc + field_bytes(tags::GAP_FILL_FLAG, value@);
    }
    pos = append_u64_field(buf, pos, tags::NEW_SEQ_NO, new_seq_no, Ghost(b0), Ghost(acc));
    proof {
        acc = acc + u64_field(tags::NEW_SEQ_NO, new_seq_no);
    }
    let value = [89u8];
    assert(value@ =~= seq![89u8]);
    pos = append_field(buf, pos, tags::POSS_DUP_FLAG, value.as_slice(), Ghost(b0), Ghost(acc));
    proof {
        acc = acc + field_bytes(tags::POSS_DUP_FLAG, value@);
    }
    assert(acc =~= prefix + sequence_reset_gap_fill_body(sender@, target@, seq_num, sending_time@, new_seq_no));
    pos
}

/// Builds a SequenceReset-GapFill (35=4, 123=Y, 43=Y) message at the front of `buf`, in place; the message
/// length.
pub fn build_sequence_reset_gap_fill(
    buf: &mut [u8],
    begin_string: &[u8],
    sender: &[u8],
    target: &[u8],
    seq_num: u64,
    sending_time: &[u8],
    new_seq_no: u64,
) -> (n: usize)
    requires
        spec_sequence_reset_gap_fill(begin_string@, sender@, target@, seq_num, sending_time@, new_seq_no).len() <= old(buf)@.len(),
    ensures
        message_written(old(buf)@, final(buf)@, n, spec_sequence_reset_gap_fill(begin_string@, sender@, target@, seq_num, sending_time@, new_seq_no)),
{
    let ghost b0 = buf@;
    let msg_type = [52u8];
    assert(msg_type@ =~= seq![52u8]);
    let ghost head = message_head(begin_string@, msg_type@);
    let ghost body = sequence_reset_gap_fill_body(sender@, target@, seq_num, sending_time@, new_seq_no);
    let (pos, body_start): (usize, usize) = start_message(buf, begin_string, msg_type.as_slice());
    let end = append_sequence_reset_gap_fill_body(buf, pos, sender, target, seq_num, sending_time, new_seq_no, Ghost(b0), Ghost(head));
    finish_message(buf, end, body_start, Ghost(b0), Ghost(begin_string@), Ghost(msg_type@), Ghost(body))
}

/// The body fields of the Heartbeat (35=0) echoing an optional TestReqID message.
pub open spec fn heartbeat_with_test_req_id_body(sender: Seq<u8>, target: Seq<u8>, seq_num: u64, sending_time: Seq<u8>, test_req_id: Option<Seq<u8>>) -> Seq<u8> {
    standard_header_fields(sender, target, seq_num, sending_time)
        + opt_field(tags::TEST_REQ_ID, test_req_id)
}

/// The Heartbeat (35=0) echoing an optional TestReqID message.
pub open spec fn spec_heartbeat_with_test_req_id(begin_string: Seq<u8>, sender: Seq<u8>, target: Seq<u8>, seq_num: u64, sending_time: Seq<u8>, test_req_id: Option<Seq<u8>>) -> Seq<u8> {
    spec_fix_message(begin_string, seq![48u8], heartbeat_with_test_req_id_body(sender, target, seq_num, sending_time, test_req_id))
}

/// The body fields of the Heartbeat (35=0) echoing an optional TestReqID message, on the wire.
pub(crate) fn heartbeat_with_test_req_id_fields(
    sender: &[u8],
    target: &[u8],
    seq_num: u64,
    sending_time: &[u8],
    test_req_id: Option<&[u8]>,
) -> (body: Vec<u8>)
    ensures
        body@ == heartbeat_with_test_req_id_body(sender@, target@, seq_num, sending_time@, opt_bytes(test_req_id)),
{
    let mut body: Vec<u8> = Vec::new();
    push_standard_header(&mut body, sender, target, seq_num, sending_time);
    if let Some(value) = test_req_id {
        push_field(&mut body, tags::TEST_REQ_ID, value);
    }
    assert(body@ =~= heartbeat_with_test_req_id_body(sender@, target@, seq_num, sending_time@, opt_bytes(test_req_id)));
    body
}

/// Writes the body fields of the Heartbeat (35=0) echoing an optional TestReqID message after the bytes
/// `prefix` at the front of `buf`.
fn append_heartbeat_with_test_req_id_body(
    buf: &mut [u8],
    pos: usize,
    sender: &[u8],
    target: &[u8],
    seq_num: u64,
    sending_time: &[u8],
    test_req_id: Option<&[u8]>,
    Ghost(b0): Ghost<Seq<u8>>,
    Ghost(prefix): Ghost<Seq<u8>>,
) -> (p: usize)
    requires
        old(buf)@ == splice(b0, 0, prefix),
        pos == prefix.len(),
        pos + heartbeat_with_test_req_id_body(sender@, target@, seq_num, sending_time@, opt_bytes(test_req_id)).len() <= b0.len(),
    ensures
        final(buf)@ == splice(b0, 0, prefix + heartbeat_with_test_req_id_body(sender@, target@, seq_num, sending_time@, opt_bytes(test_req_id))),
        p == pos + heartbeat_with_test_req_id_body(sender@, target@, seq_num, sending_time@, opt_bytes(test_req_id)).len(),
{
    let mut pos = pos;
    let ghost mut acc = prefix;
    pos = append_standard_header(buf, pos, sender, target, seq_num, sending_time, Ghost(b0), Ghost(acc));
    proof {
        acc = acc + standard_header_fields(sender@, target@, seq_num, sending_time@);
    }
    let ghost before = acc;
    if let Some(value) = test_req_id {
        pos = append_field(buf, pos, tags::TEST_REQ_ID, value, Ghost(b0), Ghost(acc));
        proof {
            acc = acc + field_bytes(tags::TEST_REQ_ID, value@);
        }
    }
    assert(acc =~= before + opt_field(tags::TEST_REQ_ID, opt_bytes(test_req_id)));
    assert(acc =~= prefix + heartbeat_with_test_req_id_body(sender@, target@, seq_num, sending_time@, opt_bytes(test_req_id)));
    pos
}

/// Builds a Heartbeat (35=0) echoing an optional TestReqID message at the front of `buf`, in place; the message
/// length.
pub fn build_heartbeat_with_test_req_id(
    buf: &mut [u8],
    begin_string: &[u8],
    sender: &[u8],
    target: &[u8],
    seq_num: u64,
    sending_time: &[u8],
    test_req_id: Option<&[u8]>,
) -> (n: usize)
    requires
        spec_heartbeat_with_test_req_id(begin_string@, sender@, target@, seq_num, sending_time@, opt_bytes(test_req_id)).len() <= old(buf)@.len(),
    ensures
        message_written(old(buf)@, final(buf)@, n, spec_heartbeat_with_test_req_id(begin_string@, sender@, target@, seq_num, sending_time@, opt_bytes(test_req_id))),
{
    let ghost b0 = buf@;
    let msg_type = [48u8];
    assert(msg_type@ =~= seq![48u8]);
    let ghost head = message_head(begin_string@, msg_type@);
    let ghost body = heartbeat_with_test_req_id_body(sender@, target@, seq_num, sending_time@, opt_bytes(test_req_id));
    let (pos, body_start): (usize, usize) = start_message(buf, begin_string, msg_type.as_slice());
    let end = append_heartbeat_with_test_req_id_body(buf, pos, sender, target, seq_num, sending_time, test_req_id, Ghost(b0), Ghost(head));
    finish_message(buf, end, body_start, Ghost(b0), Ghost(begin_string@), Ghost(msg_type@), Ghost(body))
}

/// The body fields of the ResendRequest (35=2) message.
pub open spec fn resend_request_body(sender: Seq<u8>, target: Seq<u8>, seq_num: u64, sending_time: Seq<u8>, begin_seq_no: u64, end_seq_no: u64) -> Seq<u8> {
    standard_header_fields(sender, target, seq_num, sending_time)
        + u64_field(tags::BEGIN_SEQ_NO, begin_seq_no)
        + u64_field(tags::END_SEQ_NO, end_seq_no)
}

/// The ResendRequest (35=2) message.
pub open spec fn spec_resend_request(begin_string: Seq<u8>, sender: Seq<u8>, target: Seq<u8>, seq_num: u64, sending_time: Seq<u8>, begin_seq_no: u64, end_seq_no: u64) -> Seq<u8> {
    spec_fix_message(begin_string, seq![50u8], resend_request_body(sender, target, seq_num, sending_time, begin_seq_no, end_seq_no))
}

/// The body fields of the ResendRequest (35=2) message, on the wire.
pub(crate) fn resend_request_fields(
    sender: &[u8],
    target: &[u8],
    seq_num: u64,
    sending_time: &[u8],
    begin_seq_no: u64,
    end_seq_no: u64,
) -> (body: Vec<u8>)
    ensures
        body@ == resend_request_body(sender@, target@, seq_num, sending_time@, begin_seq_no, end_seq_no),
{
    let mut body: Vec<u8> = Vec::new();
    push_standard_header(&mut body, sender, target, seq_num, sending_time);
    push_u64_field(&mut body, tags::BEGIN_SEQ_NO, begin_seq_no);
    push_u64_field(&mut body, tags::END_SEQ_NO, end_seq_no);
    assert(body@ =~= resend_request_body(sender@, target@, seq_num, sending_time@, begin_seq_no, end_seq_no));
    body
}

/// Writes the body fields of the ResendRequest (35=2) message after the bytes
/// `prefix` at the front of `buf`.
fn append_resend_request_body(
    buf: &mut [u8],
    pos: usize,
    sender: &[u8],
    target: &[u8],
    seq_num: u64,
    sending_time: &[u8],
    begin_seq_no: u64,
    end_seq_no: u64,
    Ghost(b0): Ghost<Seq<u8>>,
    Ghost(prefix): Ghost<Seq<u8>>,
) -> (p: usize)
    requires
        old(buf)@ == splice(b0, 0, prefix),
        pos == prefix.len(),
        pos + resend_request_body(sender@, target@, seq_num, sending_time@, begin_seq_no, end_seq_no).len() <= b0.len(),
    ensures
        final(buf)@ == splice(b0, 0, prefix + resend_request_body(sender@, target@, seq_num, sending_time@, begin_seq_no, end_seq_no)),
        p == pos + resend_request_body(sender@, target@, seq_num, sending_time@, begin_seq_no, end_seq_no).len(),
{
    let mut pos = pos;
    let ghost mut acc = prefix;
    pos = append_standard_header(buf, pos, sender, target, seq_num, sending_time, Ghost(b0), Ghost(acc));
    proof {
        acc = acc + standard_header_fields(sender@, target@, seq_num, sending_time@);
    }
    pos = append_u64_field(buf, pos, tags::BEGIN_SEQ_NO, begin_seq_no, Ghost(b0), Ghost(acc));
    proof {
        acc = acc + u64_field(tags::BEGIN_SEQ_NO, begin_seq_no);
    }
    pos = append_u64_field(buf, pos, tags::END_SEQ_NO, end_seq_no, Ghost(b0), Ghost(acc));
    proof {
        acc = acc + u64_field(tags::END_SEQ_NO, end_seq_no);
    }
    assert(acc =~= prefix + resend_request_body(sender@, target@, seq_num, sending_time@, begin_seq_no, end_seq_no));
    pos
}

/// Builds a ResendRequest (35=2) message at the front of `buf`, in place; the message
/// length.
pub fn build_resend_request(
    buf: &mut [u8],
    begin_string: &[u8],
    sender: &[u8],
    target: &[u8],
    seq_num: u64,
    sending_time: &[u8],
    begin_seq_no: u64,
    end_seq_no: u64,
) -> (n: usize)
    requires
        spec_resend_request(begin_string@, sender@, target@, seq_num, sending_time@, begin_seq_no, end_seq_no).len() <= old(buf)@.len(),
    ensures
        message_written(old(buf)@, final(buf)@, n, spec_resend_request(begin_string@, sender@, target@, seq_num, sending_time@, begin_seq_no, end_seq_no)),
{
    let ghost b0 = buf@;
    let msg_type = [50u8];
    assert(msg_type@ =~= seq![50u8]);
    let ghost head = message_head(begin_string@, msg_type@);
    let ghost body = resend_request_body(sender@, target@, seq_num, sending_time@, begin_seq_no, end_seq_no);
    let (pos, body_start): (usize, usize) = start_message(buf, begin_string, msg_type.as_slice());
    let end = append_resend_request_body(buf, pos, sender, target, seq_num, sending_time, begin_seq_no, end_seq_no, Ghost(b0), Ghost(head));
    finish_message(buf, end, body_start, Ghost(b0), Ghost(begin_string@), Ghost(msg_type@), Ghost(body))
}

/// The body fields of the session-level Reject (35=3) message.
pub open spec fn reject_body(sender: Seq<u8>, target: Seq<u8>, seq_num: u64, sending_time: Seq<u8>, ref_seq_num: u64, reason: u32, text: Option<Seq<u8>>) -> Seq<u8> {
    standard_header_fields(sender, target, seq_num, sending_time)
        + u64_field(tags::REF_SEQ_NUM, ref_seq_num)
        + u64_field(tags::SESSION_REJECT_REASON, reason as u64)
        + opt_field(tags::TEXT, text)
}

/// The session-level Reject (35=3) message.
pub open spec fn spec_reject(begin_string: Seq<u8>, sender: Seq<u8>, target: Seq<u8>, seq_num: u64, sending_time: Seq<u8>, ref_seq_num: u64, reason: u32, text: Option<Seq<u8>>) -> Seq<u8> {
    spec_fix_message(begin_string, seq![51u8], reject_body(sender, target, seq_num, sending_time, ref_seq_num, reason, text))
}

/// The body fields of the session-level Reject (35=3) message, on the wire.
pub(crate) fn reject_fields(
    sender: &[u8],
    target: &[u8],
    seq_num: u64,
    sending_time: &[u8],
    ref_seq_num: u64,
    reason: u32,
    text: Option<&[u8]>,
) -> (body: Vec<u8>)
    ensures
        body@ == reject_body(sender@, target@, seq_num, sending_time@, ref_seq_num, reason, opt_bytes(text)),
{
    let mut body: Vec<u8> = Vec::new();
    push_standard_header(&mut body, sender, target, seq_num, sending_time);
    push_u64_field(&mut body, tags::REF_SEQ_NUM, ref_seq_num);
    push_u64_field(&mut body, tags::SESSION_REJECT_REASON, reason as u64);
    if let Some(value) = text {
        push_field(&mut body, tags::TEXT, value);
    }
    assert(body@ =~= reject_body(sender@, target@, seq_num, sending_time@, ref_seq_num, reason, opt_bytes(text)));
    body
}

/// Writes the body fields of the session-level Reject (35=3) message after the bytes
/// `prefix` at the front of `buf`.
fn append_reject_body(
    buf: &mut [u8],
    pos: usize,
    sender: &[u8],
    target: &[u8],
    seq_num: u64,
    sending_time: &[u8],
    ref_seq_num: u64,
    reason: u32,
    text: Option<&[u8]>,
    Ghost(b0): Ghost<Seq<u8>>,
    Ghost(prefix): Ghost<Seq<u8>>,
) -> (p: usize)
    requires
        old(buf)@ == splice(b0, 0, prefix),
        pos == prefix.len(),
        pos + reject_body(sender@, target@, seq_num, sending_time@, ref_seq_num, reason, opt_bytes(text)).len() <= b0.len(),
    ensures
        final(buf)@ == splice(b0, 0, prefix + reject_body(sender@, target@, seq_num, sending_time@, ref_seq_num, reason, opt_bytes(text))),
        p == pos + reject_body(sender@, target@, seq_num, sending_time@, ref_seq_num, reason, opt_bytes(text)).len(),
{
    let mut pos = pos;
    let ghost mut acc = prefix;
    pos = append_standard_header(buf, pos, sender, target, seq_num, sending_time, Ghost(b0), Ghost(acc));
    proof {
        acc = acc + standard_header_fields(sender@, target@, seq_num, sending_time@);
    }
    pos = append_u64_field(buf, pos, tags::REF_SEQ_NUM, ref_seq_num, Ghost(b0), Ghost(acc));
    proof {
        acc = acc + u64_field(tags::REF_SEQ_NUM, ref_seq_num);
    }
    pos = append_u64_field(buf, pos, tags::SESSION_REJECT_REASON, reason as u64, Ghost(b0), Ghost(acc));
    proof {
        acc = acc + u64_field(tags::SESSION_REJECT_REASON, reason as u64);
    }
    let ghost before = acc;
    if let Some(value) = text {
        pos = append_field(buf, pos, tags::TEXT, value, Ghost(b0), Ghost(acc));
        proof {
            acc = acc + field_bytes(tags::TEXT, value@);
        }
    }
    assert(acc =~= before + opt_field(tags::TEXT, opt_bytes(text)));
    assert(acc =~= prefix + reject_body(sender@, target@, seq_num, sending_time@, ref_seq_num, reason, opt_bytes(text)));
    pos
}

/// Builds a session-level Reject (35=3) message at the front of `buf`, in place; the message
/// length.
pub fn build_reject(
    buf: &mut [u8],
    begin_string: &[u8],
    sender: &[u8],
    target: &[u8],
    seq_num: u64,
    sending_time: &[u8],
    ref_seq_num: u64,
    reason: u32,
    text: Option<&[u8]>,
) -> (n: usize)
    requires
        spec_reject(begin_string@, sender@, target@, seq_num, sending_time@, ref_seq_num, reason, opt_bytes(text)).len() <= old(buf)@.len(),
    ensures
        message_written(old(buf)@, final(buf)@, n, spec_reject(begin_string@, sender@, target@, seq_num, sending_time@, ref_seq_num, reason, opt_bytes(text))),
{
    let ghost b0 = buf@;
    let msg_type = [51u8];
    assert(msg_type@ =~= seq![51u8]);
    let ghost head = message_head(begin_string@, msg_type@);
    let ghost body = reject_body(sender@, target@, seq_num, sending_time@, ref_seq_num, reason, opt_bytes(text));
    let (pos, body_start): (usize, usize) = start_message(buf, begin_string, msg_type.as_slice());
    let end = append_reject_body(buf, pos, sender, target, seq_num, sending_time, ref_seq_num, reason, text, Ghost(b0), Ghost(head));
    finish_message(buf, end, body_start, Ghost(b0), Ghost(begin_string@), Ghost(msg_type@), Ghost(body))
}

/// The body fields of the Logout (35=5) with optional Text message.
pub open spec fn logout_with_text_body(sender: Seq<u8>, target: Seq<u8>, seq_num: u64, sending_time: Seq<u8>, text: Option<Seq<u8>>) -> Seq<u8> {
    standard_header_fields(sender, target, seq_num, sending_time)
        + opt_field(tags::TEXT, text)
}

/// The Logout (35=5) with optional Text message.
pub open spec fn spec_logout_with_text(begin_string: Seq<u8>, sender: Seq<u8>, target: Seq<u8>, seq_num: u64, sending_time: Seq<u8>, text: Option<Seq<u8>>) -> Seq<u8> {
    spec_fix_message(begin_string, seq![53u8], logout_with_text_body(sender, target, seq_num, sending_time, text))
}

/// The body fields of the Logout (35=5) with optional Text message, on the wire.
pub(crate) fn logout_with_text_fields(
    sender: &[u8],
    target: &[u8],
    seq_num: u64,
    sending_time: &[u8],
    text: Option<&[u8]>,
) -> (body: Vec<u8>)
    ensures
        body@ == logout_with_text_body(sender@, target@, seq_num, sending_time@, opt_bytes(text)),
{
    let mut body: Vec<u8> = Vec::new();
    push_standard_header(&mut body, sender, target, seq_num, sending_time);
    if let Some(value) = text {
        push_field(&mut body, tags::TEXT, value);
    }
    assert(body@ =~= logout_with_text_body(sender@, target@, seq_num, sending_time@, opt_bytes(text)));
    body
}

/// Writes the body fields of the Logout (35=5) with optional Text message after the bytes
/// `prefix` at the front of `buf`.
fn append_logout_with_text_body(
    buf: &mut [u8],
    pos: usize,
    sender: &[u8],
    target: &[u8],
    seq_num: u64,
    sending_time: &[u8],
    text: Option<&[u8]>,
    Ghost(b0): Ghost<Seq<u8>>,
    Ghost(prefix): Ghost<Seq<u8>>,
) -> (p: usize)
    requires
        old(buf)@ == splice(b0, 0, prefix),
        pos == prefix.len(),
        pos + logout_with_text_body(sender@, target@, seq_num, sending_time@, opt_bytes(text)).len() <= b0.len(),
    ensures
        final(buf)@ == splice(b0, 0, prefix + logout_with_text_body(sender@, target@, seq_num, sending_time@, opt_bytes(text))),
        p == pos + logout_with_text_body(sender@, target@, seq_num, sending_time@, opt_bytes(text)).len(),
{
    let mut pos = pos;
    let ghost mut acc = prefix;
    pos = append_standard_header(buf, pos, sender, target, seq_num, sending_time, Ghost(b0), Ghost(acc));
    proof {
        acc = acc + standard_header_fields(sender@, target@, seq_num, sending_time@);
    }
    let ghost before = acc;
    if let Some(value) = text {
        pos = append_field(buf, pos, tags::TEXT, value, Ghost(b0), Ghost(acc));
        proof {
            acc = acc + field_bytes(tags::TEXT, value@);
        }
    }
    assert(acc =~= before + opt_field(tags::TEXT, opt_bytes(text)));
    assert(acc =~= prefix + logout_with_text_body(sender@, target@, seq_num, sending_time@, opt_bytes(text)));
    pos
}

/// Builds a Logout (35=5) with optional Text message at the front of `buf`, in place; the message
/// length.
pub fn build_logout_with_text(
    buf: &mut [u8],
    begin_string: &[u8],
    sender: &[u8],
    target: &[u8],
    seq_num: u64,
    sending_time: &[u8],
    text: Option<&[u8]>,
) -> (n: usize)
    requires
        spec_logout_with_text(begin_string@, sender@, target@, seq_num, sending_time@, opt_bytes(text)).len() <= old(buf)@.len(),
    ensures
        message_written(old(buf)@, final(buf)@, n, spec_logout_with_text(begin_string@, sender@, target@, seq_num, sending_time@, opt_bytes(text))),
{
    let ghost b0 = buf@;
    let msg_type = [53u8];
    assert(msg_type@ =~= seq![53u8]);
    let ghost head = message_head(begin_string@, msg_type@);
    let ghost body = logout_with_text_body(sender@, target@, seq_num, sending_time@, opt_bytes(text));
    let (pos, body_start): (usize, usize) = start_message(buf, begin_string, msg_type.as_slice());
    let end = append_logout_with_text_body(buf, pos, sender, target, seq_num, sending_time, text, Ghost(b0), Ghost(head));
    finish_message(buf, end, body_start, Ghost(b0), Ghost(begin_string@), Ghost(msg_type@), Ghost(body))
}

/// The body fields of the TestRequest (35=1) message.
pub open spec fn test_request_body(sender: Seq<u8>, target: Seq<u8>, seq_num: u64, sending_time: Seq<u8>, test_req_id: Seq<u8>) -> Seq<u8> {
    standard_header_fields(sender, target, seq_num, sending_time)
        + field_bytes(tags::TEST_REQ_ID, test_req_id)
}

/// The TestRequest (35=1) message.
pub open spec fn spec_test_request(begin_string: Seq<u8>, sender: Seq<u8>, target: Seq<u8>, seq_num: u64, sending_time: Seq<u8>, test_req_id: Seq<u8>) -> Seq<u8> {
    spec_fix_message(begin_string, seq![49u8], test_request_body(sender, target, seq_num, sending_time, test_req_id))
}

/// The body fields of the TestRequest (35=1) message, on the wire.
pub(crate) fn test_request_fields(
    sender: &[u8],
    target: &[u8],
    seq_num: u64,
    sending_time: &[u8],
    test_req_id: &[u8],
) -> (body: Vec<u8>)
    ensures
        body@ == test_request_body(sender@, target@, seq_num, sending_time@, test_req_id@),
{
    let mut body: Vec<u8> = Vec::new();
    push_standard_header(&mut body, sender, target, seq_num, sending_time);
    push_field(&mut body, tags::TEST_REQ_ID, test_req_id);
    assert(body@ =~= test_request_body(sender@, target@, seq_num, sending_time@, test_req_id@));
    body
}

/// Writes the body fields of the TestRequest (35=1) message after the bytes
/// `prefix` at the front of `buf`.
fn append_test_request_body(
    buf: &mut [u8],
    pos: usize,
    sender: &[u8],
    target: &[u8],
    seq_num: u64,
    sending_time: &[u8],
    test_req_id: &[u8],
    Ghost(b0): Ghost<Seq<u8>>,
    Ghost(prefix): Ghost<Seq<u8>>,
) -> (p: usize)
    requires
        old(buf)@ == splice(b0, 0, prefix),
        pos == prefix.len(),
        pos + test_request_body(sender@, target@, seq_num, sending_time@, test_req_id@).len() <= b0.len(),
    ensures
        final(buf)@ == splice(b0, 0, prefix + test_request_body(sender@, target@, seq_num, sending_time@, test_req_id@)),
        p == pos + test_request_body(sender@, target@, seq_num, sending_time@, test_req_id@).len(),
{
    let mut pos = pos;
    let ghost mut acc = prefix;
    pos = append_standard_header(buf, pos, sender, target, seq_num, sending_time, Ghost(b0), Ghost(acc));
    proof {
        acc = acc + standard_header_fields(sender@, target@, seq_num, sending_time@);
    }
    pos = append_field(buf, pos, tags::TEST_REQ_ID, test_req_id, Ghost(b0), Ghost(acc));
    proof {
        acc = acc + field_bytes(tags::TEST_REQ_ID, test_req_id@);
    }
    assert(acc =~= prefix + test_request_body(sender@, target@, seq_num, sending_time@, test_req_id@));
    pos
}

/// Builds a TestRequest (35=1) message at the front of `buf`, in place; the message
/// length.
pub fn build_test_request(
    buf: &mut [u8],
    begin_string: &[u8],
    sender: &[u8],
    target: &[u8],
    seq_num: u64,
    sending_time: &[u8],
    test_req_id: &[u8],
) -> (n: usize)
    requires
        spec_test_request(begin_string@, sender@, target@, seq_num, sending_time@, test_req_id@).len() <= old(buf)@.len(),
    ensures
        message_written(old(buf)@, final(buf)@, n, spec_test_request(begin_string@, sender@, target@, seq_num, sending_time@, test_req_id@)),
{
    let ghost b0 = buf@;
    let msg_type = [49u8];
    assert(msg_type@ =~= seq![49u8]);
    let ghost head = message_head(begin_string@, msg_type@);
    let ghost body = test_request_body(sender@, target@, seq_num, sending_time@, test_req_id@);
    let (pos, body_start): (usize, usize) = start_message(buf, begin_string, msg_type.as_slice());
    let end = append_test_request_body(buf, pos, sender, target, seq_num, sending_time, test_req_id, Ghost(b0), Ghost(head));
    finish_message(buf, end, body_start, Ghost(b0), Ghost(begin_string@), Ghost(msg_type@), Ghost(body))
}

/// The body fields of the NewOrderSingle (35=D) message.
pub open spec fn new_order_single_body(sender: Seq<u8>, target: Seq<u8>, seq_num: u64, sending_time: Seq<u8>, cl_ord_id: Seq<u8>, symbol: Seq<u8>, side: u8, qty: i64, ord_type: u8, price: Seq<u8>) -> Seq<u8> {
    standard_header_fields(sender, target, seq_num, sending_time)
        + field_bytes(tags::CL_ORD_ID, cl_ord_id)
        + field_bytes(tags::SYMBOL, symbol)
        + field_bytes(tags::SIDE, seq![side])
        + i64_field(tags::ORDER_QTY, qty)
        + field_bytes(tags::ORD_TYPE, seq![ord_type])
        + field_bytes(tags::PRICE, price)
        + field_bytes(tags::TRANSACT_TIME, sending_time)
        + field_bytes(tags::HANDL_INST, seq![49u8])
}

/// The NewOrderSingle (35=D) message.
pub open spec fn spec_new_order_single(begin_string: Seq<u8>, sender: Seq<u8>, target: Seq<u8>, seq_num: u64, sending_time: Seq<u8>, cl_ord_id: Seq<u8>, symbol: Seq<u8>, side: u8, qty: i64, ord_type: u8, price: Seq<u8>) -> Seq<u8> {
    spec_fix_message(begin_string, seq![68u8], new_order_single_body(sender, target, seq_num, sending_time, cl_ord_id, symbol, side, qty, ord_type, price))
}

/// Writes the body fields of the NewOrderSingle (35=D) message after the bytes
/// `prefix` at the front of `buf`.
fn append_new_order_single_body(
    buf: &mut [u8],
    pos: usize,
    sender: &[u8],
    target: &[u8],
    seq_num: u64,
    sending_time: &[u8],
    cl_ord_id: &[u8],
    symbol: &[u8],
    side: u8,
    qty: i64,
    ord_type: u8,
    price: &[u8],
    Ghost(b0): Ghost<Seq<u8>>,
    Ghost(prefix): Ghost<Seq<u8>>,
) -> (p: usize)
    requires
        old(buf)@ == splice(b0, 0, prefix),
        pos == prefix.len(),
        pos + new_order_single_body(sender@, target@, seq_num, sending_time@, cl_ord_id@, symbol@, side, qty, ord_type, price@).len() <= b0.len(),
    ensures
        final(buf)@ == splice(b0, 0, prefix + new_order_single_body(sender@, target@, seq_num, sending_time@, cl_ord_id@, symbol@, side, qty, ord_type, price@)),
        p == pos + new_order_single_body(sender@, target@, seq_num, sending_time@, cl_ord_id@, symbol@, side, qty, ord_type, price@).len(),
{
    let mut pos = pos;
    let ghost mut acc = prefix;
    pos = append_standard_header(buf, pos, sender, target, seq_num, sending_time, Ghost(b0), Ghost(acc));
    proof {
        acc = acc + standard_header_fields(sender@, target@, seq_num, sending_time@);
    }
    pos = append_field(buf, pos, tags::CL_ORD_ID, cl_ord_id, Ghost(b0), Ghost(acc));
    proof {
        acc = acc + field_bytes(tags::CL_ORD_ID, cl_ord_id@);
    }
    pos = append_field(buf, pos, tags::SYMBOL, symbol, Ghost(b0), Ghost(acc));
    proof {
        acc = acc + field_bytes(tags::SYMBOL, symbol@);
    }
    let value = [side];
    assert(value@ =~= seq![side]);
    pos = append_field(buf, pos, tags::SIDE, value.as_slice(), Ghost(b0), Ghost(acc));
    proof {
        acc = acc + field_bytes(tags::SIDE, value@);
    }
    pos = append_i64_field(buf, pos, tags::ORDER_QTY, qty, Ghost(b0), Ghost(acc));
    proof {
        acc = acc + i64_field(tags::ORDER_QTY, qty);
    }
    let value = [ord_type];
    assert(value@ =~= seq![ord_type]);
    pos = append_field(buf, pos, tags::ORD_TYPE, value.as_slice(), Ghost(b0), Ghost(acc));
    proof {
        acc = acc + field_bytes(tags::ORD_TYPE, value@);
    }
    pos = append_field(buf, pos, tags::PRICE, price, Ghost(b0), Ghost(acc));
    proof {
        acc = acc + field_bytes(tags::PRICE, price@);
    }
    pos = append_field(buf, pos, tags::TRANSACT_TIME, sending_time, Ghost(b0), Ghost(acc));
    proof {
        acc = acc + field_bytes(tags::TRANSACT_TIME, sending_time@);
    }
    let value = [49u8];
    assert(value@ =~= seq![49u8]);
    pos = append_field(buf, pos, tags::HANDL_INST, value.as_slice(), Ghost(b0), Ghost(acc));
    proof {
        acc = acc + field_bytes(tags::HANDL_INST, value@);
    }
    assert(acc =~= prefix + new_order_single_body(sender@, target@, seq_num, sending_time@, cl_ord_id@, symbol@, side, qty, ord_type, price@));
    pos
}

/// Builds a NewOrderSingle (35=D) message at the front of `buf`, in place; the message
/// length.
pub fn build_new_order_single(
    buf: &mut [u8],
    begin_string: &[u8],
    sender: &[u8],
    target: &[u8],
    seq_num: u64,
    sending_time: &[u8],
    cl_ord_id: &[u8],
    symbol: &[u8],
    side: u8,
    qty: i64,
    ord_type: u8,
    price: &[u8],
) -> (n: usize)
    requires
        spec_new_order_single(begin_string@, sender@, target@, seq_num, sending_time@, cl_ord_id@, symbol@, side, qty, ord_type, price@).len() <= old(buf)@.len(),
    ensures
        message_written(old(buf)@, final(buf)@, n, spec_new_order_single(begin_string@, sender@, target@, seq_num, sending_time@, cl_ord_id@, symbol@, side, qty, ord_type, price@)),
{
    let ghost b0 = buf@;
    let msg_type = [68u8];
    assert(msg_type@ =~= seq![68u8]);
    let ghost head = message_head(begin_string@, msg_type@);
    let ghost body = new_order_single_body(sender@, target@, seq_num, sending_time@, cl_ord_id@, symbol@, side, qty, ord_type, price@);
    let (pos, body_start): (usize, usize) = start_message(buf, begin_string, msg_type.as_slice());
    let end = append_new_order_single_body(buf, pos, sender, target, seq_num, sending_time, cl_ord_id, symbol, side, qty, ord_type, price, Ghost(b0), Ghost(head));
    finish_message(buf, end, body_start, Ghost(b0), Ghost(begin_string@), Ghost(msg_type@), Ghost(body))
}

/// The body fields of the OrderCancelRequest (35=F) message.
pub open spec fn order_cancel_request_body(sender: Seq<u8>, target: Seq<u8>, seq_num: u64, sending_time: Seq<u8>, orig_cl_ord_id: Seq<u8>, cl_ord_id: Seq<u8>, symbol: Seq<u8>, side: u8, qty: i64) -> Seq<u8> {
    standard_header_fields(sender, target, seq_num, sending_time)
        + field_bytes(tags::ORIG_CL_ORD_ID, orig_cl_ord_id)
        + field_bytes(tags::CL_ORD_ID, cl_ord_id)
        + field_bytes(tags::SYMBOL, symbol)
        + field_bytes(tags::SIDE, seq![side])
        + i64_field(tags::ORDER_QTY, qty)
        + field_bytes(tags::TRANSACT_TIME, sending_time)
}

/// The OrderCancelRequest (35=F) message.
pub open spec fn spec_order_cancel_request(begin_string: Seq<u8>, sender: Seq<u8>, target: Seq<u8>, seq_num: u64, sending_time: Seq<u8>, orig_cl_ord_id: Seq<u8>, cl_ord_id: Seq<u8>, symbol: Seq<u8>, side: u8, qty: i64) -> Seq<u8> {
    spec_fix_message(begin_string, seq![70u8], order_cancel_request_body(sender, target, seq_num, sending_time, orig_cl_ord_id, cl_ord_id, symbol, side, qty))
}

/// Writes the body fields of the OrderCancelRequest (35=F) message after the bytes
/// `prefix` at the front of `buf`.
fn append_order_cancel_request_body(
    buf: &mut [u8],
    pos: usize,
    sender: &[u8],
    target: &[u8],
    seq_num: u64,
    sending_time: &[u8],
    orig_cl_ord_id: &[u8],
    cl_ord_id: &[u8],
    symbol: &[u8],
    side: u8,
    qty: i64,
    Ghost(b0): Ghost<Seq<u8>>,
    Ghost(prefix): Ghost<Seq<u8>>,
) -> (p: usize)
    requires
        old(buf)@ == splice(b0, 0, prefix),
        pos == prefix.len(),
        pos + order_cancel_request_body(sender@, target@, seq_num, sending_time@, orig_cl_ord_id@, cl_ord_id@, symbol@, side, qty).len() <= b0.len(),
    ensures
        final(buf)@ == splice(b0, 0, prefix + order_cancel_request_body(sender@, target@, seq_num, sending_time@, orig_cl_ord_id@, cl_ord_id@, symbol@, side, qty)),
        p == pos + order_cancel_request_body(sender@, target@, seq_num, sending_time@, orig_cl_ord_id@, cl_ord_id@, symbol@, side, qty).len(),
{
    let mut pos = pos;
    let ghost mut acc = prefix;
    pos = append_standard_header(buf, pos, sender, target, seq_num, sending_time, Ghost(b0), Ghost(acc));
    proof {
        acc = acc + standard_header_fields(sender@, target@, seq_num, sending_time@);
    }
    pos = append_field(buf, pos, tags::ORIG_CL_ORD_ID, orig_cl_ord_id, Ghost(b0), Ghost(acc));
    proof {
        acc = acc + field_bytes(tags::ORIG_CL_ORD_ID, orig_cl_ord_id@);
    }
    pos = append_field(buf, pos, tags::CL_ORD_ID, cl_ord_id, Ghost(b0), Ghost(acc));
    proof {
        acc = acc + field_bytes(tags::CL_ORD_ID, cl_ord_id@);
    }
    pos = append_field(buf, pos, tags::SYMBOL, symbol, Ghost(b0), Ghost(acc));
    proof {
        acc = acc + field_bytes(tags::SYMBOL, symbol@);
    }
    let value = [side];
    assert(value@ =~= seq![side]);
    pos = append_field(buf, pos, tags::SIDE, value.as_slice(), Ghost(b0), Ghost(acc));
    proof {
        acc = acc + field_bytes(tags::SIDE, value@);
    }
    pos = append_i64_field(buf, pos, tags::ORDER_QTY, qty, Ghost(b0), Ghost(acc));
    proof {
        acc = acc + i64_field(tags::ORDER_QTY, qty);
    }
    pos = append_field(buf, pos, tags::TRANSACT_TIME, sending_time, Ghost(b0), Ghost(acc));
    proof {
        acc = acc + field_bytes(tags::TRANSACT_TIME, sending_time@);
    }
    assert(acc =~= prefix + order_cancel_request_body(sender@, target@, seq_num, sending_time@, orig_cl_ord_id@, cl_ord_id@, symbol@, side, qty));
    pos
}

/// Builds a OrderCancelRequest (35=F) message at the front of `buf`, in place; the message
/// length.
pub fn build_order_cancel_request(
    buf: &mut [u8],
    begin_string: &[u8],
    sender: &[u8],
    target: &[u8],
    seq_num: u64,
    sending_time: &[u8],
    orig_cl_ord_id: &[u8],
    cl_ord_id: &[u8],
    symbol: &[u8],
    side: u8,
    qty: i64,
) -> (n: usize)
    requires
        spec_order_cancel_request(begin_string@, sender@, target@, seq_num, sending_time@, orig_cl_ord_id@, cl_ord_id@, symbol@, side, qty).len() <= old(buf)@.len(),
    ensures
        message_written(old(buf)@, final(buf)@, n, spec_order_cancel_request(begin_string@, sender@, target@, seq_num, sending_time@, orig_cl_ord_id@, cl_ord_id@, symbol@, side, qty)),
{
    let ghost b0 = buf@;
    let msg_type = [70u8];
    assert(msg_type@ =~= seq![70u8]);
    let ghost head = message_head(begin_string@, msg_type@);
    let ghost body = order_cancel_request_body(sender@, target@, seq_num, sending_time@, orig_cl_ord_id@, cl_ord_id@, symbol@, side, qty);
    let (pos, body_start): (usize, usize) = start_message(buf, begin_string, msg_type.as_slice());
    let end = append_order_cancel_request_body(buf, pos, sender, target, seq_num, sending_time, orig_cl_ord_id, cl_ord_id, symbol, side, qty, Ghost(b0), Ghost(head));
    finish_message(buf, end, body_start, Ghost(b0), Ghost(begin_string@), Ghost(msg_type@), Ghost(body))
}

/// The body fields of the OrderCancelReplaceRequest (35=G) message.
pub open spec fn order_cancel_replace_request_body(sender: Seq<u8>, target: Seq<u8>, seq_num: u64, sending_time: Seq<u8>, orig_cl_ord_id: Seq<u8>, cl_ord_id: Seq<u8>, symbol: Seq<u8>, side: u8, qty: i64, ord_type: u8, price: Seq<u8>) -> Seq<u8> {
    standard_header_fields(sender, target, seq_num, sending_time)
        + field_bytes(tags::ORIG_CL_ORD_ID, orig_cl_ord_id)
        + field_bytes(tags::CL_ORD_ID, cl_ord_id)
        + field_bytes(tags::SYMBOL, symbol)
        + field_bytes(tags::SIDE, seq![side])
        + i64_field(tags::ORDER_QTY, qty)
        + field_bytes(tags::ORD_TYPE, seq![ord_type])
        + field_bytes(tags::PRICE, price)
        + field_bytes(tags::TRANSACT_TIME, sending_time)
}

/// The OrderCancelReplaceRequest (35=G) message.
pub open spec fn spec_order_cancel_replace_request(begin_string: Seq<u8>, sender: Seq<u8>, target: Seq<u8>, seq_num: u64, sending_time: Seq<u8>, orig_cl_ord_id: Seq<u8>, cl_ord_id: Seq<u8>, symbol: Seq<u8>, side: u8, qty: i64, ord_type: u8, price: Seq<u8>) -> Seq<u8> {
    spec_fix_message(begin_string, seq![71u8], order_cancel_replace_request_body(sender, target, seq_num, sending_time, orig_cl_ord_id, cl_ord_id, symbol, side, qty, ord_type, price))
}

/// Writes the body fields of the OrderCancelReplaceRequest (35=G) message after the bytes
/// `prefix` at the front of `buf`.
fn append_order_cancel_replace_request_body(
    buf: &mut [u8],
    pos: usize,
    sender: &[u8],
    target: &[u8],
    seq_num: u64,
    sending_time: &[u8],
    orig_cl_ord_id: &[u8],
    cl_ord_id: &[u8],
    symbol: &[u8],
    side: u8,
    qty: i64,
    ord_type: u8,
    price: &[u8],
    Ghost(b0): Ghost<Seq<u8>>,
    Ghost(prefix): Ghost<Seq<u8>>,
) -> (p: usize)
    requires
        old(buf)@ == splice(b0, 0, prefix),
        pos == prefix.len(),
        pos + order_cancel_replace_request_body(sender@, target@, seq_num, sending_time@, orig_cl_ord_id@, cl_ord_id@, symbol@, side, qty, ord_type, price@).len() <= b0.len(),
    ensures
        final(buf)@ == splice(b0, 0, prefix + order_cancel_replace_request_body(sender@, target@, seq_num, sending_time@, orig_cl_ord_id@, cl_ord_id@, symbol@, side, qty, ord_type, price@)),
        p == pos + order_cancel_replace_request_body(sender@, target@, seq_num, sending_time@, orig_cl_ord_id@, cl_ord_id@, symbol@, side, qty, ord_type, price@).len(),
{
    let mut pos = pos;
    let ghost mut acc = prefix;
    pos = append_standard_header(buf, pos, sender, target, seq_num, sending_time, Ghost(b0), Ghost(acc));
    proof {
        acc = acc + standard_header_fields(sender@, target@, seq_num, sending_time@);
    }
    pos = append_field(buf, pos, tags::ORIG_CL_ORD_ID, orig_cl_ord_id, Ghost(b0), Ghost(acc));
    proof {
        acc = acc + field_bytes(tags::ORIG_CL_ORD_ID, orig_cl_ord_id@);
    }
    pos = append_field(buf, pos, tags::CL_ORD_ID, cl_ord_id, Ghost(b0), Ghost(acc));
    proof {
        acc = acc + field_bytes(tags::CL_ORD_ID, cl_ord_id@);
    }
    pos = append_field(buf, pos, tags::SYMBOL, symbol, Ghost(b0), Ghost(acc));
    proof {
        acc = acc + field_bytes(tags::SYMBOL, symbol@);
    }
    let value = [side];
    assert(value@ =~= seq![side]);
    pos = append_field(buf, pos, tags::SIDE, value.as_slice(), Ghost(b0), Ghost(acc));
    proof {
        acc = acc + field_bytes(tags::SIDE, value@);
    }
    pos = append_i64_field(buf, pos, tags::ORDER_QTY, qty, Ghost(b0), Ghost(acc));
    proof {
        acc = acc + i64_field(tags::ORDER_QTY, qty);
    }
    let value = [ord_type];
    assert(value@ =~= seq![ord_type]);
    pos = append_field(buf, pos, tags::ORD_TYPE, value.as_slice(), Ghost(b0), Ghost(acc));
    proof {
        acc = acc + field_bytes(tags::ORD_TYPE, value@);
    }
    pos = append_field(buf, pos, tags::PRICE, price, Ghost(b0), Ghost(acc));
    proof {
        acc = acc + field_bytes(tags::PRICE, price@);
    }
    pos = append_field(buf, pos, tags::TRANSACT_TIME, sending_time, Ghost(b0), Ghost(acc));
    proof {
        acc = acc + field_bytes(tags::TRANSACT_TIME, sending_time@);
    }
    assert(acc =~= prefix + order_cancel_replace_request_body(sender@, target@, seq_num, sending_time@, orig_cl_ord_id@, cl_ord_id@, symbol@, side, qty, ord_type, price@));
    pos
}

/// Builds a OrderCancelReplaceRequest (35=G) message at the front of `buf`, in place; the message
/// length.
pub fn build_order_cancel_replace_request(
    buf: &mut [u8],
    begin_string: &[u8],
    sender: &[u8],
    target: &[u8],
    seq_num: u64,
    sending_time: &[u8],
    orig_cl_ord_id: &[u8],
    cl_ord_id: &[u8],
    symbol: &[u8],
    side: u8,
    qty: i64,
    ord_type: u8,
    price: &[u8],
) -> (n: usize)
    requires
        spec_order_cancel_replace_request(begin_string@, sender@, target@, seq_num, sending_time@, orig_cl_ord_id@, cl_ord_id@, symbol@, side, qty, ord_type, price@).len() <= old(buf)@.len(),
    ensures
        message_written(old(buf)@, final(buf)@, n, spec_order_cancel_replace_request(begin_string@, sender@, target@, seq_num, sending_time@, orig_cl_ord_id@, cl_ord_id@, symbol@, side, qty, ord_type, price@)),
{
    let ghost b0 = buf@;
    let msg_type = [71u8];
    assert(msg_type@ =~= seq![71u8]);
    let ghost head = message_head(begin_string@, msg_type@);
    let ghost body = order_cancel_replace_request_body(sender@, target@, seq_num, sending_time@, orig_cl_ord_id@, cl_ord_id@, symbol@, side, qty, ord_type, price@);
    let (pos, body_start): (usize, usize) = start_message(buf, begin_string, msg_type.as_slice());
    let end = append_order_cancel_replace_request_body(buf, pos, sender, target, seq_num, sending_time, orig_cl_ord_id, cl_ord_id, symbol, side, qty, ord_type, price, Ghost(b0), Ghost(head));
    finish_message(buf, end, body_start, Ghost(b0), Ghost(begin_string@), Ghost(msg_type@), Ghost(body))
}

/// The body fields of the OrderStatusRequest (35=H) message.
pub open spec fn order_status_request_body(sender: Seq<u8>, target: Seq<u8>, seq_num: u64, sending_time: Seq<u8>, cl_ord_id: Seq<u8>, symbol: Seq<u8>, side: u8) -> Seq<u8> {
    standard_header_fields(sender, target, seq_num, sending_time)
        + field_bytes(tags::CL_ORD_ID, cl_ord_id)
        + field_bytes(tags::SYMBOL, symbol)
        + field_bytes(tags::SIDE, seq![side])
}

/// The OrderStatusRequest (35=H) message.
pub open spec fn spec_order_status_request(begin_string: Seq<u8>, sender: Seq<u8>, target: Seq<u8>, seq_num: u64, sending_time: Seq<u8>, cl_ord_id: Seq<u8>, symbol: Seq<u8>, side: u8) -> Seq<u8> {
    spec_fix_message(begin_string, seq![72u8], order_status_request_body(sender, target, seq_num, sending_time, cl_ord_id, symbol, side))
}

/// Writes the body fields of the OrderStatusRequest (35=H) message after the bytes
/// `prefix` at the front of `buf`.
fn append_order_status_request_body(
    buf: &mut [u8],
    pos: usize,
    sender: &[u8],
    target: &[u8],
    seq_num: u64,
    sending_time: &[u8],
    cl_ord_id: &[u8],
    symbol: &[u8],
    side: u8,
    Ghost(b0): Ghost<Seq<u8>>,
    Ghost(prefix): Ghost<Seq<u8>>,
) -> (p: usize)
    requires
        old(buf)@ == splice(b0, 0, prefix),
        pos == prefix.len(),
        pos + order_status_request_body(sender@, target@, seq_num, sending_time@, cl_ord_id@, symbol@, side).len() <= b0.len(),
    ensures
        final(buf)@ == splice(b0, 0, prefix + order_status_request_body(sender@, target@, seq_num, sending_time@, cl_ord_id@, symbol@, side)),
        p == pos + order_status_request_body(sender@, target@, seq_num, sending_time@, cl_ord_id@, symbol@, side).len(),
{
    let mut pos = pos;
    let ghost mut acc = prefix;
    pos = append_standard_header(buf, pos, sender, target, seq_num, sending_time, Ghost(b0), Ghost(acc));
    proof {
        acc = acc + standard_header_fields(sender@, target@, seq_num, sending_time@);
    }
    pos = append_field(buf, pos, tags::CL_ORD_ID, cl_ord_id, Ghost(b0), Ghost(acc));
    proof {
        acc = acc + field_bytes(tags::CL_ORD_ID, cl_ord_id@);
    }
    pos = append_field(buf, pos, tags::SYMBOL, symbol, Ghost(b0), Ghost(acc));
    proof {
        acc = acc + field_bytes(tags::SYMBOL, symbol@);
    }
    let value = [side];
    assert(value@ =~= seq![side]);
    pos = append_field(buf, pos, tags::SIDE, value.as_slice(), Ghost(b0), Ghost(acc));
    proof {
        acc = acc + field_bytes(tags::SIDE, value@);
    }
    assert(acc =~= prefix + order_status_request_body(sender@, target@, seq_num, sending_time@, cl_ord_id@, symbol@, side));
    pos
}

/// Builds a OrderStatusRequest (35=H) message at the front of `buf`, in place; the message
/// length.
pub fn build_order_status_request(
    buf: &mut [u8],
    begin_string: &[u8],
    sender: &[u8],
    target: &[u8],
    seq_num: u64,
    sending_time: &[u8],
    cl_ord_id: &[u8],
    symbol: &[u8],
    side: u8,
) -> (n: usize)
    requires
        spec_order_status_request(begin_string@, sender@, target@, seq_num, sending_time@, cl_ord_id@, symbol@, side).len() <= old(buf)@.len(),
    ensures
        message_written(old(buf)@, final(buf)@, n, spec_order_status_request(begin_string@, sender@, target@, seq_num, sending_time@, cl_ord_id@, symbol@, side)),
{
    let ghost b0 = buf@;
    let msg_type = [72u8];
    assert(msg_type@ =~= seq![72u8]);
    let ghost head = message_head(begin_string@, msg_type@);
    let ghost body = order_status_request_body(sender@, target@, seq_num, sending_time@, cl_ord_id@, symbol@, side);
    let (pos, body_start): (usize, usize) = start_message(buf, begin_string, msg_type.as_slice());
    let end = append_order_status_request_body(buf, pos, sender, target, seq_num, sending_time, cl_ord_id, symbol, side, Ghost(b0), Ghost(head));
    finish_message(buf, end, body_start, Ghost(b0), Ghost(begin_string@), Ghost(msg_type@), Ghost(body))
}

/// The body fields of the ExecutionReport (35=8) with optional OrigClOrdID message.
pub open spec fn execution_report_with_orig_cl_ord_id_body(sender: Seq<u8>, target: Seq<u8>, seq_num: u64, sending_time: Seq<u8>, order_id: Seq<u8>, exec_id: Seq<u8>, cl_ord_id: Seq<u8>, orig_cl_ord_id: Option<Seq<u8>>, symbol: Seq<u8>, side: u8, ord_qty: i64, last_qty: i64, last_px: Seq<u8>, leaves_qty: i64, cum_qty: i64, avg_px: Seq<u8>, exec_type: u8, ord_status: u8) -> Seq<u8> {
    standard_header_fields(sender, target, seq_num, sending_time)
        + field_bytes(tags::ORDER_ID, order_id)
        + field_bytes(tags::EXEC_ID, exec_id)
        + field_bytes(tags::CL_ORD_ID, cl_ord_id)
        + opt_field(tags::ORIG_CL_ORD_ID, orig_cl_ord_id)
        + field_bytes(tags::EXEC_TYPE, seq![exec_type])
        + field_bytes(tags::ORD_STATUS, seq![ord_status])
        + field_bytes(tags::SYMBOL, symbol)
        + field_bytes(tags::SIDE, seq![side])
        + i64_field(tags::ORDER_QTY, ord_qty)
        + i64_field(tags::LAST_QTY, last_qty)
        + field_bytes(tags::LAST_PX, last_px)
        + i64_field(tags::LEAVES_QTY, leaves_qty)
        + i64_field(tags::CUM_QTY, cum_qty)
        + field_bytes(tags::AVG_PX, avg_px)
        + field_bytes(tags::TRANSACT_TIME, sending_time)
}

/// The ExecutionReport (35=8) with optional OrigClOrdID message.
pub open spec fn spec_execution_report_with_orig_cl_ord_id(begin_string: Seq<u8>, sender: Seq<u8>, target: Seq<u8>, seq_num: u64, sending_time: Seq<u8>, order_id: Seq<u8>, exec_id: Seq<u8>, cl_ord_id: Seq<u8>, orig_cl_ord_id: Option<Seq<u8>>, symbol: Seq<u8>, side: u8, ord_qty: i64, last_qty: i64, last_px: Seq<u8>, leaves_qty: i64, cum_qty: i64, avg_px: Seq<u8>, exec_type: u8, ord_status: u8) -> Seq<u8> {
    spec_fix_message(begin_string, seq![56u8], execution_report_with_orig_cl_ord_id_body(sender, target, seq_num, sending_time, order_id, exec_id, cl_ord_id, orig_cl_ord_id, symbol, side, ord_qty, last_qty, last_px, leaves_qty, cum_qty, avg_px, exec_type, ord_status))
}

/// Writes the body fields of the ExecutionReport (35=8) with optional OrigClOrdID message after the bytes
/// `prefix` at the front of `buf`.
#[verifier::spinoff_prover]
#[verifier::rlimit(60)]
fn append_execution_report_with_orig_cl_ord_id_body(
    buf: &mut [u8],
    pos: usize,
    sender: &[u8],
    target: &[u8],
    seq_num: u64,
    sending_time: &[u8],
    order_id: &[u8],
    exec_id: &[u8],
    cl_ord_id: &[u8],
    orig_cl_ord_id: Option<&[u8]>,
    symbol: &[u8],
    side: u8,
    ord_qty: i64,
    last_qty: i64,
    last_px: &[u8],
    leaves_qty: i64,
    cum_qty: i64,
    avg_px: &[u8],
    exec_type: u8,
    ord_status: u8,
    Ghost(b0): Ghost<Seq<u8>>,
    Ghost(prefix): Ghost<Seq<u8>>,
) -> (p: usize)
    requires
        old(buf)@ == splice(b0, 0, prefix),
        pos == prefix.len(),
        pos + execution_report_with_orig_cl_ord_id_body(sender@, target@, seq_num, sending_time@, order_id@, exec_id@, cl_ord_id@, opt_bytes(orig_cl_ord_id), symbol@, side, ord_qty, last_qty, last_px@, leaves_qty, cum_qty, avg_px@, exec_type, ord_status).len() <= b0.len(),
    ensures
        final(buf)@ == splice(b0, 0, prefix + execution_report_with_orig_cl_ord_id_body(sender@, target@, seq_num, sending_time@, order_id@, exec_id@, cl_ord_id@, opt_bytes(orig_cl_ord_id), symbol@, side, ord_qty, last_qty, last_px@, leaves_qty, cum_qty, avg_px@, exec_type, ord_status)),
        p == pos + execution_report_with_orig_cl_ord_id_body(sender@, target@, seq_num, sending_time@, order_id@, exec_id@, cl_ord_id@, opt_bytes(orig_cl_ord_id), symbol@, side, ord_qty, last_qty, last_px@, leaves_qty, cum_qty, avg_px@, exec_type, ord_status).len(),
{
    let mut pos = pos;
    let ghost mut acc = prefix;
    pos = append_standard_header(buf, pos, sender, target, seq_num, sending_time, Ghost(b0), Ghost(acc));
    proof {
        acc = acc + standard_header_fields(sender@, target@, seq_num, sending_time@);
    }
    pos = append_field(buf, pos, tags::ORDER_ID, order_id, Ghost(b0), Ghost(acc));
    proof {
        acc = acc + field_bytes(tags::ORDER_ID, order_id@);
    }
    pos = append_field(buf, pos, tags::EXEC_ID, exec_id, Ghost(b0), Ghost(acc));
    proof {
        acc = acc + field_bytes(tags::EXEC_ID, exec_id@);
    }
    pos = append_field(buf, pos, tags::CL_ORD_ID, cl_ord_id, Ghost(b0), Ghost(acc));
    proof {
        acc = acc + field_bytes(tags::CL_ORD_ID, cl_ord_id@);
    }
    let ghost before = acc;
    if let Some(value) = orig_cl_ord_id {
        pos = append_field(buf, pos, tags::ORIG_CL_ORD_ID, value, Ghost(b0), Ghost(acc));
        proof {
            acc = acc + field_bytes(tags::ORIG_CL_ORD_ID, value@);
        }
    }
    assert(acc =~= before + opt_field(tags::ORIG_CL_ORD_ID, opt_bytes(orig_cl_ord_id)));
    let value = [exec_type];
    assert(value@ =~= seq![exec_type]);
    pos = append_field(buf, pos, tags::EXEC_TYPE, value.as_slice(), Ghost(b0), Ghost(acc));
    proof {
        acc = acc + field_bytes(tags::EXEC_TYPE, value@);
    }
    let value = [ord_status];
    assert(value@ =~= seq![ord_status]);
    pos = append_field(buf, pos, tags::ORD_STATUS, value.as_slice(), Ghost(b0), Ghost(acc));
    proof {
        acc = acc + field_bytes(tags::ORD_STATUS, value@);
    }
    pos = append_field(buf, pos, tags::SYMBOL, symbol, Ghost(b0), Ghost(acc));
    proof {
        acc = acc + field_bytes(tags::SYMBOL, symbol@);
    }
    let value = [side];
    assert(value@ =~= seq![side]);
    pos = append_field(buf, pos, tags::SIDE, value.as_slice(), Ghost(b0), Ghost(acc));
    proof {
        acc = acc + field_bytes(tags::SIDE, value@);
    }
    pos = append_i64_field(buf, pos, tags::ORDER_QTY, ord_qty, Ghost(b0), Ghost(acc));
    proof {
        acc = acc + i64_field(tags::ORDER_QTY, ord_qty);
    }
    pos = append_i64_field(buf, pos, tags::LAST_QTY, last_qty, Ghost(b0), Ghost(acc));
    proof {
        acc = acc + i64_field(tags::LAST_QTY, last_qty);
    }
    pos = append_field(buf, pos, tags::LAST_PX, last_px, Ghost(b0), Ghost(acc));
    proof {
        acc = acc + field_bytes(tags::LAST_PX, last_px@);
    }
    pos = append_i64_field(buf, pos, tags::LEAVES_QTY, leaves_qty, Ghost(b0), Ghost(acc));
    proof {
        acc = acc + i64_field(tags::LEAVES_QTY, leaves_qty);
    }
    pos = append_i64_field(buf, pos, tags::CUM_QTY, cum_qty, Ghost(b0), Ghost(acc));
    proof {
        acc = acc + i64_field(tags::CUM_QTY, cum_qty);
    }
    pos = append_field(buf, pos, tags::AVG_PX, avg_px, Ghost(b0), Ghost(acc));
    proof {
        acc = acc + field_bytes(tags::AVG_PX, avg_px@);
    }
    pos = append_field(buf, pos, tags::TRANSACT_TIME, sending_time, Ghost(b0), Ghost(acc));
    proof {
        acc = acc + field_bytes(tags::TRANSACT_TIME, sending_time@);
    }
    assert(acc =~= prefix + execution_report_with_orig_cl_ord_id_body(sender@, target@, seq_num, sending_time@, order_id@, exec_id@, cl_ord_id@, opt_bytes(orig_cl_ord_id), symbol@, side, ord_qty, last_qty, last_px@, leaves_qty, cum_qty, avg_px@, exec_type, ord_status));
    pos
}

/// Builds a ExecutionReport (35=8) with optional OrigClOrdID message at the front of `buf`, in place; the message
/// length.
pub fn build_execution_report_with_orig_cl_ord_id(
    buf: &mut [u8],
    begin_string: &[u8],
    sender: &[u8],
    target: &[u8],
    seq_num: u64,
    sending_time: &[u8],
    order_id: &[u8],
    exec_id: &[u8],
    cl_ord_id: &[u8],
    orig_cl_ord_id: Option<&[u8]>,
    symbol: &[u8],
    side: u8,
    ord_qty: i64,
    last_qty: i64,
    last_px: &[u8],
    leaves_qty: i64,
    cum_qty: i64,
    avg_px: &[u8],
    exec_type: u8,
    ord_status: u8,
) -> (n: usize)
    requires
        spec_execution_report_with_orig_cl_ord_id(begin_string@, sender@, target@, seq_num, sending_time@, order_id@, exec_id@, cl_ord_id@, opt_bytes(orig_cl_ord_id), symbol@, side, ord_qty, last_qty, last_px@, leaves_qty, cum_qty, avg_px@, exec_type, ord_status).len() <= old(buf)@.len(),
    ensures
        message_written(old(buf)@, final(buf)@, n, spec_execution_report_with_orig_cl_ord_id(begin_string@, sender@, target@, seq_num, sending_time@, order_id@, exec_id@, cl_ord_id@, opt_bytes(orig_cl_ord_id), symbol@, side, ord_qty, last_qty, last_px@, leaves_qty, cum_qty, avg_px@, exec_type, ord_status)),
{
    let ghost b0 = buf@;
    let msg_type = [56u8];
    assert(msg_type@ =~= seq![56u8]);
    let ghost head = message_head(begin_string@, msg_type@);
    let ghost body = execution_report_with_orig_cl_ord_id_body(sender@, target@, seq_num, sending_time@, order_id@, exec_id@, cl_ord_id@, opt_bytes(orig_cl_ord_id), symbol@, side, ord_qty, last_qty, last_px@, leaves_qty, cum_qty, avg_px@, exec_type, ord_status);
    let (pos, body_start): (usize, usize) = start_message(buf, begin_string, msg_type.as_slice());
    let end = append_execution_report_with_orig_cl_ord_id_body(buf, pos, sender, target, seq_num, sending_time, order_id, exec_id, cl_ord_id, orig_cl_ord_id, symbol, side, ord_qty, last_qty, last_px, leaves_qty, cum_qty, avg_px, exec_type, ord_status, Ghost(b0), Ghost(head));
    finish_message(buf, end, body_start, Ghost(b0), Ghost(begin_string@), Ghost(msg_type@), Ghost(body))
}

/// The body fields of the OrderCancelReject (35=9) message.
pub open spec fn order_cancel_reject_body(sender: Seq<u8>, target: Seq<u8>, seq_num: u64, sending_time: Seq<u8>, order_id: Seq<u8>, cl_ord_id: Seq<u8>, orig_cl_ord_id: Seq<u8>, ord_status: u8, cxl_rej_response_to: u8, cxl_rej_reason: Option<i64>, text: Option<Seq<u8>>) -> Seq<u8> {
    standard_header_fields(sender, target, seq_num, sending_time)
        + field_bytes(tags::ORDER_ID, order_id)
        + field_bytes(tags::CL_ORD_ID, cl_ord_id)
        + field_bytes(tags::ORIG_CL_ORD_ID, orig_cl_ord_id)
        + field_bytes(tags::ORD_STATUS, seq![ord_status])
        + field_bytes(tags::CXL_REJ_RESPONSE_TO, seq![cxl_rej_response_to])
        + opt_i64_field(tags::CXL_REJ_REASON, cxl_rej_reason)
        + opt_field(tags::TEXT, text)
}

/// The OrderCancelReject (35=9) message.
pub open spec fn spec_order_cancel_reject(begin_string: Seq<u8>, sender: Seq<u8>, target: Seq<u8>, seq_num: u64, sending_time: Seq<u8>, order_id: Seq<u8>, cl_ord_id: Seq<u8>, orig_cl_ord_id: Seq<u8>, ord_status: u8, cxl_rej_response_to: u8, cxl_rej_reason: Option<i64>, text: Option<Seq<u8>>) -> Seq<u8> {
    spec_fix_message(begin_string, seq![57u8], order_cancel_reject_body(sender, target, seq_num, sending_time, order_id, cl_ord_id, orig_cl_ord_id, ord_status, cxl_rej_response_to, cxl_rej_reason, text))
}

/// Writes the body fields of the OrderCancelReject (35=9) message after the bytes
/// `prefix` at the front of `buf`.
fn append_order_cancel_reject_body(
    buf: &mut [u8],
    pos: usize,
    sender: &[u8],
    target: &[u8],
    seq_num: u64,
    sending_time: &[u8],
    order_id: &[u8],
    cl_ord_id: &[u8],
    orig_cl_ord_id: &[u8],
    ord_status: u8,
    cxl_rej_response_to: u8,
    cxl_rej_reason: Option<i64>,
    text: Option<&[u8]>,
    Ghost(b0): Ghost<Seq<u8>>,
    Ghost(prefix): Ghost<Seq<u8>>,
) -> (p: usize)
    requires
        old(buf)@ == splice(b0, 0, prefix),
        pos == prefix.len(),
        pos + order_cancel_reject_body(sender@, target@, seq_num, sending_time@, order_id@, cl_ord_id@, orig_cl_ord_id@, ord_status, cxl_rej_response_to, cxl_rej_reason, opt_bytes(text)).len() <= b0.len(),
    ensures
        final(buf)@ == splice(b0, 0, prefix + order_cancel_reject_body(sender@, target@, seq_num, sending_time@, order_id@, cl_ord_id@, orig_cl_ord_id@, ord_status, cxl_rej_response_to, cxl_rej_reason, opt_bytes(text))),
        p == pos + order_cancel_reject_body(sender@, target@, seq_num, sending_time@, order_id@, cl_ord_id@, orig_cl_ord_id@, ord_status, cxl_rej_response_to, cxl_rej_reason, opt_bytes(text)).len(),
{
    let mut pos = pos;
    let ghost mut acc = prefix;
    pos = append_standard_header(buf, pos, sender, target, seq_num, sending_time, Ghost(b0), Ghost(acc));
    proof {
        acc = acc + standard_header_fields(sender@, target@, seq_num, sending_time@);
    }
    pos = append_field(buf, pos, tags::ORDER_ID, order_id, Ghost(b0), Ghost(acc));
    proof {
        acc = acc + field_bytes(tags::ORDER_ID, order_id@);
    }
    pos = append_field(buf, pos, tags::CL_ORD_ID, cl_ord_id, Ghost(b0), Ghost(acc));
    proof {
        acc = acc + field_bytes(tags::CL_ORD_ID, cl_ord_id@);
    }
    pos = append_field(buf, pos, tags::ORIG_CL_ORD_ID, orig_cl_ord_id, Ghost(b0), Ghost(acc));
    proof {
        acc = acc + field_bytes(tags::ORIG_CL_ORD_ID, orig_cl_ord_id@);
    }
    let value = [ord_status];
    assert(value@ =~= seq![ord_status]);
    pos = append_field(buf, pos, tags::ORD_STATUS, value.as_slice(), Ghost(b0), Ghost(acc));
    proof {
        acc = acc + field_bytes(tags::ORD_STATUS, value@);
    }
    let value = [cxl_rej_response_to];
    assert(value@ =~= seq![cxl_rej_response_to]);
    pos = append_field(buf, pos, tags::CXL_REJ_RESPONSE_TO, value.as_slice(), Ghost(b0), Ghost(acc));
    proof {
        acc = acc + field_bytes(tags::CXL_REJ_RESPONSE_TO, value@);
    }
    let ghost before = acc;
    if let Some(value) = cxl_rej_reason {
        pos = append_i64_field(buf, pos, tags::CXL_REJ_REASON, value, Ghost(b0), Ghost(acc));
        proof {
            acc = acc + i64_field(tags::CXL_REJ_REASON, value);
        }
    }
    assert(acc =~= before + opt_i64_field(tags::CXL_REJ_REASON, cxl_rej_reason));
    let ghost before = acc;
    if let Some(value) = text {
        pos = append_field(buf, pos, tags::TEXT, value, Ghost(b0), Ghost(acc));
        proof {
            acc = acc + field_bytes(tags::TEXT, value@);
        }
    }
    assert(acc =~= before + opt_field(tags::TEXT, opt_bytes(text)));
    assert(acc =~= prefix + order_cancel_reject_body(sender@, target@, seq_num, sending_time@, order_id@, cl_ord_id@, orig_cl_ord_id@, ord_status, cxl_rej_response_to, cxl_rej_reason, opt_bytes(text)));
    pos
}

/// Builds a OrderCancelReject (35=9) message at the front of `buf`, in place; the message
/// length.
pub fn build_order_cancel_reject(
    buf: &mut [u8],
    begin_string: &[u8],
    sender: &[u8],
    target: &[u8],
    seq_num: u64,
    sending_time: &[u8],
    order_id: &[u8],
    cl_ord_id: &[u8],
    orig_cl_ord_id: &[u8],
    ord_status: u8,
    cxl_rej_response_to: u8,
    cxl_rej_reason: Option<i64>,
    text: Option<&[u8]>,
) -> (n: usize)
    requires
        spec_order_cancel_reject(begin_string@, sender@, target@, seq_num, sending_time@, order_id@, cl_ord_id@, orig_cl_ord_id@, ord_status, cxl_rej_response_to, cxl_rej_reason, opt_bytes(text)).len() <= old(buf)@.len(),
    ensures
        message_written(old(buf)@, final(buf)@, n, spec_order_cancel_reject(begin_string@, sender@, target@, seq_num, sending_time@, order_id@, cl_ord_id@, orig_cl_ord_id@, ord_status, cxl_rej_response_to, cxl_rej_reason, opt_bytes(text))),
{
    let ghost b0 = buf@;
    let msg_type = [57u8];
    assert(msg_type@ =~= seq![57u8]);
    let ghost head = message_head(begin_string@, msg_type@);
    let ghost body = order_cancel_reject_body(sender@, target@, seq_num, sending_time@, order_id@, cl_ord_id@, orig_cl_ord_id@, ord_status, cxl_rej_response_to, cxl_rej_reason, opt_bytes(text));
    let (pos, body_start): (usize, usize) = start_message(buf, begin_string, msg_type.as_slice());
    let end = append_order_cancel_reject_body(buf, pos, sender, target, seq_num, sending_time, order_id, cl_ord_id, orig_cl_ord_id, ord_status, cxl_rej_response_to, cxl_rej_reason, text, Ghost(b0), Ghost(head));
    finish_message(buf, end, body_start, Ghost(b0), Ghost(begin_string@), Ghost(msg_type@), Ghost(body))
}

/// Builds an ExecutionReport (35=8) message without OrigClOrdID at the
/// front of `buf`; the message length.
pub fn build_execution_report(
    buf: &mut [u8],
    begin_string: &[u8],
    sender: &[u8],
    target: &[u8],
    seq_num: u64,
    sending_time: &[u8],
    order_id: &[u8],
    exec_id: &[u8],
    cl_ord_id: &[u8],
    symbol: &[u8],
    side: u8,
    ord_qty: i64,
    last_qty: i64,
    last_px: &[u8],
    leaves_qty: i64,
    cum_qty: i64,
    avg_px: &[u8],
    exec_type: u8,
    ord_status: u8,
) -> (n: usize)
    requires
        spec_execution_report_with_orig_cl_ord_id(begin_string@, sender@, target@, seq_num, sending_time@, order_id@, exec_id@, cl_ord_id@, None, symbol@, side, ord_qty, last_qty, last_px@, leaves_qty, cum_qty, avg_px@, exec_type, ord_status).len() <= old(buf)@.len(),
    ensures
        message_written(old(buf)@, final(buf)@, n, spec_execution_report_with_orig_cl_ord_id(begin_string@, sender@, target@, seq_num, sending_time@, order_id@, exec_id@, cl_ord_id@, None, symbol@, side, ord_qty, last_qty, last_px@, leaves_qty, cum_qty, avg_px@, exec_type, ord_status)),
{
    build_execution_report_with_orig_cl_ord_id(
        buf,
        begin_string,
        sender,
        target,
        seq_num,
        sending_time,
        order_id,
        exec_id,
        cl_ord_id,
        None,
        symbol,
        side,
        ord_qty,
        last_qty,
        last_px,
        leaves_qty,
        cum_qty,
        avg_px,
        exec_type,
        ord_status,
    )
}

} // verus!
