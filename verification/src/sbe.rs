//! Simple Binary Encoding primitives shared by the codecs of this crate:
//! little-endian integers, the eight-byte message header, length-prefixed
//! variable data, and the codec error type.
use vstd::prelude::*;
use vstd::utf8::*;

verus! {

broadcast use {encode_utf8_valid_utf8, encode_utf8_decode_utf8};

/// Identifier of the schema that every frame of this crate carries.
pub const SBE_SCHEMA_ID: u16 = 1u16;
/// Version of that schema.
pub const SBE_SCHEMA_VERSION: u16 = 0u16;
/// Length of the SBE message header.
pub const SBE_HEADER_LENGTH: usize = 8usize;
/// Length of the prefix that carries the length of a variable-data field.
pub const VAR_DATA_LENGTH_PREFIX: usize = 4usize;
/// Largest length a variable-data field may have.
pub const MAX_VAR_DATA_LEN: usize = 4294967294usize;

/// What an input to a codec is wrong about.
#[derive(Debug, Clone, Copy, PartialEq, Eq)]
pub enum CodecErrorKind {
    /// The caller handed in a value that cannot be encoded.
    InvalidInput,
    /// The bytes handed in are not a well-formed frame.
    InvalidData,
}

/// Errors of the SBE codecs.
#[derive(Debug, Clone, PartialEq, Eq)]
pub enum CodecError {
    /// A variable-data field is longer than `MAX_VAR_DATA_LEN` bytes.
    VarDataTooLong,
    /// The encoded frame would be longer than the address space.
    FrameTooLarge,
    /// The frame is shorter than the header (or the envelope overhead).
    FrameTooShort,
    /// The header names another schema.
    SchemaMismatch { schema_id: u16 },
    /// The header names another message template.
    TemplateMismatch { template_id: u16 },
    /// The fixed-size block is cut off by the end of the frame.
    BlockTruncated,
    /// A variable-data field reaches past the end of the frame.
    VarDataOutOfBounds,
    /// A text field is not valid UTF-8.
    InvalidUtf8,
    /// A FIX MsgType that names no order lifecycle request.
    UnsupportedMsgType { msg_type: Vec<u8> },
    /// A CxlRejResponseTo value that names no lifecycle action.
    UnsupportedResponseTarget { value: u8 },
    /// A status request cannot be the target of a cancel reject.
    StatusNotRejectTarget,
}

impl CodecError {
    /// The kind of the error: bad caller input, or a malformed frame.
    pub fn kind(&self) -> (k: CodecErrorKind)
        ensures
            k == self.spec_kind(),
    {
        match self {
            CodecError::VarDataTooLong => CodecErrorKind::InvalidInput,
            CodecError::FrameTooLarge => CodecErrorKind::InvalidInput,
            CodecError::UnsupportedMsgType { .. } => CodecErrorKind::InvalidInput,
            CodecError::StatusNotRejectTarget => CodecErrorKind::InvalidInput,
            _ => CodecErrorKind::InvalidData,
        }
    }

    pub open spec fn spec_kind(&self) -> CodecErrorKind {
        match self {
            CodecError::VarDataTooLong => CodecErrorKind::InvalidInput,
            CodecError::FrameTooLarge => CodecErrorKind::InvalidInput,
            CodecError::UnsupportedMsgType { .. } => CodecErrorKind::InvalidInput,
            CodecError::StatusNotRejectTarget => CodecErrorKind::InvalidInput,
            _ => CodecErrorKind::InvalidData,
        }
    }
}

// ---------------------------------------------------------------------------
// Little-endian integers
// ---------------------------------------------------------------------------

/// Little-endian bytes of a `u16`.
pub open spec fn le16(v: u16) -> Seq<u8> {
    seq![(v & 0xff) as u8, ((v >> 8u16) & 0xff) as u8]
}

/// Little-endian bytes of a `u32`.
pub open spec fn le32(v: u32) -> Seq<u8> {
    seq![
        (v & 0xff) as u8,
        ((v >> 8u32) & 0xff) as u8,
        ((v >> 16u32) & 0xff) as u8,
        ((v >> 24u32) & 0xff) as u8,
    ]
}

/// Little-endian bytes of a `u64`.
pub open spec fn le64(v: u64) -> Seq<u8> {
    seq![
        (v & 0xff) as u8,
        ((v >> 8u64) & 0xff) as u8,
        ((v >> 16u64) & 0xff) as u8,
        ((v >> 24u64) & 0xff) as u8,
        ((v >> 32u64) & 0xff) as u8,
        ((v >> 40u64) & 0xff) as u8,
        ((v >> 48u64) & 0xff) as u8,
        ((v >> 56u64) & 0xff) as u8,
    ]
}

/// Little-endian bytes of an `i32` (two's complement).
pub open spec fn le_i32(v: i32) -> Seq<u8> {
    le32(v as u32)
}

/// Little-endian bytes of an `i64` (two's complement).
pub open spec fn le_i64(v: i64) -> Seq<u8> {
    le64(v as u64)
}

/// The `u16` stored little-endian at `off` in `s`.
pub open spec fn get_le16(s: Seq<u8>, off: int) -> u16 {
    (s[off] as u16) | ((s[off + 1] as u16) << 8u16)
}

/// The `u32` stored little-endian at `off` in `s`.
pub open spec fn get_le32(s: Seq<u8>, off: int) -> u32 {
    (s[off] as u32) | ((s[off + 1] as u32) << 8u32) | ((s[off + 2] as u32) << 16u32) | ((s[off
        + 3] as u32) << 24u32)
}

/// The `u64` stored little-endian at `off` in `s`.
pub open spec fn get_le64(s: Seq<u8>, off: int) -> u64 {
    (s[off] as u64) | ((s[off + 1] as u64) << 8u64) | ((s[off + 2] as u64) << 16u64) | ((s[off
        + 3] as u64) << 24u64) | ((s[off + 4] as u64) << 32u64) | ((s[off + 5] as u64) << 40u64)
        | ((s[off + 6] as u64) << 48u64) | ((s[off + 7] as u64) << 56u64)
}

pub proof fn lemma_le16_roundtrip(v: u16)
    ensures
        get_le16(le16(v), 0) == v,
{
    let b0 = (v & 0xff) as u8;
    let b1 = ((v >> 8u16) & 0xff) as u8;
    assert((b0 as u16) | ((b1 as u16) << 8u16) == v) by (bit_vector)
        requires
            b0 == (v & 0xff) as u8,
            b1 == ((v >> 8u16) & 0xff) as u8,
    ;
}

pub proof fn lemma_le32_roundtrip(v: u32)
    ensures
        get_le32(le32(v), 0) == v,
{
    let b0 = (v & 0xff) as u8;
    let b1 = ((v >> 8u32) & 0xff) as u8;
    let b2 = ((v >> 16u32) & 0xff) as u8;
    let b3 = ((v >> 24u32) & 0xff) as u8;
    assert((b0 as u32) | ((b1 as u32) << 8u32) | ((b2 as u32) << 16u32) | ((b3 as u32) << 24u32)
        == v) by (bit_vector)
        requires
            b0 == (v & 0xff) as u8,
            b1 == ((v >> 8u32) & 0xff) as u8,
            b2 == ((v >> 16u32) & 0xff) as u8,
            b3 == ((v >> 24u32) & 0xff) as u8,
    ;
}

pub proof fn lemma_le64_roundtrip(v: u64)
    ensures
        get_le64(le64(v), 0) == v,
{
    let b0 = (v & 0xff) as u8;
    let b1 = ((v >> 8u64) & 0xff) as u8;
    let b2 = ((v >> 16u64) & 0xff) as u8;
    let b3 = ((v >> 24u64) & 0xff) as u8;
    let b4 = ((v >> 32u64) & 0xff) as u8;
    let b5 = ((v >> 40u64) & 0xff) as u8;
    let b6 = ((v >> 48u64) & 0xff) as u8;
    let b7 = ((v >> 56u64) & 0xff) as u8;
    assert((b0 as u64) | ((b1 as u64) << 8u64) | ((b2 as u64) << 16u64) | ((b3 as u64) << 24u64)
        | ((b4 as u64) << 32u64) | ((b5 as u64) << 40u64) | ((b6 as u64) << 48u64) | ((b7 as u64)
        << 56u64) == v) by (bit_vector)
        requires
            b0 == (v & 0xff) as u8,
            b1 == ((v >> 8u64) & 0xff) as u8,
            b2 == ((v >> 16u64) & 0xff) as u8,
            b3 == ((v >> 24u64) & 0xff) as u8,
            b4 == ((v >> 32u64) & 0xff) as u8,
            b5 == ((v >> 40u64) & 0xff) as u8,
            b6 == ((v >> 48u64) & 0xff) as u8,
            b7 == ((v >> 56u64) & 0xff) as u8,
    ;
}

pub proof fn lemma_i64_roundtrip(v: i64)
    ensures
        (v as u64) as i64 == v,
{
    assert((v as u64) as i64 == v) by (bit_vector);
}

pub proof fn lemma_i32_roundtrip(v: i32)
    ensures
        (v as u32) as i32 == v,
{
    assert((v as u32) as i32 == v) by (bit_vector);
}

/// Appends the little-endian bytes of `v`.
pub fn push_u16_le(out: &mut Vec<u8>, v: u16)
    ensures
        final(out)@ == old(out)@ + le16(v),
{
    out.push((v & 0xff) as u8);
    out.push(((v >> 8u16) & 0xff) as u8);
    assert(final(out)@ =~= old(out)@ + le16(v));
}

/// Appends the little-endian bytes of `v`.
pub fn push_u32_le(out: &mut Vec<u8>, v: u32)
    ensures
        final(out)@ == old(out)@ + le32(v),
{
    out.push((v & 0xff) as u8);
    out.push(((v >> 8u32) & 0xff) as u8);
    out.push(((v >> 16u32) & 0xff) as u8);
    out.push(((v >> 24u32) & 0xff) as u8);
    assert(final(out)@ =~= old(out)@ + le32(v));
}

/// Appends the little-endian bytes of `v`.
pub fn push_u64_le(out: &mut Vec<u8>, v: u64)
    ensures
        final(out)@ == old(out)@ + le64(v),
{
    out.push((v & 0xff) as u8);
    out.push(((v >> 8u64) & 0xff) as u8);
    out.push(((v >> 16u64) & 0xff) as u8);
    out.push(((v >> 24u64) & 0xff) as u8);
    out.push(((v >> 32u64) & 0xff) as u8);
    out.push(((v >> 40u64) & 0xff) as u8);
    out.push(((v >> 48u64) & 0xff) as u8);
    out.push(((v >> 56u64) & 0xff) as u8);
    assert(final(out)@ =~= old(out)@ + le64(v));
}

/// Reads the little-endian `u16` at `off`.
pub fn read_u16_le(s: &[u8], off: usize) -> (v: u16)
    requires
        off + 2 <= s@.len(),
    ensures
        v == get_le16(s@, off as int),
{
    (s[off] as u16) | ((s[off + 1] as u16) << 8u16)
}

/// Reads the little-endian `u32` at `off`.
pub fn read_u32_le(s: &[u8], off: usize) -> (v: u32)
    requires
        off + 4 <= s@.len(),
    ensures
        v == get_le32(s@, off as int),
{
    (s[off] as u32) | ((s[off + 1] as u32) << 8u32) | ((s[off + 2] as u32) << 16u32) | ((s[off
        + 3] as u32) << 24u32)
}

/// Reads the little-endian `u64` at `off`.
pub fn read_u64_le(s: &[u8], off: usize) -> (v: u64)
    requires
        off + 8 <= s@.len(),
    ensures
        v == get_le64(s@, off as int),
{
    (s[off] as u64) | ((s[off + 1] as u64) << 8u64) | ((s[off + 2] as u64) << 16u64) | ((s[off
        + 3] as u64) << 24u64) | ((s[off + 4] as u64) << 32u64) | ((s[off + 5] as u64) << 40u64)
        | ((s[off + 6] as u64) << 48u64) | ((s[off + 7] as u64) << 56u64)
}

/// A little-endian value read inside a longer sequence only depends on the
/// bytes of its own window.
pub proof fn lemma_get_le_window(a: Seq<u8>, off: int, n: int)
    requires
        0 <= off,
        off + n <= a.len(),
    ensures
        n >= 2 ==> get_le16(a, off) == get_le16(a.subrange(off, off + n), 0),
        n >= 4 ==> get_le32(a, off) == get_le32(a.subrange(off, off + n), 0),
        n >= 8 ==> get_le64(a, off) == get_le64(a.subrange(off, off + n), 0),
{
    let w = a.subrange(off, off + n);
    assert forall|i: int| 0 <= i < n implies w[i] == a[off + i] by {}
    if n >= 8 {
        assert(w[4] == a[off + 4] && w[5] == a[off + 5] && w[6] == a[off + 6] && w[7] == a[off
            + 7]);
    }
    if n >= 4 {
        assert(w[2] == a[off + 2] && w[3] == a[off + 3]);
    }
    if n >= 2 {
        assert(w[0] == a[off] && w[1] == a[off + 1]);
    }
}

// ---------------------------------------------------------------------------
// Header and variable data
// ---------------------------------------------------------------------------

/// The message header: block length, template id, schema id, version.
pub open spec fn spec_header(block_length: u16, template_id: u16) -> Seq<u8> {
    le16(block_length) + le16(template_id) + le16(SBE_SCHEMA_ID) + le16(SBE_SCHEMA_VERSION)
}

/// The UTF-8 bytes of a text value.
pub open spec fn text_bytes(s: Seq<char>) -> Seq<u8> {
    encode_utf8(s)
}

/// Whether a text value fits in a variable-data field.
pub open spec fn text_fits(s: Seq<char>) -> bool {
    text_bytes(s).len() <= MAX_VAR_DATA_LEN
}

/// A variable-data field holding `bytes`: a `u32` length then the bytes.
pub open spec fn var_data(bytes: Seq<u8>) -> Seq<u8> {
    le32(bytes.len() as u32) + bytes
}

/// A variable-data field holding the UTF-8 encoding of `s`.
pub open spec fn var_text(s: Seq<char>) -> Seq<u8> {
    var_data(text_bytes(s))
}

/// Appends the message header.
pub fn push_header(out: &mut Vec<u8>, block_length: u16, template_id: u16)
    ensures
        final(out)@ == old(out)@ + spec_header(block_length, template_id),
{
    push_u16_le(out, block_length);
    push_u16_le(out, template_id);
    push_u16_le(out, SBE_SCHEMA_ID);
    push_u16_le(out, SBE_SCHEMA_VERSION);
    assert(final(out)@ =~= old(out)@ + spec_header(block_length, template_id));
}

/// Appends a variable-data field holding the UTF-8 bytes of `value`.
pub fn push_var_text(out: &mut Vec<u8>, value: &str)
    requires
        text_fits(value@),
    ensures
        final(out)@ == old(out)@ + var_text(value@),
{
    let bytes = value.as_bytes();
    assert(bytes@.len() <= MAX_VAR_DATA_LEN);
    push_u32_le(out, bytes.len() as u32);
    out.extend_from_slice(bytes);
    assert(final(out)@ =~= old(out)@ + var_text(value@));
}

/// Whether `value` fits in a variable-data field; `Err(VarDataTooLong)`
/// otherwise.
pub fn ensure_var_data_len(value: &str) -> (r: Result<(), CodecError>)
    ensures
        r is Ok <==> text_fits(value@),
        r is Err ==> r == Err::<(), CodecError>(CodecError::VarDataTooLong),
{
    if value.as_bytes().len() > MAX_VAR_DATA_LEN {
        Err(CodecError::VarDataTooLong)
    } else {
        Ok(())
    }
}

/// Copies `content` to the front of `frame_buf`, growing it with zeros when
/// it is shorter than `content`; bytes past `content` are left as they were.
pub fn write_frame(frame_buf: &mut Vec<u8>, content: &Vec<u8>)
    ensures
        final(frame_buf)@.len() == if old(frame_buf)@.len() < content@.len() {
            content@.len()
        } else {
            old(frame_buf)@.len()
        },
        final(frame_buf)@.take(content@.len() as int) == content@,
        old(frame_buf)@.len() >= content@.len() ==> final(frame_buf)@.skip(content@.len() as int)
            == old(frame_buf)@.skip(content@.len() as int),
{
    let n = content.len();
    if frame_buf.len() < n {
        frame_buf.resize(n, 0u8);
    }
    let ghost resized = frame_buf@;
    let mut i: usize = 0;
    while i < n
        invariant
            n == content@.len(),
            i <= n,
            frame_buf@.len() == resized.len(),
            resized.len() >= n,
            forall|j: int| 0 <= j < i ==> frame_buf@[j] == content@[j],
            forall|j: int| i <= j < frame_buf@.len() ==> frame_buf@[j] == resized[j],
        decreases n - i,
    {
        frame_buf.set(i, content[i]);
        i = i + 1;
    }
    assert(frame_buf@.take(n as int) =~= content@);
    proof {
        if old(frame_buf)@.len() >= n {
            assert(resized == old(frame_buf)@);
            assert(frame_buf@.skip(n as int) =~= old(frame_buf)@.skip(n as int));
        }
    }
}

// ---------------------------------------------------------------------------
// Decoding
// ---------------------------------------------------------------------------

/// Outcome of reading the header: the acting block length and template id,
/// or why the header is refused.
pub open spec fn spec_read_header(frame: Seq<u8>) -> Result<(u16, u16), CodecError> {
    if frame.len() < SBE_HEADER_LENGTH {
        Err(CodecError::FrameTooShort)
    } else if get_le16(frame, 4) != SBE_SCHEMA_ID {
        Err(CodecError::SchemaMismatch { schema_id: get_le16(frame, 4) })
    } else {
        Ok((get_le16(frame, 0), get_le16(frame, 2)))
    }
}

/// Outcome of reading the header of a frame that must carry `template_id`:
/// the acting block length.
pub open spec fn spec_validate_header(frame: Seq<u8>, template_id: u16) -> Result<
    u16,
    CodecError,
> {
    match spec_read_header(frame) {
        Err(e) => Err(e),
        Ok((bl, tid)) => if tid != template_id {
            Err(CodecError::TemplateMismatch { template_id: tid })
        } else {
            Ok(bl)
        },
    }
}

/// Reads the header; the acting block length and the template id.
pub fn read_header(frame: &[u8]) -> (r: Result<(u16, u16), CodecError>)
    ensures
        r == spec_read_header(frame@),
{
    if frame.len() < SBE_HEADER_LENGTH {
        return Err(CodecError::FrameTooShort);
    }
    let schema_id = read_u16_le(frame, 4);
    if schema_id != SBE_SCHEMA_ID {
        return Err(CodecError::SchemaMismatch { schema_id });
    }
    Ok((read_u16_le(frame, 0), read_u16_le(frame, 2)))
}

/// Reads the header of a frame that must carry `template_id`; the acting
/// block length.
pub fn validate_header(frame: &[u8], template_id: u16) -> (r: Result<u16, CodecError>)
    ensures
        r == spec_validate_header(frame@, template_id),
{
    let (bl, tid) = read_header(frame)?;
    if tid != template_id {
        return Err(CodecError::TemplateMismatch { template_id: tid });
    }
    Ok(bl)
}

/// The template id of a frame whose header names this crate's schema.
pub open spec fn spec_peek_template_id(frame: Seq<u8>) -> Result<u16, CodecError> {
    match spec_read_header(frame) {
        Err(e) => Err(e),
        Ok((_, tid)) => Ok(tid),
    }
}

/// Outcome of reading the variable-data field that starts at `cursor`:
/// its bytes and the position after it.
pub open spec fn spec_var_field(frame: Seq<u8>, cursor: int) -> Result<(Seq<u8>, int), CodecError> {
    if cursor + 4 > frame.len() {
        Err(CodecError::VarDataOutOfBounds)
    } else {
        let len = get_le32(frame, cursor) as int;
        if cursor + 4 + len > frame.len() {
            Err(CodecError::VarDataOutOfBounds)
        } else {
            Ok((frame.subrange(cursor + 4, cursor + 4 + len), cursor + 4 + len))
        }
    }
}

/// Outcome of reading the text field that starts at `cursor`.
pub open spec fn spec_text_field(frame: Seq<u8>, cursor: int) -> Result<(Seq<char>, int), CodecError> {
    match spec_var_field(frame, cursor) {
        Err(e) => Err(e),
        Ok((bytes, next)) => if valid_utf8(bytes) {
            Ok((decode_utf8(bytes), next))
        } else {
            Err(CodecError::InvalidUtf8)
        },
    }
}

/// `std::str::from_utf8`: documented to succeed exactly on valid UTF-8, and
/// then to view the same bytes as text.
#[verifier::external_body]
pub(crate) fn str_from_utf8(bytes: &[u8]) -> (r: Option<&str>)
    ensures
        r is Some <==> valid_utf8(bytes@),
        r matches Some(s) ==> s@ == decode_utf8(bytes@),
{
    std::str::from_utf8(bytes).ok()
}

/// Reads the text field that starts at `cursor`: the text and the position
/// after it.
pub fn read_text_field<'a>(frame: &'a [u8], cursor: usize) -> (r: Result<(&'a str, usize), CodecError>)
    ensures
        match spec_text_field(frame@, cursor as int) {
            Ok((text, next)) => r matches Ok((s, n)) && s@ == text && n == next,
            Err(e) => r == Err::<(&'a str, usize), CodecError>(e),
        },
{
    let (bytes, end) = read_var_field(frame, cursor)?;
    match str_from_utf8(bytes) {
        Some(s) => Ok((s, end)),
        None => Err(CodecError::InvalidUtf8),
    }
}

/// A text field written by `var_text` reads back as the same text, and the
/// reader stops right after it.
pub proof fn lemma_text_field_roundtrip(prefix: Seq<u8>, s: Seq<char>, rest: Seq<u8>)
    requires
        text_fits(s),
    ensures
        spec_text_field(prefix + var_text(s) + rest, prefix.len() as int) == Ok::<
            (Seq<char>, int),
            CodecError,
        >((s, (prefix.len() + var_text(s).len()) as int)),
{
    lemma_var_field_roundtrip(prefix, text_bytes(s), rest);
}

/// A variable-data field written by `var_data` reads back as the same bytes,
/// and the reader stops right after it.
pub proof fn lemma_var_field_roundtrip(prefix: Seq<u8>, b: Seq<u8>, rest: Seq<u8>)
    requires
        b.len() <= MAX_VAR_DATA_LEN,
    ensures
        spec_var_field(prefix + var_data(b) + rest, prefix.len() as int) == Ok::<
            (Seq<u8>, int),
            CodecError,
        >((b, (prefix.len() + var_data(b).len()) as int)),
{
    let f = prefix + var_data(b) + rest;
    let p = prefix.len() as int;
    lemma_le32_roundtrip(b.len() as u32);
    lemma_get_le_window(f, p, 4);
    assert(f.subrange(p, p + 4) =~= le32(b.len() as u32));
    assert(f.subrange(p + 4, p + 4 + b.len()) =~= b);
}

/// Reads the variable-data field that starts at `cursor`: its bytes and the
/// position after it.
pub fn read_var_field<'a>(frame: &'a [u8], cursor: usize) -> (r: Result<(&'a [u8], usize), CodecError>)
    ensures
        match spec_var_field(frame@, cursor as int) {
            Ok((bytes, next)) => r matches Ok((b, n)) && b@ == bytes && n == next,
            Err(e) => r == Err::<(&'a [u8], usize), CodecError>(e),
        },
{
    if cursor > frame.len() || frame.len() - cursor < 4 {
        return Err(CodecError::VarDataOutOfBounds);
    }
    let len = read_u32_le(frame, cursor) as usize;
    if frame.len() - cursor - 4 < len {
        return Err(CodecError::VarDataOutOfBounds);
    }
    let start = cursor + 4;
    let end = start + len;
    Ok((vstd::slice::slice_subrange(frame, start, end), end))
}

/// Appends a variable-data field holding `bytes`.
pub fn push_var_data(out: &mut Vec<u8>, bytes: &[u8])
    requires
        bytes@.len() <= MAX_VAR_DATA_LEN,
    ensures
        final(out)@ == old(out)@ + var_data(bytes@),
{
    push_u32_le(out, bytes.len() as u32);
    out.extend_from_slice(bytes);
    assert(final(out)@ =~= old(out)@ + var_data(bytes@));
}

// ---------------------------------------------------------------------------
// Runs of text fields
// ---------------------------------------------------------------------------

/// The variable-data fields holding each text of `ts`, in order.
pub open spec fn var_texts(ts: Seq<Seq<char>>) -> Seq<u8>
    decreases ts.len(),
{
    if ts.len() == 0 {
        Seq::empty()
    } else {
        var_texts(ts.drop_last()) + var_text(ts.last())
    }
}

/// Whether every text of `ts` fits in a variable-data field.
pub open spec fn texts_fit(ts: Seq<Seq<char>>) -> bool {
    forall|i: int| 0 <= i < ts.len() ==> text_fits(#[trigger] ts[i])
}

/// The text views of a run of string slices.
pub open spec fn str_views(v: Seq<&str>) -> Seq<Seq<char>> {
    v.map_values(|s: &str| s@)
}

/// Outcome of reading `n` text fields in a row, starting at `cursor`: the
/// texts and the position after the last one.
pub open spec fn spec_read_texts(frame: Seq<u8>, cursor: int, n: nat) -> Result<
    (Seq<Seq<char>>, int),
    CodecError,
>
    decreases n,
{
    if n == 0 {
        Ok((Seq::empty(), cursor))
    } else {
        match spec_read_texts(frame, cursor, (n - 1) as nat) {
            Err(e) => Err(e),
            Ok((ts, c)) => match spec_text_field(frame, c) {
                Err(e) => Err(e),
                Ok((t, next)) => Ok((ts.push(t), next)),
            },
        }
    }
}

/// Once reading a run of fields has failed, reading a longer run fails the
/// same way.
pub proof fn lemma_read_texts_err(frame: Seq<u8>, cursor: int, i: nat, n: nat)
    requires
        i <= n,
        spec_read_texts(frame, cursor, i) is Err,
    ensures
        spec_read_texts(frame, cursor, n) == spec_read_texts(frame, cursor, i),
    decreases n - i,
{
    if i < n {
        lemma_read_texts_err(frame, cursor, i, (n - 1) as nat);
    }
}

/// Reading back text fields written by `var_texts` gives the same texts.
pub proof fn lemma_read_texts_roundtrip(prefix: Seq<u8>, ts: Seq<Seq<char>>, rest: Seq<u8>)
    requires
        texts_fit(ts),
    ensures
        spec_read_texts(prefix + var_texts(ts) + rest, prefix.len() as int, ts.len()) == Ok::<
            (Seq<Seq<char>>, int),
            CodecError,
        >((ts, (prefix.len() + var_texts(ts).len()) as int)),
    decreases ts.len(),
{
    if ts.len() > 0 {
        let init = ts.drop_last();
        let last = ts.last();
        assert(texts_fit(init)) by {
            assert forall|i: int| 0 <= i < init.len() implies text_fits(#[trigger] init[i]) by {
                assert(init[i] == ts[i]);
            }
        }
        assert(text_fits(ts[ts.len() - 1]));
        let rest2 = var_text(last) + rest;
        assert(prefix + var_texts(ts) + rest =~= prefix + var_texts(init) + rest2);
        lemma_read_texts_roundtrip(prefix, init, rest2);
        let f = prefix + var_texts(ts) + rest;
        assert(f =~= (prefix + var_texts(init)) + var_text(last) + rest);
        lemma_text_field_roundtrip(prefix + var_texts(init), last, rest);
        assert(init.push(last) =~= ts);
    } else {
        assert(ts =~= Seq::<Seq<char>>::empty());
        assert(prefix + var_texts(ts) + rest =~= prefix + rest);
    }
}

/// Appends a variable-data field for each text of `fields`, in order.
pub fn push_var_texts(out: &mut Vec<u8>, fields: &Vec<&str>)
    requires
        texts_fit(str_views(fields@)),
    ensures
        final(out)@ == old(out)@ + var_texts(str_views(fields@)),
{
    let ghost start = out@;
    let mut i: usize = 0;
    while i < fields.len()
        invariant
            i <= fields@.len(),
            texts_fit(str_views(fields@)),
            out@ == start + var_texts(str_views(fields@.take(i as int))),
        decreases fields@.len() - i,
    {
        proof {
            let vs = str_views(fields@);
            assert(vs[i as int] == fields@[i as int]@);
            assert(text_fits(vs[i as int]));
        }
        push_var_text(out, fields[i]);
        proof {
            let t = str_views(fields@.take(i + 1));
            assert(t.drop_last() =~= str_views(fields@.take(i as int)));
            assert(t.last() == fields@[i as int]@);
        }
        i = i + 1;
        assert(out@ =~= start + var_texts(str_views(fields@.take(i as int))));
    }
    assert(fields@.take(i as int) =~= fields@);
}

/// `Err(VarDataTooLong)` unless every text of `fields` fits.
pub fn ensure_texts_fit(fields: &Vec<&str>) -> (r: Result<(), CodecError>)
    ensures
        r is Ok <==> texts_fit(str_views(fields@)),
        r is Err ==> r == Err::<(), CodecError>(CodecError::VarDataTooLong),
{
    let mut i: usize = 0;
    while i < fields.len()
        invariant
            i <= fields@.len(),
            forall|j: int| 0 <= j < i ==> text_fits(#[trigger] str_views(fields@)[j]),
        decreases fields@.len() - i,
    {
        let r = ensure_var_data_len(fields[i]);
        if r.is_err() {
            assert(!text_fits(str_views(fields@)[i as int]));
            return r;
        }
        i = i + 1;
    }
    Ok(())
}

/// Length of the variable-data fields holding `ts`.
pub proof fn lemma_var_texts_len(ts: Seq<Seq<char>>)
    ensures
        var_texts(ts).len() == 4 * ts.len() + text_bytes_total(ts),
    decreases ts.len(),
{
    if ts.len() > 0 {
        lemma_var_texts_len(ts.drop_last());
    }
}

/// Total UTF-8 length of the texts of `ts`.
pub open spec fn text_bytes_total(ts: Seq<Seq<char>>) -> nat
    decreases ts.len(),
{
    if ts.len() == 0 {
        0
    } else {
        text_bytes_total(ts.drop_last()) + text_bytes(ts.last()).len()
    }
}

/// Total length of the variable-data fields holding `fields`, when it is
/// representable as a `usize`.
pub fn var_texts_len(fields: &Vec<&str>) -> (r: Option<usize>)
    ensures
        match r {
            Some(n) => n == var_texts(str_views(fields@)).len(),
            None => var_texts(str_views(fields@)).len() > usize::MAX,
        },
{
    let mut total: usize = 0;
    let mut i: usize = 0;
    while i < fields.len()
        invariant
            i <= fields@.len(),
            total == var_texts(str_views(fields@.take(i as int))).len(),
        decreases fields@.len() - i,
    {
        proof {
            let t = str_views(fields@.take(i + 1));
            assert(t.drop_last() =~= str_views(fields@.take(i as int)));
            assert(t.last() == fields@[i as int]@);
        }
        let len = fields[i].as_bytes().len();
        assert(var_texts(str_views(fields@.take(i + 1))).len() == total + 4 + len);
        assert(str_views(fields@.take(i + 1)) =~= str_views(fields@).take(i + 1));
        match total.checked_add(4) {
            None => {
                proof { lemma_var_texts_prefix_len(str_views(fields@), i as int + 1); }
                return None;
            },
            Some(t4) => match t4.checked_add(len) {
                None => {
                    proof { lemma_var_texts_prefix_len(str_views(fields@), i as int + 1); }
                    return None;
                },
                Some(t) => {
                    total = t;
                },
            },
        }
        i = i + 1;
    }
    assert(fields@.take(i as int) =~= fields@);
    Some(total)
}

/// The fields of a prefix of a run are no longer than those of the whole run.
pub proof fn lemma_var_texts_prefix_len(ts: Seq<Seq<char>>, k: int)
    requires
        0 <= k <= ts.len(),
    ensures
        var_texts(ts.take(k)).len() <= var_texts(ts).len(),
    decreases ts.len(),
{
    if k < ts.len() {
        assert(ts.drop_last().take(k) =~= ts.take(k));
        lemma_var_texts_prefix_len(ts.drop_last(), k);
    } else {
        assert(ts.take(k) =~= ts);
    }
}

/// Reads `n` text fields in a row, starting at `cursor`.
pub fn read_text_fields<'a>(frame: &'a [u8], cursor: usize, n: usize) -> (r: Result<
    Vec<&'a str>,
    CodecError,
>)
    ensures
        match spec_read_texts(frame@, cursor as int, n as nat) {
            Ok((ts, _)) => r matches Ok(v) && str_views(v@) == ts,
            Err(e) => r == Err::<Vec<&'a str>, CodecError>(e),
        },
        r matches Ok(v) ==> v@.len() == n,
{
    let mut out: Vec<&'a str> = Vec::new();
    assert(str_views(out@) =~= Seq::<Seq<char>>::empty());
    let mut cur = cursor;
    let mut i: usize = 0;
    while i < n
        invariant
            i <= n,
            out@.len() == i,
            spec_read_texts(frame@, cursor as int, i as nat) == Ok::<
                (Seq<Seq<char>>, int),
                CodecError,
            >((str_views(out@), cur as int)),
        decreases n - i,
    {
        match read_text_field(frame, cur) {
            Ok((s, next)) => {
                let ghost before = out@;
                out.push(s);
                assert(str_views(out@) =~= str_views(before).push(s@));
                cur = next;
            },
            Err(e) => {
                proof {
                    lemma_read_texts_err(frame@, cursor as int, (i + 1) as nat, n as nat);
                }
                return Err(e);
            },
        }
        i = i + 1;
    }
    Ok(out)
}

// ---------------------------------------------------------------------------
// Whole frames
// ---------------------------------------------------------------------------

/// `after` is `before` with `frame` written at its front: grown with zeros to
/// the frame's length when shorter, and unchanged past the frame.
pub open spec fn frame_written(before: Seq<u8>, after: Seq<u8>, frame: Seq<u8>) -> bool {
    &&& after.len() == if before.len() < frame.len() {
        frame.len()
    } else {
        before.len()
    }
    &&& after.take(frame.len() as int) == frame
    &&& before.len() >= frame.len() ==> after.skip(frame.len() as int) == before.skip(
        frame.len() as int,
    )
}

/// What encoding a frame whose text fields are `texts` gives: the frame's
/// length, or why it cannot be encoded.
pub open spec fn spec_encode_outcome(texts: Seq<Seq<char>>, frame: Seq<u8>) -> Result<
    usize,
    CodecError,
> {
    if !texts_fit(texts) {
        Err(CodecError::VarDataTooLong)
    } else if frame.len() > usize::MAX {
        Err(CodecError::FrameTooLarge)
    } else {
        Ok(frame.len() as usize)
    }
}

/// A frame: header, fixed block, then the text fields.
pub open spec fn spec_frame(
    block_length: u16,
    template_id: u16,
    block: Seq<u8>,
    texts: Seq<Seq<char>>,
) -> Seq<u8> {
    spec_header(block_length, template_id) + block + var_texts(texts)
}

/// The length of a frame with a `block_length`-byte block and text fields
/// `fields`, or `None` when it exceeds `usize::MAX`.
pub fn frame_len(block_length: u16, fields: &Vec<&str>) -> (r: Option<usize>)
    ensures
        match r {
            Some(n) => n == SBE_HEADER_LENGTH + block_length + var_texts(str_views(fields@)).len(),
            None => SBE_HEADER_LENGTH + block_length + var_texts(str_views(fields@)).len()
                > usize::MAX,
        },
{
    match var_texts_len(fields) {
        None => None,
        Some(v) => v.checked_add(SBE_HEADER_LENGTH + block_length as usize),
    }
}

/// Reading the header of a frame written by `spec_header` gives back its
/// block length and template id.
pub proof fn lemma_header_roundtrip(block_length: u16, template_id: u16, rest: Seq<u8>)
    ensures
        spec_read_header(spec_header(block_length, template_id) + rest) == Ok::<
            (u16, u16),
            CodecError,
        >((block_length, template_id)),
{
    let f = spec_header(block_length, template_id) + rest;
    lemma_get_le_window(f, 0, 2);
    lemma_get_le_window(f, 2, 2);
    lemma_get_le_window(f, 4, 2);
    assert(f.subrange(0, 2) =~= le16(block_length));
    assert(f.subrange(2, 4) =~= le16(template_id));
    assert(f.subrange(4, 6) =~= le16(SBE_SCHEMA_ID));
    lemma_le16_roundtrip(block_length);
    lemma_le16_roundtrip(template_id);
    lemma_le16_roundtrip(SBE_SCHEMA_ID);
}

/// The bytes of a frame at the start of its fixed block, and its texts.
pub proof fn lemma_frame_layout(
    block_length: u16,
    template_id: u16,
    block: Seq<u8>,
    texts: Seq<Seq<char>>,
    rest: Seq<u8>,
)
    requires
        block.len() == block_length,
        texts_fit(texts),
    ensures
        ({
            let f = spec_frame(block_length, template_id, block, texts) + rest;
            &&& spec_read_header(f) == Ok::<(u16, u16), CodecError>((block_length, template_id))
            &&& f.len() >= SBE_HEADER_LENGTH + block_length
            &&& f.subrange(SBE_HEADER_LENGTH as int, SBE_HEADER_LENGTH + block_length) == block
            &&& spec_read_texts(f, SBE_HEADER_LENGTH + block_length, texts.len()) matches Ok(
                (ts, _),
            ) && ts == texts
        }),
{
    let h = spec_header(block_length, template_id);
    let f = spec_frame(block_length, template_id, block, texts) + rest;
    assert(f =~= h + (block + var_texts(texts) + rest));
    lemma_header_roundtrip(block_length, template_id, block + var_texts(texts) + rest);
    assert(f.subrange(8, 8 + block_length) =~= block);
    assert(f =~= (h + block) + var_texts(texts) + rest);
    lemma_read_texts_roundtrip(h + block, texts, rest);
}

/// An `i64` written little-endian at `off` reads back.
pub proof fn lemma_read_i64_at(f: Seq<u8>, off: int, v: i64)
    requires
        0 <= off,
        off + 8 <= f.len(),
        f.subrange(off, off + 8) == le_i64(v),
    ensures
        get_le64(f, off) as i64 == v,
{
    lemma_get_le_window(f, off, 8);
    lemma_le64_roundtrip(v as u64);
    lemma_i64_roundtrip(v);
}

/// An `i32` written little-endian at `off` reads back.
pub proof fn lemma_read_i32_at(f: Seq<u8>, off: int, v: i32)
    requires
        0 <= off,
        off + 4 <= f.len(),
        f.subrange(off, off + 4) == le_i32(v),
    ensures
        get_le32(f, off) as i32 == v,
{
    lemma_get_le_window(f, off, 4);
    lemma_le32_roundtrip(v as u32);
    lemma_i32_roundtrip(v);
}

} // verus!
