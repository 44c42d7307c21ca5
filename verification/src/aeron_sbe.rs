//! The SBE envelope that carries one FIX wire message per Aeron message.
use vstd::prelude::*;

use crate::sbe::{
    frame_written, get_le32, le64, le_i32, lemma_header_roundtrip, lemma_read_i32_at,
    lemma_var_field_roundtrip, push_header, push_u32_le, push_u64_le, push_var_data, read_header,
    read_u32_le, read_var_field, spec_header, spec_read_header, spec_var_field, var_data,
    write_frame, CodecError, MAX_VAR_DATA_LEN, SBE_HEADER_LENGTH,
};

verus! {

/// Template id of the FIX envelope.
pub const FIX_AERON_ENVELOPE_TEMPLATE_ID: u16 = 1u16;
/// Fixed block of the envelope: publish time (u64 ns), base stream id (i32).
pub const FIX_AERON_ENVELOPE_BLOCK_LENGTH: u16 = 12u16;
/// Bytes of an envelope besides the payload.
pub const FIX_AERON_ENVELOPE_OVERHEAD: usize = 24usize;

/// A decoded envelope: the stream it was published on and the FIX payload.
#[derive(Debug)]
pub struct DecodedFixEnvelope<'a> {
    pub base_stream_id: i32,
    pub payload: &'a [u8],
}

/// The envelope frame of `payload`, published at `published_at` on
/// `base_stream_id`.
pub open spec fn spec_envelope_frame(published_at: u64, base_stream_id: i32, payload: Seq<u8>) -> Seq<
    u8,
> {
    spec_header(FIX_AERON_ENVELOPE_BLOCK_LENGTH, FIX_AERON_ENVELOPE_TEMPLATE_ID) + le64(
        published_at,
    ) + le_i32(base_stream_id) + var_data(payload)
}

/// The length of the envelope of a `payload_len`-byte payload, or why there
/// is none.
pub open spec fn spec_envelope_len(payload_len: usize) -> Result<usize, CodecError> {
    if payload_len > MAX_VAR_DATA_LEN {
        Err(CodecError::VarDataTooLong)
    } else if FIX_AERON_ENVELOPE_OVERHEAD + payload_len > usize::MAX {
        Err(CodecError::FrameTooLarge)
    } else {
        Ok((FIX_AERON_ENVELOPE_OVERHEAD + payload_len) as usize)
    }
}

/// What decoding `frame` as an envelope gives: the base stream id and the
/// payload.
pub open spec fn spec_decode_envelope(frame: Seq<u8>) -> Result<(i32, Seq<u8>), CodecError> {
    if frame.len() < FIX_AERON_ENVELOPE_OVERHEAD {
        Err(CodecError::FrameTooShort)
    } else {
        match spec_read_header(frame) {
            Err(e) => Err(e),
            Ok((bl, tid)) => if tid != FIX_AERON_ENVELOPE_TEMPLATE_ID {
                Err(CodecError::TemplateMismatch { template_id: tid })
            } else {
                match spec_var_field(frame, SBE_HEADER_LENGTH + bl) {
                    Err(e) => Err(e),
                    Ok((payload, _)) => Ok((get_le32(frame, 16) as i32, payload)),
                }
            },
        }
    }
}

/// The length of the envelope of a `payload_len`-byte payload.
pub fn encoded_envelope_len(payload_len: usize) -> (r: Result<usize, CodecError>)
    ensures
        r == spec_envelope_len(payload_len),
{
    if payload_len > MAX_VAR_DATA_LEN {
        return Err(CodecError::VarDataTooLong);
    }
    match payload_len.checked_add(FIX_AERON_ENVELOPE_OVERHEAD) {
        Some(n) => Ok(n),
        None => Err(CodecError::FrameTooLarge),
    }
}

/// Wraps `payload` in an envelope stamped with the current wall-clock time
/// and writes it at the front of `frame_buf`; the frame's length.
pub fn encode_fix_payload_as_sbe(frame_buf: &mut Vec<u8>, base_stream_id: i32, payload: &[u8]) -> (r:
    Result<usize, CodecError>)
    ensures
        r == spec_envelope_len(payload@.len() as usize),
        r is Ok ==> exists|t: u64|
            frame_written(
                old(frame_buf)@,
                final(frame_buf)@,
                #[trigger] spec_envelope_frame(t, base_stream_id, payload@),
            ),
        r is Err ==> final(frame_buf)@ == old(frame_buf)@,
{
    let published_at = crate::time::unix_now_nanos();
    let r = encode_fix_payload_as_sbe_at(frame_buf, published_at, base_stream_id, payload);
    assert(r is Ok ==> frame_written(
        old(frame_buf)@,
        final(frame_buf)@,
        spec_envelope_frame(published_at, base_stream_id, payload@),
    ));
    r
}

/// Wraps `payload` in an envelope stamped `published_at` and writes it at
/// the front of `frame_buf`; the frame's length.
pub fn encode_fix_payload_as_sbe_at(
    frame_buf: &mut Vec<u8>,
    published_at: u64,
    base_stream_id: i32,
    payload: &[u8],
) -> (r: Result<usize, CodecError>)
    ensures
        r == spec_envelope_len(payload@.len() as usize),
        r is Ok ==> frame_written(
            old(frame_buf)@,
            final(frame_buf)@,
            spec_envelope_frame(published_at, base_stream_id, payload@),
        ),
        r is Err ==> final(frame_buf)@ == old(frame_buf)@,
{
    let n = encoded_envelope_len(payload.len())?;
    let mut content: Vec<u8> = Vec::new();
    push_header(&mut content, FIX_AERON_ENVELOPE_BLOCK_LENGTH, FIX_AERON_ENVELOPE_TEMPLATE_ID);
    push_u64_le(&mut content, published_at);
    push_u32_le(&mut content, base_stream_id as u32);
    push_var_data(&mut content, payload);
    assert(content@ =~= spec_envelope_frame(published_at, base_stream_id, payload@));
    write_frame(frame_buf, &content);
    Ok(n)
}

/// Unwraps the FIX payload of an envelope, borrowing it from `frame`.
pub fn decode_fix_payload_from_sbe(frame: &[u8]) -> (r: Result<DecodedFixEnvelope<'_>, CodecError>)
    ensures
        match spec_decode_envelope(frame@) {
            Ok((base, payload)) => r matches Ok(d) && d.base_stream_id == base && d.payload@
                == payload,
            Err(e) => r matches Err(x) && x == e,
        },
{
    if frame.len() < FIX_AERON_ENVELOPE_OVERHEAD {
        return Err(CodecError::FrameTooShort);
    }
    let (bl, tid) = read_header(frame)?;
    if tid != FIX_AERON_ENVELOPE_TEMPLATE_ID {
        return Err(CodecError::TemplateMismatch { template_id: tid });
    }
    let base_stream_id = read_u32_le(frame, 16) as i32;
    let (payload, _) = read_var_field(frame, SBE_HEADER_LENGTH + bl as usize)?;
    Ok(DecodedFixEnvelope { base_stream_id, payload })
}

/// Unwrapping an envelope, followed by any bytes, gives back the stream id
/// and payload it was made with, whatever its publish time.
pub proof fn lemma_envelope_roundtrip(
    published_at: u64,
    base_stream_id: i32,
    payload: Seq<u8>,
    rest: Seq<u8>,
)
    requires
        payload.len() <= MAX_VAR_DATA_LEN,
    ensures
        spec_decode_envelope(spec_envelope_frame(published_at, base_stream_id, payload) + rest)
            == Ok::<(i32, Seq<u8>), CodecError>((base_stream_id, payload)),
{
    let h = spec_header(FIX_AERON_ENVELOPE_BLOCK_LENGTH, FIX_AERON_ENVELOPE_TEMPLATE_ID);
    let block = le64(published_at) + le_i32(base_stream_id);
    let f = spec_envelope_frame(published_at, base_stream_id, payload) + rest;
    assert(f =~= h + (block + var_data(payload) + rest));
    lemma_header_roundtrip(
        FIX_AERON_ENVELOPE_BLOCK_LENGTH,
        FIX_AERON_ENVELOPE_TEMPLATE_ID,
        block + var_data(payload) + rest,
    );
    assert(f.subrange(16, 20) =~= le_i32(base_stream_id));
    lemma_read_i32_at(f, 16, base_stream_id);
    assert(f =~= (h + block) + var_data(payload) + rest);
    lemma_var_field_roundtrip(h + block, payload, rest);
}

} // verus!
