use velocitas_fix::aeron_sbe::{
    decode_fix_payload_from_sbe, encode_fix_payload_as_sbe, encode_fix_payload_as_sbe_at,
    encoded_envelope_len, FIX_AERON_ENVELOPE_OVERHEAD,
};
use velocitas_fix::sbe::{CodecError, CodecErrorKind};

#[test]
fn test_fix_payload_sbe_round_trip() {
    let mut buffer = Vec::new();
    let payload = b"8=FIX.4.4\x019=5\x0135=0\x0110=000\x01";

    let len = encode_fix_payload_as_sbe(&mut buffer, 42_001, payload).unwrap();
    let decoded = decode_fix_payload_from_sbe(&buffer[..len]).unwrap();

    assert_eq!(decoded.base_stream_id, 42_001);
    assert_eq!(decoded.payload, payload);
}

#[test]
fn test_fix_payload_sbe_rejects_short_frames() {
    let err = decode_fix_payload_from_sbe(&[0u8; 4]).unwrap_err();
    assert_eq!(err.kind(), CodecErrorKind::InvalidData);
}

#[test]
fn envelope_length_is_overhead_plus_payload() {
    assert_eq!(FIX_AERON_ENVELOPE_OVERHEAD, 24);
    assert_eq!(encoded_envelope_len(10), Ok(34));
    assert_eq!(encoded_envelope_len(0), Ok(24));
    assert_eq!(encoded_envelope_len(u32::MAX as usize), Err(CodecError::VarDataTooLong));
}

#[test]
fn envelope_frame_layout_at_fixed_time() {
    let mut buffer = Vec::new();
    let len = encode_fix_payload_as_sbe_at(&mut buffer, 0x0102_0304_0506_0708, -2, b"AB").unwrap();
    assert_eq!(len, 26);
    assert_eq!(
        &buffer[..len],
        &[
            12, 0, 1, 0, 1, 0, 0, 0, // header: block 12, template 1, schema 1, version 0
            8, 7, 6, 5, 4, 3, 2, 1, // published at
            0xfe, 0xff, 0xff, 0xff, // base stream id -2
            2, 0, 0, 0, b'A', b'B',
        ][..]
    );
    let decoded = decode_fix_payload_from_sbe(&buffer[..len]).unwrap();
    assert_eq!(decoded.base_stream_id, -2);
    assert_eq!(decoded.payload, b"AB");
}

#[test]
fn envelope_rejects_other_templates_and_short_payloads() {
    let mut buffer = Vec::new();
    let len = encode_fix_payload_as_sbe_at(&mut buffer, 1, 7, b"XYZ").unwrap();
    let mut frame = buffer[..len].to_vec();
    frame[2] = 9;
    assert_eq!(
        decode_fix_payload_from_sbe(&frame).unwrap_err(),
        CodecError::TemplateMismatch { template_id: 9 }
    );
    let truncated = &buffer[..len - 1];
    assert_eq!(
        decode_fix_payload_from_sbe(truncated).unwrap_err(),
        CodecError::VarDataOutOfBounds
    );
}
