use audiod::samples::{bytes_to_stereo_samples, reader_step, stereo_samples_to_bytes, ReaderAction};

#[test]
fn decodes_little_endian_frames() {
    let bytes = [0x01u8, 0x00, 0xff, 0xff, 0x00, 0x80, 0xff, 0x7f];
    assert_eq!(bytes_to_stereo_samples(&bytes), vec![(1i16, -1i16), (-32768, 32767)]);
}

#[test]
fn decode_drops_partial_frame() {
    let bytes = [0x34u8, 0x12, 0x78, 0x56, 0x01, 0x02, 0x03];
    assert_eq!(bytes_to_stereo_samples(&bytes), vec![(0x1234i16, 0x5678i16)]);
}

#[test]
fn decode_empty_buffer() {
    assert!(bytes_to_stereo_samples(&[]).is_empty());
    assert!(bytes_to_stereo_samples(&[1, 2, 3]).is_empty());
}

#[test]
fn encodes_little_endian_frames() {
    let samples = [(1i16, -1i16), (-32768, 32767), (0x1234, -0x1234)];
    assert_eq!(
        stereo_samples_to_bytes(&samples),
        vec![0x01, 0x00, 0xff, 0xff, 0x00, 0x80, 0xff, 0x7f, 0x34, 0x12, 0xcc, 0xed]
    );
}

#[test]
fn encode_empty() {
    assert!(stereo_samples_to_bytes(&[]).is_empty());
}

#[test]
fn encode_then_decode_is_identity() {
    let samples = vec![(0i16, 0i16), (i16::MIN, i16::MAX), (-2, 300), (255, -256)];
    assert_eq!(bytes_to_stereo_samples(&stereo_samples_to_bytes(&samples)), samples);
}

#[test]
fn decode_then_encode_keeps_complete_frames() {
    let bytes: Vec<u8> = (0u8..11).map(|b| b.wrapping_mul(37)).collect();
    let again = stereo_samples_to_bytes(&bytes_to_stereo_samples(&bytes));
    assert_eq!(again, bytes[..8].to_vec());
}

#[test]
fn reader_stops_on_failed_read() {
    assert_eq!(reader_step(None), ReaderAction::Stop);
}

#[test]
fn reader_waits_on_empty_read() {
    assert_eq!(reader_step(Some(&[])), ReaderAction::Wait);
}

#[test]
fn reader_continues_without_complete_frame() {
    assert_eq!(reader_step(Some(&[1, 2, 3])), ReaderAction::Continue);
}

#[test]
fn reader_sends_frames() {
    assert_eq!(
        reader_step(Some(&[0x01, 0x00, 0x02, 0x00, 0x09])),
        ReaderAction::Send(vec![(1, 2)])
    );
}
