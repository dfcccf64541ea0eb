use tiler::ipc::protocol::encode_frame;

#[test]
fn should_encode_frame_with_length_prefix() {
    // Arrange
    let payload = b"hello";

    // Act
    let frame = encode_frame(payload).expect("encode");

    // Assert — 4-byte big-endian length (5) + payload
    assert_eq!(frame.len(), 4 + 5, "frame should be 9 bytes total");
    let length_bytes = &frame[..4];
    assert_eq!(
        length_bytes,
        &[0, 0, 0, 5],
        "first 4 bytes should be big-endian u32 length of 5"
    );
    assert_eq!(&frame[4..], b"hello", "remaining bytes should be the payload");
}

#[test]
fn should_encode_empty_payload() {
    // Arrange
    let payload = b"";

    // Act
    let frame = encode_frame(payload).expect("encode");

    // Assert — 4-byte big-endian length (0) + empty payload
    assert_eq!(frame.len(), 4);
    assert_eq!(&frame[..4], &[0, 0, 0, 0]);
}

#[test]
fn should_encode_larger_payload() {
    // Arrange
    let payload = vec![0xAB; 300];

    // Act
    let frame = encode_frame(&payload).expect("encode");

    // Assert — length 300 = 0x0000012C in big-endian
    assert_eq!(frame.len(), 4 + 300);
    assert_eq!(&frame[..4], &[0, 0, 1, 44]); // 0x012C = 300
}
