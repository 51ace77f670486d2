use pinhole::network::{
    encode_frame, read_frame_header, split_frame, validate_message_size, FrameHeader, FrameSplit,
    NetworkError, MAX_MESSAGE_SIZE,
};

#[test]
fn frame_is_little_endian_length_then_payload() {
    let framed = encode_frame(&[7, 8, 9]);
    assert_eq!(framed, vec![3, 0, 0, 0, 7, 8, 9]);
    let big = vec![0u8; 300];
    let framed = encode_frame(&big);
    assert_eq!(&framed[..4], &[44, 1, 0, 0]);
    assert_eq!(framed.len(), 304);
}

#[test]
fn frame_round_trip() {
    let payload = b"hello".to_vec();
    let framed = encode_frame(&payload);
    match split_frame(&framed) {
        FrameSplit::Frame { payload: p, consumed } => {
            assert_eq!(p, payload);
            assert_eq!(consumed, 9);
        }
        _ => panic!("expected a frame"),
    }
}

#[test]
fn oversized_prefix_is_refused_before_payload() {
    let header = 11_534_336u32.to_le_bytes();
    match read_frame_header(&header) {
        Err(NetworkError::MessageTooLarge { size, max }) => {
            assert_eq!(size, 11_534_336);
            assert_eq!(max, 10_485_760);
        }
        _ => panic!("expected MessageTooLarge"),
    }
    match split_frame(&header) {
        FrameSplit::TooLarge { size, max } => {
            assert_eq!(size, 11_534_336);
            assert_eq!(max, MAX_MESSAGE_SIZE);
        }
        _ => panic!("expected TooLarge"),
    }
}

#[test]
fn size_limit_is_inclusive() {
    assert!(validate_message_size(MAX_MESSAGE_SIZE).is_ok());
    assert!(validate_message_size(0).is_ok());
    assert!(matches!(
        validate_message_size(MAX_MESSAGE_SIZE + 1),
        Err(NetworkError::MessageTooLarge { size, max }) if size == MAX_MESSAGE_SIZE + 1 && max == MAX_MESSAGE_SIZE
    ));
    let header = MAX_MESSAGE_SIZE.to_le_bytes();
    assert!(matches!(read_frame_header(&header), Ok(FrameHeader::Payload(n)) if n == MAX_MESSAGE_SIZE));
}

#[test]
fn zero_length_means_end_of_stream() {
    assert!(matches!(read_frame_header(&[0, 0, 0, 0]), Ok(FrameHeader::End)));
    assert!(matches!(split_frame(&[0, 0, 0, 0, 1]), FrameSplit::End));
}

#[test]
fn short_buffers_are_incomplete() {
    assert!(matches!(split_frame(&[1, 0]), FrameSplit::Incomplete));
    assert!(matches!(split_frame(&[5, 0, 0, 0, 1, 2]), FrameSplit::Incomplete));
}
