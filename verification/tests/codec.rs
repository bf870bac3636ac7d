use deckhand::codec::{decode_frame, decode_len, encode_frame, FrameError, MAX_MSG_LEN};

#[test]
fn a_frame_is_its_little_endian_length_then_the_payload() {
    let f = encode_frame(&[7, 8, 9]).unwrap();
    assert_eq!(f, vec![3, 0, 0, 0, 7, 8, 9]);
    let big = vec![0u8; 300];
    let f = encode_frame(&big).unwrap();
    assert_eq!(&f[..4], &[44, 1, 0, 0]);
}

#[test]
fn frames_written_back_to_back_read_back_in_order() {
    let mut stream = Vec::new();
    for p in [vec![1u8], vec![], vec![2, 3, 4]] {
        stream.extend(encode_frame(&p).unwrap());
    }
    let (p, used) = decode_frame(&stream).unwrap().unwrap();
    assert_eq!((p, used), (vec![1], 5));
    let rest = &stream[used..];
    let (p, used2) = decode_frame(rest).unwrap().unwrap();
    assert_eq!((p, used2), (vec![], 4));
    let rest = &rest[used2..];
    let (p, used3) = decode_frame(rest).unwrap().unwrap();
    assert_eq!((p, used3), (vec![2, 3, 4], 7));
    assert_eq!(decode_frame(&rest[used3..]), Ok(None));
}

#[test]
fn only_an_empty_stream_reads_as_closed() {
    assert_eq!(decode_frame(&[]), Ok(None));
}

#[test]
fn a_cut_length_prefix_is_an_error() {
    assert_eq!(decode_frame(&[1]), Err(FrameError::TruncatedPrefix));
    assert_eq!(decode_frame(&[1, 0]), Err(FrameError::TruncatedPrefix));
    assert_eq!(decode_frame(&[1, 0, 0]), Err(FrameError::TruncatedPrefix));
}

#[test]
fn an_oversized_length_is_refused() {
    assert_eq!(decode_len(&[0, 0, 0, 2]), Err(FrameError::TooLong));
    assert_eq!(decode_len(&[0, 0, 0, 1]), Ok(MAX_MSG_LEN as usize));
    assert_eq!(decode_frame(&[1, 0, 0, 1, 9]), Err(FrameError::TooLong));
    let too_big = vec![0u8; MAX_MSG_LEN as usize + 1];
    assert_eq!(encode_frame(&too_big), Err(FrameError::TooLong));
}

#[test]
fn a_cut_payload_is_truncated() {
    assert_eq!(decode_frame(&[3, 0, 0, 0, 1, 2]), Err(FrameError::Truncated));
}
