use aiken_mcp::transport::{body_length, frame_message, read_frame, read_header_line, FrameRead, HeaderStep};

#[test]
fn frames_with_content_length() {
    let framed = frame_message(b"{\"id\":1}");
    assert_eq!(framed, b"Content-Length: 8\r\n\r\n{\"id\":1}".to_vec());
}

#[test]
fn framed_message_reads_back() {
    let mut stream = frame_message(b"hello");
    stream.extend_from_slice(b"Content-Length: 2\r\n\r\nxy");
    match read_frame(&stream) {
        FrameRead::Message(body, used) => {
            assert_eq!(body, b"hello".to_vec());
            assert_eq!(used, 26);
            match read_frame(&stream[used..]) {
                FrameRead::Message(b2, _) => assert_eq!(b2, b"xy".to_vec()),
                other => panic!("unexpected {:?}", other),
            }
        }
        other => panic!("unexpected {:?}", other),
    }
}

#[test]
fn header_lines() {
    assert_eq!(read_header_line(b"Content-Length: 12\r\n", None), HeaderStep::Continue(Some(12)));
    assert_eq!(read_header_line(b"Content-Type: x\r\n", Some(3)), HeaderStep::Continue(Some(3)));
    assert_eq!(read_header_line(b"Content-Length: abc\r\n", Some(3)), HeaderStep::Continue(None));
    assert_eq!(read_header_line(b"\r\n", Some(3)), HeaderStep::End);
    assert_eq!(read_header_line(&[0xff, b'\n'], None), HeaderStep::InvalidUtf8);
}

#[test]
fn frame_errors() {
    assert!(matches!(read_frame(b""), FrameRead::Closed));
    assert!(matches!(read_frame(b"Content-Type: x\r\n"), FrameRead::Closed));
    assert!(matches!(read_frame(b"X: y\r\n\r\nbody"), FrameRead::MissingLength));
    assert!(matches!(read_frame(b"Content-Length: 10\r\n\r\nshort"), FrameRead::Truncated));
    assert!(matches!(read_frame(&[0xfe, b'\r', b'\n']), FrameRead::InvalidHeader));
}

#[test]
fn missing_length_error_message() {
    assert_eq!(body_length(Some(4)).unwrap(), 4);
    assert_eq!(body_length(None).unwrap_err().message(), "missing Content-Length header");
}

#[test]
fn header_block_without_length_is_missing_length() {
    assert!(matches!(read_frame(b"Content-Type: a\r\nX-Other: b\n\r\n{}"), FrameRead::MissingLength));
    assert!(matches!(read_frame(b"\r\nanything"), FrameRead::MissingLength));
}
