use ironforge_git::pkt_line::{decode, decode_until_flush, encode_all, PktLine, PktLineError, MAX_PKT_LINE_LEN};
use ironforge_git::sideband::{data_frames, error_frame, progress_frame, SIDEBAND_MAX};

#[test]
fn test_pkt_line_text_adds_newline() {
    let pkt = PktLine::text("hello");
    assert_eq!(pkt, PktLine::data(b"hello\n"));
}

#[test]
fn test_pkt_line_text_preserves_newline() {
    let pkt = PktLine::text("hello\n");
    assert_eq!(pkt, PktLine::data(b"hello\n"));
}

#[test]
fn test_pkt_line_display() {
    assert_eq!(PktLine::Flush.describe(), "Flush");
    assert_eq!(PktLine::Delim.describe(), "Delim");
    assert_eq!(PktLine::ResponseEnd.describe(), "ResponseEnd");
    assert_eq!(PktLine::data(b"hello\n").describe(), "Data(hello)");
    assert_eq!(PktLine::data(b"\xff\xfe\xfd").describe(), "Data(3 bytes)");
}

#[test]
fn test_read_data_pkt_line() {
    let buf = encode_all(&[PktLine::data(b"hello world\n"), PktLine::Flush]).unwrap();
    let (pkt, used) = decode(&buf).unwrap();
    assert_eq!(pkt, PktLine::data(b"hello world\n"));
    assert_eq!(used, 16);
}

#[test]
fn test_read_flush_pkt_line() {
    let (pkt, used) = decode(b"0000").unwrap();
    assert_eq!(pkt, PktLine::Flush);
    assert_eq!(used, 4);
}

#[test]
fn test_read_delim_pkt_line() {
    assert_eq!(decode(b"0001").unwrap().0, PktLine::Delim);
}

#[test]
fn test_read_response_end_pkt_line() {
    assert_eq!(decode(b"0002").unwrap().0, PktLine::ResponseEnd);
}

#[test]
fn test_read_multiple_then_flush() {
    let buf = encode_all(&[
        PktLine::data(b"line one\n"),
        PktLine::data(b"line two\n"),
        PktLine::Flush,
    ])
    .unwrap();
    let (lines, used) = decode_until_flush(&buf).unwrap();
    assert_eq!(lines.len(), 2);
    assert_eq!(lines[0], PktLine::data(b"line one\n"));
    assert_eq!(lines[1], PktLine::data(b"line two\n"));
    assert_eq!(used, buf.len());
}

#[test]
fn test_read_empty_data_pkt_line() {
    let (pkt, _) = decode(b"0004").unwrap();
    assert_eq!(pkt, PktLine::Data(Vec::new()));
}

#[test]
fn test_write_and_read_roundtrip() {
    let data = PktLine::text("agent=ironforge/0.1");
    let bytes = data.encode().unwrap();
    let (pkt, used) = decode(&bytes).unwrap();
    assert_eq!(pkt, PktLine::text("agent=ironforge/0.1"));
    assert_eq!(used, bytes.len());
}

#[test]
fn test_read_text_line_returns_string() {
    let pkt = PktLine::data(b"some text\n");
    assert_eq!(pkt.text_line().unwrap(), Some("some text\n".to_string()));
}

#[test]
fn test_read_text_line_on_flush_returns_none() {
    assert_eq!(PktLine::Flush.text_line().unwrap(), None);
}

#[test]
fn encode_writes_hex_length_header() {
    assert_eq!(PktLine::text("hi").encode().unwrap(), b"0007hi\n".to_vec());
    assert_eq!(PktLine::Flush.encode().unwrap(), b"0000".to_vec());
    assert_eq!(PktLine::Delim.encode().unwrap(), b"0001".to_vec());
    assert_eq!(PktLine::ResponseEnd.encode().unwrap(), b"0002".to_vec());
}

#[test]
fn encode_refuses_oversized_payload() {
    let big = vec![b'x'; MAX_PKT_LINE_LEN + 1];
    assert!(matches!(
        PktLine::Data(big).encode(),
        Err(PktLineError::TooLarge { len }) if len == MAX_PKT_LINE_LEN + 1
    ));
    let fits = vec![b'x'; MAX_PKT_LINE_LEN];
    assert_eq!(PktLine::Data(fits).encode().unwrap().len(), MAX_PKT_LINE_LEN + 4);
}

#[test]
fn decode_reports_each_malformed_input() {
    assert!(matches!(decode(b"zz12"), Err(PktLineError::InvalidHeader { header }) if &header == b"zz12"));
    assert!(matches!(decode(b"0003"), Err(PktLineError::InvalidLength { len: 3 })));
    assert!(matches!(
        decode(b"0009abc"),
        Err(PktLineError::Truncated { expected: 5, available: 3 })
    ));
}

#[test]
fn decode_treats_end_of_input_as_flush() {
    let (pkt, used) = decode(b"00").unwrap();
    assert_eq!(pkt, PktLine::Flush);
    assert_eq!(used, 2);
}

#[test]
fn decode_inverts_encode() {
    for pkt in [
        PktLine::data(b"\x00\x01binary"),
        PktLine::text("want 0123"),
        PktLine::Flush,
        PktLine::Delim,
        PktLine::ResponseEnd,
    ] {
        let bytes = pkt.encode().unwrap();
        let (back, used) = decode(&bytes).unwrap();
        assert_eq!(back, pkt);
        assert_eq!(used, bytes.len());
    }
}

#[test]
fn text_line_refuses_invalid_utf8() {
    assert!(matches!(PktLine::data(b"\xff").text_line(), Err(PktLineError::InvalidUtf8)));
}

#[test]
fn test_sideband_chunk_size_within_limit() {
    assert!(1 + SIDEBAND_MAX <= MAX_PKT_LINE_LEN);
}

#[test]
fn test_sideband_data_write_and_read() {
    let frames = data_frames(b"hello pack data");
    assert_eq!(frames.len(), 1);
    let bytes = frames[0].encode().unwrap();
    match decode(&bytes).unwrap().0 {
        PktLine::Data(data) => {
            assert_eq!(data[0], 1u8);
            assert_eq!(&data[1..], b"hello pack data");
        }
        other => panic!("expected Data pkt-line, got {:?}", other),
    }
}

#[test]
fn test_sideband_progress_write_and_read() {
    match progress_frame("counting objects") {
        PktLine::Data(data) => {
            assert_eq!(data[0], 2u8);
            assert_eq!(&data[1..], b"counting objects");
        }
        other => panic!("expected Data pkt-line, got {:?}", other),
    }
}

#[test]
fn test_sideband_error_write_and_read() {
    match error_frame("fatal error occurred") {
        PktLine::Data(data) => {
            assert_eq!(data[0], 3u8);
            assert_eq!(&data[1..], b"fatal error occurred");
        }
        other => panic!("expected Data pkt-line, got {:?}", other),
    }
}

#[test]
fn sideband_splits_large_data_and_reassembles() {
    let data: Vec<u8> = (0..(SIDEBAND_MAX * 2 + 10)).map(|i| (i % 251) as u8).collect();
    let frames = data_frames(&data);
    assert_eq!(frames.len(), 3);
    let mut joined = Vec::new();
    for f in &frames {
        match f {
            PktLine::Data(d) => {
                assert_eq!(d[0], 1u8);
                assert!(d.len() - 1 <= SIDEBAND_MAX);
                joined.extend_from_slice(&d[1..]);
            }
            other => panic!("expected Data pkt-line, got {:?}", other),
        }
    }
    assert_eq!(joined, data);
}

#[test]
fn sideband_has_no_frame_for_empty_data() {
    assert!(data_frames(b"").is_empty());
}

#[test]
fn sideband_bytes_are_chunked_frames() {
    let data: Vec<u8> = (0..70000u32).map(|i| (i % 251) as u8).collect();
    let bytes = encode_all(&data_frames(&data)).expect("frames fit");
    let mut expected = b"fff0\x01".to_vec();
    expected.extend_from_slice(&data[..65515]);
    expected.extend_from_slice(b"118a\x01");
    expected.extend_from_slice(&data[65515..]);
    assert_eq!(bytes, expected);
    assert!(data_frames(&[]).is_empty());
}
