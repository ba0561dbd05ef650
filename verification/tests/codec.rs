use bytes::BytesMut;
use nsbt::codec::{CodecState, FramingError, JsonRpcFramingCodec};

fn buffer(bytes: &[u8]) -> BytesMut {
    BytesMut::from(bytes)
}

#[test]
fn decodes_a_frame_with_content_type() {
    let mut codec = JsonRpcFramingCodec::new();
    let mut buf = buffer(b"Content-Length: 2\r\nContent-Type: json\r\n\r\n{}rest");
    assert_eq!(codec.decode(&mut buf), Ok(Some("{}".to_string())));
    assert_eq!(&buf[..], b"rest");
}

#[test]
fn decodes_two_frames_one_after_the_other() {
    let mut codec = JsonRpcFramingCodec::new();
    let mut buf = buffer(
        b"Content-Length: 3\r\nContent-Type: a\r\n\r\nabcContent-Length: 1\r\nContent-Type: a\r\n\r\nz",
    );
    assert_eq!(codec.decode(&mut buf), Ok(Some("abc".to_string())));
    assert_eq!(codec.decode(&mut buf), Ok(Some("z".to_string())));
    assert_eq!(codec.decode(&mut buf), Ok(None));
    assert!(buf.is_empty());
}

#[test]
fn payload_may_hold_line_feeds_and_header_names() {
    let mut codec = JsonRpcFramingCodec::new();
    let mut buf = buffer(b"Content-Length: 20\r\nContent-Type: a\r\n\r\nContent-Length: 1\r\n\n");
    assert_eq!(
        codec.decode(&mut buf),
        Ok(Some("Content-Length: 1\r\n\n".to_string()))
    );
    assert!(buf.is_empty());
}

#[test]
fn accepts_bare_line_feeds_in_the_header_block() {
    let mut codec = JsonRpcFramingCodec::new();
    let mut buf = buffer(b"Content-Length: 2\nContent-Type: x\n\n{}");
    assert_eq!(codec.decode(&mut buf), Ok(Some("{}".to_string())));
}

#[test]
fn strips_only_one_carriage_return() {
    let mut codec = JsonRpcFramingCodec::new();
    let mut buf = buffer(b"\r\r\n");
    assert_eq!(codec.decode(&mut buf), Err(FramingError::UnknownHeader));
}

#[test]
fn blank_lines_before_the_headers_are_passed_over() {
    let mut codec = JsonRpcFramingCodec::new();
    let mut buf = buffer(b"\r\n\r\nContent-Length: 2\r\nContent-Type: x\r\n\r\n{}");
    assert_eq!(codec.decode(&mut buf), Ok(Some("{}".to_string())));
}

#[test]
fn a_later_content_length_replaces_an_earlier_one() {
    let mut codec = JsonRpcFramingCodec::new();
    let mut buf = buffer(b"Content-Length: 9\r\nContent-Length: 2\r\nContent-Type: x\r\n\r\n{}!");
    assert_eq!(codec.decode(&mut buf), Ok(Some("{}".to_string())));
    assert_eq!(&buf[..], b"!");
}

#[test]
fn an_empty_payload_is_a_payload() {
    let mut codec = JsonRpcFramingCodec::new();
    let mut buf = buffer(b"Content-Length: 0\r\nContent-Type: x\r\n\r\n");
    assert_eq!(codec.decode(&mut buf), Ok(Some(String::new())));
}

#[test]
fn accepts_a_plus_sign_and_leading_zeros_in_the_length() {
    let mut codec = JsonRpcFramingCodec::new();
    let mut buf = buffer(b"Content-Length: +002\r\nContent-Type: x\r\n\r\n{}");
    assert_eq!(codec.decode(&mut buf), Ok(Some("{}".to_string())));
}

#[test]
fn fewer_bytes_than_announced_is_incomplete_not_an_error() {
    let mut codec = JsonRpcFramingCodec::new();
    let mut buf = buffer(b"Content-Length: 10\r\nContent-Type: x\r\n\r\n12345");
    assert_eq!(codec.decode(&mut buf), Ok(None));
    assert_eq!(&buf[..], b"12345");
    assert_eq!(codec.decode(&mut buf), Ok(None));
    buf.extend_from_slice(b"6789");
    assert_eq!(codec.decode(&mut buf), Ok(None));
    buf.extend_from_slice(b"0tail");
    assert_eq!(codec.decode(&mut buf), Ok(Some("1234567890".to_string())));
    assert_eq!(&buf[..], b"tail");
}

#[test]
fn a_frame_may_arrive_byte_by_byte() {
    let frame = b"Content-Length: 5\r\nContent-Type: text\r\n\r\nhello";
    let mut codec = JsonRpcFramingCodec::new();
    let mut buf = BytesMut::new();
    for (i, b) in frame.iter().enumerate() {
        buf.extend_from_slice(&[*b]);
        let got = codec.decode(&mut buf);
        if i + 1 < frame.len() {
            assert_eq!(got, Ok(None));
        } else {
            assert_eq!(got, Ok(Some("hello".to_string())));
        }
    }
    assert!(buf.is_empty());
}

#[test]
fn a_cut_between_content_type_and_blank_line_changes_nothing() {
    let mut codec = JsonRpcFramingCodec::new();
    let mut buf = buffer(b"Content-Length: 2\r\nContent-Type: a\r\n");
    assert_eq!(codec.decode(&mut buf), Ok(None));
    assert!(buf.is_empty());
    buf.extend_from_slice(b"\r\n{}");
    assert_eq!(codec.decode(&mut buf), Ok(Some("{}".to_string())));
    assert!(buf.is_empty());
}

#[test]
fn every_cut_of_a_stream_gives_the_same_payloads() {
    let stream: &[u8] =
        b"Content-Length: 3\r\nContent-Type: a\r\n\r\nabc\r\nContent-Length: 2\r\nContent-Type: b\r\n\r\n{}";
    for cut in 0..=stream.len() {
        let mut codec = JsonRpcFramingCodec::new();
        let mut buf = buffer(&stream[..cut]);
        let mut got = Vec::new();
        while let Some(p) = codec.decode(&mut buf).unwrap() {
            got.push(p);
        }
        buf.extend_from_slice(&stream[cut..]);
        while let Some(p) = codec.decode(&mut buf).unwrap() {
            got.push(p);
        }
        assert_eq!(got, vec!["abc".to_string(), "{}".to_string()]);
        assert!(buf.is_empty());
    }
}

#[test]
fn without_a_content_type_line_the_blank_line_closes_nothing() {
    let mut codec = JsonRpcFramingCodec::new();
    let mut buf = buffer(b"Content-Length: 2\r\n\r\n{}");
    assert_eq!(codec.decode(&mut buf), Ok(None));
    assert_eq!(&buf[..], b"{}");
    buf.extend_from_slice(b"\r\n");
    assert_eq!(codec.decode(&mut buf), Err(FramingError::UnknownHeader));
}

#[test]
fn rejects_an_unknown_header() {
    let mut codec = JsonRpcFramingCodec::new();
    let mut buf = buffer(b"Foo: 1\r\nleft");
    assert_eq!(codec.decode(&mut buf), Err(FramingError::UnknownHeader));
    assert_eq!(&buf[..], b"left");
}

#[test]
fn header_names_are_matched_exactly() {
    let mut codec = JsonRpcFramingCodec::new();
    let mut buf = buffer(b"content-length: 1\r\n");
    assert_eq!(codec.decode(&mut buf), Err(FramingError::UnknownHeader));
    let mut codec = JsonRpcFramingCodec::new();
    let mut buf = buffer(b"Content-Length:1\r\n");
    assert_eq!(codec.decode(&mut buf), Err(FramingError::UnknownHeader));
}

#[test]
fn rejects_a_length_that_is_not_a_number() {
    for bad in [
        &b"Content-Length: abc\r\n"[..],
        b"Content-Length: \r\n",
        b"Content-Length: -1\r\n",
        b"Content-Length: +\r\n",
        b"Content-Length: 4 \r\n",
        b"Content-Length:  4\r\n",
        b"Content-Length: 1.5\r\n",
        b"Content-Length: 0x10\r\n",
    ] {
        let mut codec = JsonRpcFramingCodec::new();
        let mut buf = buffer(bad);
        assert_eq!(
            codec.decode(&mut buf),
            Err(FramingError::InvalidContentLength)
        );
        assert!(buf.is_empty());
    }
}

#[test]
fn rejects_a_length_that_does_not_fit() {
    let mut codec = JsonRpcFramingCodec::new();
    let mut buf = buffer(b"Content-Length: 340282366920938463463374607431768211456\r\n");
    assert_eq!(
        codec.decode(&mut buf),
        Err(FramingError::InvalidContentLength)
    );
}

#[test]
fn the_largest_length_is_accepted() {
    let mut codec = JsonRpcFramingCodec::new();
    let line = format!("Content-Length: {}\r\nContent-Type: x\r\n\r\nab", usize::MAX);
    let mut buf = buffer(line.as_bytes());
    assert_eq!(codec.decode(&mut buf), Ok(None));
    assert_eq!(&buf[..], b"ab");
}

#[test]
fn rejects_content_type_before_content_length() {
    let mut codec = JsonRpcFramingCodec::new();
    let mut buf = buffer(b"Content-Type: json\r\nContent-Length: 2\r\n\r\n{}");
    assert_eq!(
        codec.decode(&mut buf),
        Err(FramingError::ContentTypeBeforeLength)
    );
}

#[test]
fn rejects_a_header_line_that_is_not_utf8() {
    let mut codec = JsonRpcFramingCodec::new();
    let mut buf = buffer(b"Content-Type: \xff\r\n");
    assert_eq!(codec.decode(&mut buf), Err(FramingError::InvalidUtf8));
    let mut codec = JsonRpcFramingCodec::new();
    let mut buf = buffer(b"Content-Length: 1\xc3\r\n");
    assert_eq!(codec.decode(&mut buf), Err(FramingError::InvalidUtf8));
}

#[test]
fn rejects_a_payload_that_is_not_utf8_and_keeps_it() {
    let mut codec = JsonRpcFramingCodec::new();
    let mut buf = buffer(b"Content-Length: 2\r\nContent-Type: x\r\n\r\n\xc3\x28");
    assert_eq!(codec.decode(&mut buf), Err(FramingError::InvalidUtf8));
    assert_eq!(&buf[..], b"\xc3\x28");
    assert_eq!(codec.decode(&mut buf), Err(FramingError::InvalidUtf8));
}

#[test]
fn the_length_counts_bytes_not_characters() {
    let mut codec = JsonRpcFramingCodec::new();
    let mut buf = buffer("Content-Length: 3\r\nContent-Type: x\r\n\r\n\u{20ac}".as_bytes());
    assert_eq!(codec.decode(&mut buf), Ok(Some("\u{20ac}".to_string())));
}

#[test]
fn a_payload_cut_inside_a_character_is_not_utf8() {
    let mut codec = JsonRpcFramingCodec::new();
    let mut buf = buffer("Content-Length: 2\r\nContent-Type: x\r\n\r\n\u{20ac}".as_bytes());
    assert_eq!(codec.decode(&mut buf), Err(FramingError::InvalidUtf8));
}

#[test]
fn encode_writes_length_blank_line_payload_and_terminator() {
    let mut codec = JsonRpcFramingCodec::new();
    let mut buf = BytesMut::new();
    assert_eq!(codec.encode("{}".to_string(), &mut buf), Ok(()));
    assert_eq!(&buf[..], b"Content-Length: 2\r\n\r\n{}\r\n");
}

#[test]
fn encode_appends_to_what_the_buffer_holds() {
    let mut codec = JsonRpcFramingCodec::new();
    let mut buf = buffer(b"before");
    codec.encode("0123456789".to_string(), &mut buf).unwrap();
    codec.encode(String::new(), &mut buf).unwrap();
    assert_eq!(
        &buf[..],
        &b"beforeContent-Length: 10\r\n\r\n0123456789\r\nContent-Length: 0\r\n\r\n\r\n"[..]
    );
}

#[test]
fn encode_announces_the_length_in_bytes() {
    let mut codec = JsonRpcFramingCodec::new();
    let mut buf = BytesMut::new();
    codec.encode("\u{e9}\u{20ac}".to_string(), &mut buf).unwrap();
    assert_eq!(&buf[..], "Content-Length: 5\r\n\r\n\u{e9}\u{20ac}\r\n".as_bytes());
}

#[test]
fn no_strict_prefix_of_an_encoded_frame_decodes() {
    let mut codec = JsonRpcFramingCodec::new();
    let mut whole = BytesMut::new();
    codec
        .encode("{\"type\":\"ExecCommand\"}".to_string(), &mut whole)
        .unwrap();
    for cut in 0..whole.len() {
        let mut codec = JsonRpcFramingCodec::new();
        let mut buf = buffer(&whole[..cut]);
        assert_eq!(codec.decode(&mut buf), Ok(None));
    }
}

#[test]
fn an_encoded_frame_names_no_content_type_and_is_not_decoded() {
    let mut codec = JsonRpcFramingCodec::new();
    let mut buf = BytesMut::new();
    codec.encode("{}".to_string(), &mut buf).unwrap();
    assert_eq!(codec.decode(&mut buf), Err(FramingError::UnknownHeader));
}

#[test]
fn encode_leaves_a_decoder_in_mid_frame_alone() {
    let mut codec = JsonRpcFramingCodec::new();
    let mut inbound = buffer(b"Content-Length: 4\r\nContent-Type: x\r\n\r\nab");
    assert_eq!(codec.decode(&mut inbound), Ok(None));
    let mut outbound = BytesMut::new();
    codec.encode("x".to_string(), &mut outbound).unwrap();
    inbound.extend_from_slice(b"cd");
    assert_eq!(codec.decode(&mut inbound), Ok(Some("abcd".to_string())));
}

#[test]
fn the_state_follows_the_header_block() {
    let mut codec = JsonRpcFramingCodec::new();
    assert_eq!(codec.state(), CodecState::Headers { length: None });
    let mut buf = buffer(b"Content-Len");
    assert_eq!(codec.decode(&mut buf), Ok(None));
    assert_eq!(codec.state(), CodecState::Headers { length: None });
    buf.extend_from_slice(b"gth: 4\r\n\r\n");
    assert_eq!(codec.decode(&mut buf), Ok(None));
    assert_eq!(codec.state(), CodecState::Headers { length: Some(4) });
    buf.extend_from_slice(b"Content-Type: a\r\nContent-Length: 3\r\nContent-Type: b\r\n");
    assert_eq!(codec.decode(&mut buf), Ok(None));
    assert_eq!(codec.state(), CodecState::PayloadMode { length: 3 });
    buf.extend_from_slice(b"\r\nab");
    assert_eq!(codec.decode(&mut buf), Ok(None));
    assert_eq!(codec.state(), CodecState::Payload { length: 3 });
    assert_eq!(&buf[..], b"ab");
    buf.extend_from_slice(b"c");
    assert_eq!(codec.decode(&mut buf), Ok(Some("abc".to_string())));
    assert_eq!(codec.state(), CodecState::Headers { length: None });
}

#[test]
fn an_error_keeps_what_the_lines_before_it_said() {
    let mut codec = JsonRpcFramingCodec::new();
    let mut buf = buffer(b"Content-Length: 7\r\nContent-Length: x\r\nContent-Type: a\r\n");
    assert_eq!(
        codec.decode(&mut buf),
        Err(FramingError::InvalidContentLength)
    );
    assert_eq!(codec.state(), CodecState::Headers { length: Some(7) });
    assert_eq!(&buf[..], b"Content-Type: a\r\n");
}

#[test]
fn payloads_at_the_edges_of_utf8() {
    for bad in [
        &b"\xc0\x80"[..],
        b"\xed\xa0\x80",
        b"\xf4\x90\x80\x80",
        b"\x80",
        b"\xe2\x82",
    ] {
        let mut codec = JsonRpcFramingCodec::new();
        let mut buf = buffer(format!("Content-Length: {}\r\nContent-Type: x\r\n\r\n", bad.len()).as_bytes());
        buf.extend_from_slice(bad);
        assert_eq!(codec.decode(&mut buf), Err(FramingError::InvalidUtf8));
    }
    for good in ["\u{0}", "\u{7f}", "\u{80}", "\u{7ff}", "\u{800}", "\u{d7ff}", "\u{e000}", "\u{ffff}", "\u{10000}", "\u{10ffff}"] {
        let mut codec = JsonRpcFramingCodec::new();
        let mut buf = buffer(format!("Content-Length: {}\r\nContent-Type: x\r\n\r\n{}", good.len(), good).as_bytes());
        assert_eq!(codec.decode(&mut buf), Ok(Some(good.to_string())));
    }
}
