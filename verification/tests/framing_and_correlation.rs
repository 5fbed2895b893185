use mcp_bridge::correlation::CorrelationTable;
use mcp_bridge::framing::{
    decode_auto, decode_cl, decode_nl, encode_frame, framing_preference_of, parse_dec, Decoded,
    FrameReader, Framing, FramingPreference,
};

fn frame(body: &[u8], mode: Framing) -> Vec<u8> {
    encode_frame(body, mode)
}

#[test]
fn content_length_frame_has_header_and_body() {
    let out = frame(b"{\"a\":1}", Framing::ContentLength);
    assert_eq!(out, b"Content-Length: 7\r\n\r\n{\"a\":1}".to_vec());
}

#[test]
fn newline_frame_appends_line_feed() {
    let out = frame(b"{\"a\":1}", Framing::Newline);
    assert_eq!(out, b"{\"a\":1}\n".to_vec());
}

#[test]
fn content_length_round_trip() {
    let body = b"{\"jsonrpc\":\"2.0\",\"id\":2}".to_vec();
    let mut buf = frame(&body, Framing::ContentLength);
    let flen = buf.len();
    buf.extend_from_slice(b"garbage after");
    match decode_cl(&buf) {
        Decoded::Msg { body: got, consumed } => {
            assert_eq!(got, body);
            assert_eq!(consumed, flen);
        },
        other => panic!("expected a decoded message, got {:?}", other),
    }
}

#[test]
fn newline_round_trip() {
    let body = b"{\"x\":true}".to_vec();
    let buf = frame(&body, Framing::Newline);
    match decode_nl(&buf) {
        Decoded::Msg { body: got, consumed } => {
            assert_eq!(got, body);
            assert_eq!(consumed, buf.len());
        },
        other => panic!("expected a decoded message, got {:?}", other),
    }
}

#[test]
fn partial_content_length_needs_more() {
    let body = b"{\"jsonrpc\":\"2.0\"}".to_vec();
    let buf = frame(&body, Framing::ContentLength);
    let cut = &buf[..buf.len() - 3];
    assert_eq!(decode_cl(cut), Decoded::NeedMore);
}

#[test]
fn header_block_without_length_is_malformed() {
    assert_eq!(decode_cl(b"X-Other: 1\r\n\r\nbody"), Decoded::Malformed);
}

#[test]
fn header_name_is_case_insensitive() {
    match decode_cl(b"CONTENT-LENGTH: 2\r\n\r\nab") {
        Decoded::Msg { body, consumed } => {
            assert_eq!(body, b"ab".to_vec());
            assert_eq!(consumed, 23);
        },
        other => panic!("expected a decoded message, got {:?}", other),
    }
}

#[test]
fn auto_detects_content_length() {
    let body = b"{\"m\":1}".to_vec();
    let buf = frame(&body, Framing::ContentLength);
    let (d, mode) = decode_auto(&buf);
    assert_eq!(mode, Some(Framing::ContentLength));
    match d {
        Decoded::Msg { body: got, consumed } => {
            assert_eq!(got, body);
            assert_eq!(consumed, buf.len());
        },
        other => panic!("expected a decoded message, got {:?}", other),
    }
}

#[test]
fn auto_detects_newline() {
    let body = b"{\"m\":1}".to_vec();
    let buf = frame(&body, Framing::Newline);
    let (d, mode) = decode_auto(&buf);
    assert_eq!(mode, Some(Framing::Newline));
    match d {
        Decoded::Msg { body: got, consumed } => {
            assert_eq!(got, body);
            assert_eq!(consumed, buf.len());
        },
        other => panic!("expected a decoded message, got {:?}", other),
    }
}

#[test]
fn auto_mode_is_sticky_across_reads() {
    let b1 = b"{\"first\":1}".to_vec();
    let b2 = b"{\"second\":2}".to_vec();
    let mut buf = frame(&b1, Framing::ContentLength);
    buf.extend_from_slice(&frame(&b2, Framing::ContentLength));

    let mut reader = FrameReader::new(FramingPreference::Auto);
    assert_eq!(reader.mode, None);
    let first = reader.read_frame(&buf);
    let consumed1 = match first {
        Decoded::Msg { body, consumed } => {
            assert_eq!(body, b1);
            consumed
        },
        other => panic!("expected the first message, got {:?}", other),
    };
    assert_eq!(reader.mode, Some(Framing::ContentLength));
    let second = reader.read_frame(&buf[consumed1..]);
    match second {
        Decoded::Msg { body, consumed } => {
            assert_eq!(body, b2);
            assert_eq!(consumed1 + consumed, buf.len());
        },
        other => panic!("expected the second message, got {:?}", other),
    }
    assert_eq!(reader.mode, Some(Framing::ContentLength));
}

#[test]
fn fixed_preference_skips_detection() {
    let reader = FrameReader::new(FramingPreference::Newline);
    assert_eq!(reader.mode, Some(Framing::Newline));
    let reader = FrameReader::new(FramingPreference::ContentLength);
    assert_eq!(reader.mode, Some(Framing::ContentLength));
}

#[test]
fn decimal_parsing_accepts_digits_only() {
    assert_eq!(parse_dec(b"48"), Some(48));
    assert_eq!(parse_dec(b"0"), Some(0));
    assert_eq!(parse_dec(b""), None);
    assert_eq!(parse_dec(b"4a"), None);
    assert_eq!(parse_dec(b"99999999999999999999999999"), None);
}

#[test]
fn identifiers_are_sequential_and_unique() {
    let mut t = CorrelationTable::new();
    let a = t.allocate();
    let b = t.allocate();
    let c = t.allocate();
    assert_eq!((a, b, c), (1, 2, 3));
    assert!(t.is_pending(1) && t.is_pending(2) && t.is_pending(3));
}

#[test]
fn entry_is_consumed_exactly_once() {
    let mut t = CorrelationTable::new();
    let id = t.allocate();
    assert!(t.is_pending(id));
    assert!(t.settle(id));
    assert!(!t.is_pending(id));
    assert!(!t.settle(id));
}

#[test]
fn teardown_drains_every_entry() {
    let mut t = CorrelationTable::new();
    t.allocate();
    t.allocate();
    let drained = t.drain();
    assert_eq!(drained, vec![1, 2]);
    assert!(!t.is_pending(1) && !t.is_pending(2));
}

#[test]
fn shutdown_restarts_identifiers_at_one() {
    let mut t = CorrelationTable::new();
    t.allocate();
    t.allocate();
    t.reset();
    assert_eq!(t.allocate(), 1);
}

#[test]
fn framing_preference_values_have_synonyms() {
    assert_eq!(framing_preference_of(""), FramingPreference::Auto);
    assert_eq!(framing_preference_of("auto"), FramingPreference::Auto);
    assert_eq!(framing_preference_of(" Newline "), FramingPreference::Newline);
    assert_eq!(framing_preference_of("lines"), FramingPreference::Newline);
    assert_eq!(framing_preference_of("content-length"), FramingPreference::ContentLength);
    assert_eq!(framing_preference_of("CL"), FramingPreference::ContentLength);
    assert_eq!(framing_preference_of("surprising"), FramingPreference::Auto);
}
