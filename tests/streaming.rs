use evocaition::decode::CompletionError;
use evocaition::stream::{decode_line, decode_line_text, LineEvent, StreamDecoder};

fn feed_all(chunks: &[&[u8]]) -> (Vec<String>, Result<(), CompletionError>, bool) {
    let mut decoder = StreamDecoder::new();
    let mut out = Vec::new();
    for chunk in chunks {
        let r = decoder.feed(chunk, &mut out);
        if r.is_err() {
            return (out, r, decoder.is_finished());
        }
    }
    (out, Ok(()), decoder.is_finished())
}

#[test]
fn content_split_across_chunks_is_assembled() {
    let (out, r, finished) = feed_all(&[
        br#"data: {"model":"m","object":"chat.completion.chunk","created":0,"choices":[{"delta":{"content":"He"#,
        b"llo\"}}]}\n",
        b"data: [DONE]\n",
    ]);
    assert!(r.is_ok());
    assert_eq!(out, vec!["Hello".to_string()]);
    assert!(finished);
}

#[test]
fn keep_alive_line_is_skipped() {
    let (out, r, finished) = feed_all(&[b": keep-alive\n"]);
    assert!(r.is_ok());
    assert!(out.is_empty());
    assert!(!finished);
}

#[test]
fn empty_lines_are_skipped() {
    let (out, r, _) = feed_all(&[b"\n\n  \r\n", b"data: {\"model\":\"m\",\"object\":\"o\",\"created\":0,\"choices\":[{\"text\":\"a\"}]}\r\n"]);
    assert!(r.is_ok());
    assert_eq!(out, vec!["a".to_string()]);
}

#[test]
fn fragments_of_several_lines_come_in_order() {
    let (out, r, _) = feed_all(&[
        b"data: {\"model\":\"m\",\"object\":\"o\",\"created\":0,\"choices\":[{\"delta\":{\"content\":\"a\"}}]}\ndata: {\"model\":\"m\",\"object\":\"o\",\"created\":0,\"choices\":[{\"delta\":{\"role\":\"assistant\"}}]}\ndata: {\"model\":\"m\",\"object\":\"o\",\"created\":0,\"choices\":[{\"delta\":{\"content\":\"b\"}}]}\n",
    ]);
    assert!(r.is_ok());
    assert_eq!(out, vec!["a".to_string(), "b".to_string()]);
}

#[test]
fn nothing_is_decoded_after_done() {
    let (out, r, finished) = feed_all(&[
        b"data: [DONE]\n",
        b"data: {\"model\":\"m\",\"object\":\"o\",\"created\":0,\"choices\":[{\"text\":\"late\"}]}\n",
    ]);
    assert!(r.is_ok());
    assert!(out.is_empty());
    assert!(finished);
}

#[test]
fn partial_trailing_line_is_held_back() {
    let (out, r, finished) = feed_all(&[
        b"data: {\"model\":\"m\",\"object\":\"o\",\"created\":0,\"choices\":[{\"text\":\"x\"}]}",
    ]);
    assert!(r.is_ok());
    assert!(out.is_empty());
    assert!(!finished);
}

#[test]
fn error_document_in_stream_stops_it() {
    let (out, r, finished) = feed_all(&[
        b"data: {\"model\":\"m\",\"object\":\"o\",\"created\":0,\"choices\":[{\"text\":\"a\"}]}\ndata: {\"error\":{\"code\":429,\"message\":\"rate limited\"}}\ndata: {\"model\":\"m\",\"object\":\"o\",\"created\":0,\"choices\":[{\"text\":\"b\"}]}\n",
    ]);
    assert_eq!(out, vec!["a".to_string()]);
    assert!(finished);
    match r {
        Err(CompletionError::Api { code, message, .. }) => {
            assert_eq!(code, 429);
            assert_eq!(message, "rate limited");
        }
        other => panic!("unexpected outcome: {:?}", other),
    }
}

#[test]
fn error_envelope_in_stream_yields_no_fragment() {
    let (out, r, _) = feed_all(&[b"data: {\"error\":{\"code\":429,\"message\":\"rate limited\"}}\n"]);
    assert!(out.is_empty());
    assert!(matches!(r, Err(CompletionError::Api { code: 429, .. })));
}

#[test]
fn malformed_payload_keeps_its_text() {
    let (_, r, _) = feed_all(&[b"data: {oops}\n"]);
    match r {
        Err(CompletionError::MalformedResponse { raw_body, .. }) => assert_eq!(raw_body, "{oops}"),
        other => panic!("unexpected outcome: {:?}", other),
    }
}

#[test]
fn multibyte_character_split_across_chunks_is_kept() {
    let line = "data: {\"model\":\"m\",\"object\":\"o\",\"created\":0,\"choices\":[{\"text\":\"caf\u{e9}\"}]}\n";
    let bytes = line.as_bytes();
    let cut = line.find('\u{e9}').unwrap() + 1;
    let (out, r, _) = feed_all(&[&bytes[..cut], &bytes[cut..]]);
    assert!(r.is_ok());
    assert_eq!(out, vec!["caf\u{e9}".to_string()]);
}

#[test]
fn invalid_utf8_is_replaced() {
    let mut line = b"data: {\"model\":\"m\",\"object\":\"o\",\"created\":0,\"choices\":[{\"text\":\"a".to_vec();
    line.push(0xff);
    line.extend_from_slice(b"b\"}]}\n");
    let (out, r, _) = feed_all(&[&line]);
    assert!(r.is_ok());
    assert_eq!(out, vec!["a\u{fffd}b".to_string()]);
}

#[test]
fn decode_line_recognises_sentinel_with_spaces() {
    assert!(matches!(decode_line(b"  data: [DONE]  "), LineEvent::Done));
    assert!(matches!(decode_line(b"data:[DONE]"), LineEvent::Skip));
    assert!(matches!(decode_line(b""), LineEvent::Skip));
}

#[test]
fn decode_line_text_takes_trimmed_payload() {
    match decode_line_text("\tdata: {\"model\":\"m\",\"object\":\"o\",\"created\":0,\"choices\":[{\"text\":\"z\"}]} \u{a0}") {
        LineEvent::Fragments(f) => assert_eq!(f, vec!["z".to_string()]),
        other => panic!("unexpected event: {:?}", other),
    }
    assert!(matches!(decode_line_text("event: ping"), LineEvent::Skip));
    assert!(matches!(decode_line_text("data: [DONE] "), LineEvent::Done));
}
