use http_server::server::{reader_new, BodyEvent, HttpError, LineEvent, Reader, ReaderStep};

fn need_line(step: ReaderStep) -> Reader {
    match step {
        ReaderStep::NeedLine(r) => r,
        _ => panic!("expected the reader to want another line"),
    }
}

#[test]
fn reader_empty_input_is_no_data() {
    let step = reader_new().feed_line(LineEvent::Eof);
    assert!(matches!(step, ReaderStep::Failed(HttpError::NoData)));
}

#[test]
fn reader_no_data_differs_from_invalid_request_line() {
    let step = reader_new().feed_line(LineEvent::Eof);
    let framing = match step {
        ReaderStep::Failed(e) => e,
        _ => panic!("expected a failure"),
    };
    assert_ne!(framing, HttpError::InvalidRequestLine);
    assert_eq!(framing, HttpError::NoData);
}

#[test]
fn reader_line_failure_surfaces() {
    let step = reader_new().feed_line(LineEvent::Failed);
    assert!(matches!(step, ReaderStep::Failed(HttpError::LineReadFailed)));
}

#[test]
fn reader_request_without_body() {
    let r = need_line(reader_new().feed_line(LineEvent::Line("GET / HTTP/1.1".to_string())));
    let r = need_line(r.feed_line(LineEvent::Line("Host: localhost".to_string())));
    let step = r.feed_line(LineEvent::Line(String::new()));
    match step {
        ReaderStep::Complete(req) => {
            assert_eq!(req.request_line, "GET / HTTP/1.1");
            assert_eq!(req.headers, vec!["Host: localhost".to_string()]);
            assert_eq!(req.body, "");
        },
        _ => panic!("expected a complete request"),
    }
}

#[test]
fn reader_eof_closes_header_block() {
    let r = need_line(reader_new().feed_line(LineEvent::Line("GET / HTTP/1.1".to_string())));
    let step = r.feed_line(LineEvent::Eof);
    match step {
        ReaderStep::Complete(req) => {
            assert_eq!(req.request_line, "GET / HTTP/1.1");
            assert_eq!(req.body, "");
        },
        _ => panic!("expected a complete request"),
    }
}

#[test]
fn reader_request_with_body() {
    let r = need_line(reader_new().feed_line(LineEvent::Line(
        "POST /files/abc.txt HTTP/1.1".to_string(),
    )));
    let r = need_line(r.feed_line(LineEvent::Line("Content-Length: 5".to_string())));
    let step = r.feed_line(LineEvent::Line(String::new()));
    let (r, want) = match step {
        ReaderStep::NeedBody(r, n) => (r, n),
        _ => panic!("expected the reader to want a body"),
    };
    assert_eq!(want, 5);
    let step = r.feed_body(BodyEvent::Full("abcde".to_string()));
    match step {
        ReaderStep::Complete(req) => {
            assert_eq!(req.request_line, "POST /files/abc.txt HTTP/1.1");
            assert_eq!(req.headers, vec!["Content-Length: 5".to_string()]);
            assert_eq!(req.body, "abcde");
        },
        _ => panic!("expected a complete request"),
    }
}

#[test]
fn reader_truncated_body_surfaces() {
    let r = need_line(reader_new().feed_line(LineEvent::Line("POST /files/x HTTP/1.1".to_string())));
    let r = need_line(r.feed_line(LineEvent::Line("Content-Length: 10".to_string())));
    let step = r.feed_line(LineEvent::Eof);
    let (r, want) = match step {
        ReaderStep::NeedBody(r, n) => (r, n),
        _ => panic!("expected the reader to want a body"),
    };
    assert_eq!(want, 10);
    let step = r.feed_body(BodyEvent::Truncated);
    assert!(matches!(step, ReaderStep::Failed(HttpError::TruncatedBody)));
}

#[test]
fn reader_body_decode_failure_surfaces() {
    let r = need_line(reader_new().feed_line(LineEvent::Line("POST /x HTTP/1.1".to_string())));
    let r = need_line(r.feed_line(LineEvent::Line("Content-Length: 3".to_string())));
    let step = r.feed_line(LineEvent::Line(String::new()));
    let r = match step {
        ReaderStep::NeedBody(r, _) => r,
        _ => panic!("expected the reader to want a body"),
    };
    let step = r.feed_body(BodyEvent::DecodeFailed);
    assert!(matches!(step, ReaderStep::Failed(HttpError::BodyDecodeFailed)));
}

#[test]
fn reader_unparsable_content_length_means_no_body() {
    let r = need_line(reader_new().feed_line(LineEvent::Line("POST /x HTTP/1.1".to_string())));
    let r = need_line(r.feed_line(LineEvent::Line("Content-Length: five".to_string())));
    let step = r.feed_line(LineEvent::Line(String::new()));
    match step {
        ReaderStep::Complete(req) => {
            assert_eq!(req.headers, vec!["Content-Length: five".to_string()]);
            assert_eq!(req.body, "");
        },
        _ => panic!("expected a complete request"),
    }
}

#[test]
fn reader_last_content_length_wins() {
    let r = need_line(reader_new().feed_line(LineEvent::Line("POST /x HTTP/1.1".to_string())));
    let r = need_line(r.feed_line(LineEvent::Line("Content-Length: 9".to_string())));
    let r = need_line(r.feed_line(LineEvent::Line("Content-Length: 2".to_string())));
    let step = r.feed_line(LineEvent::Line(String::new()));
    match step {
        ReaderStep::NeedBody(_, n) => assert_eq!(n, 2),
        _ => panic!("expected the reader to want a body"),
    }
}

#[test]
fn reader_zero_content_length_completes_without_body() {
    let r = need_line(reader_new().feed_line(LineEvent::Line("POST /x HTTP/1.1".to_string())));
    let r = need_line(r.feed_line(LineEvent::Line("Content-Length: 0".to_string())));
    let step = r.feed_line(LineEvent::Line(String::new()));
    match step {
        ReaderStep::Complete(req) => assert_eq!(req.body, ""),
        _ => panic!("expected a complete request"),
    }
}
