//! The wire-level view of a connection: the error taxonomy for request
//! framing, and the line-driven reader that assembles a raw request.

use vstd::prelude::*;

use crate::text;

verus! {

/// Why a connection failed to yield a well-formed request. `NoData` (end of
/// stream before any line) is distinct from `InvalidRequestLine` (a first
/// line that does not hold exactly three tokens) so the two are
/// independently observable.
#[derive(PartialEq, Eq, Structural, Debug, Clone, Copy)]
pub enum HttpError {
    NoData,
    LineReadFailed,
    TruncatedBody,
    BodyDecodeFailed,
    InvalidRequestLine,
}

/// What the connection handed the reader for one line: a decoded line
/// (without its terminator), the end of the stream, or a read or decode
/// failure.
pub enum LineEvent {
    Line(String),
    Eof,
    Failed,
}

/// What the connection handed the reader for the body: the decoded body of
/// the expected length, a stream that closed early, or a decode failure.
pub enum BodyEvent {
    Full(String),
    Truncated,
    DecodeFailed,
}

/// A fully framed request: its verbatim request line, its raw header lines,
/// and its body.
pub struct RawRequest {
    pub request_line: String,
    pub headers: Vec<String>,
    pub body: String,
}

/// The reader's accumulated state: the request line once seen, the header
/// lines so far, and the value of the last `Content-Length` header.
pub struct Reader {
    pub request_line: Option<String>,
    pub headers: Vec<String>,
    pub content_length: Option<usize>,
}

/// What the reader wants next: another line, exactly `n` body bytes, or
/// nothing because the request is complete or the connection failed.
pub enum ReaderStep {
    NeedLine(Reader),
    NeedBody(Reader, usize),
    Complete(RawRequest),
    Failed(HttpError),
}

/// The content length in force after seeing header line `l`: a line naming
/// `Content-Length` replaces the current value with its parse, every other
/// line leaves it alone.
pub open spec fn updated_content_length(cur: Option<usize>, l: Seq<char>) -> Option<usize> {
    if text::has_prefix(l, ("Content-Length: ")@) {
        if text::parses_as_usize(l.skip(16)) {
            Some(text::digits_val(l.skip(16)) as usize)
        } else {
            None
        }
    } else {
        cur
    }
}

/// A reader that has consumed nothing.
pub fn reader_new() -> (r: Reader)
    ensures
        r.request_line is None,
        r.headers@.len() == 0,
        r.content_length is None,
{
    Reader { request_line: None, headers: Vec::new(), content_length: None }
}

impl Reader {
    /// Consumes one line event. The first line is the request line,
    /// verbatim. Later lines accumulate as headers until an empty line or
    /// the end of the stream closes the header block; the block's
    /// `Content-Length`, if any, then decides whether a body follows. The
    /// end of the stream before any line is `NoData`; a read failure is
    /// `LineReadFailed`.
    pub fn feed_line(self, ev: LineEvent) -> (step: ReaderStep)
        ensures
            self.request_line is None ==> (match ev {
                LineEvent::Line(l) => step matches ReaderStep::NeedLine(r2) && r2.request_line
                    == Some(l) && r2.headers == self.headers && r2.content_length is None,
                LineEvent::Eof => step matches ReaderStep::Failed(e) && e == HttpError::NoData,
                LineEvent::Failed => step matches ReaderStep::Failed(e) && e
                    == HttpError::LineReadFailed,
            }),
            self.request_line matches Some(rl) ==> (match ev {
                LineEvent::Line(l) => if l@.len() == 0 {
                    self.spec_close_headers(step)
                } else {
                    step matches ReaderStep::NeedLine(r2) && r2.request_line == Some(rl)
                        && r2.headers@ == self.headers@.push(l) && r2.content_length
                        == updated_content_length(self.content_length, l@)
                },
                LineEvent::Eof => self.spec_close_headers(step),
                LineEvent::Failed => step matches ReaderStep::Failed(e) && e
                    == HttpError::LineReadFailed,
            }),
    {
        match ev {
            LineEvent::Line(l) => {
                match self.request_line {
                    None => ReaderStep::NeedLine(
                        Reader { request_line: Some(l), headers: self.headers, content_length: None },
                    ),
                    Some(rl) => {
                        if l.as_str().unicode_len() == 0 {
                            Reader {
                                request_line: Some(rl),
                                headers: self.headers,
                                content_length: self.content_length,
                            }.close_headers()
                        } else {
                            let mut content_length = self.content_length;
                            proof {
                                reveal_strlit("Content-Length: ");
                            }
                            if text::str_has_prefix(l.as_str(), "Content-Length: ") {
                                let l_str = l.as_str();
                                let len = l_str.unicode_len();
                                let value = l_str.substring_char(16, len);
                                proof {
                                    assert(value@ =~= l@.skip(16));
                                }
                                content_length = text::parse_usize(value);
                            }
                            let mut headers = self.headers;
                            headers.push(l);
                            ReaderStep::NeedLine(
                                Reader { request_line: Some(rl), headers, content_length },
                            )
                        }
                    },
                }
            },
            LineEvent::Eof => {
                match self.request_line {
                    None => ReaderStep::Failed(HttpError::NoData),
                    Some(rl) => Reader {
                        request_line: Some(rl),
                        headers: self.headers,
                        content_length: self.content_length,
                    }.close_headers(),
                }
            },
            LineEvent::Failed => ReaderStep::Failed(HttpError::LineReadFailed),
        }
    }

    /// What closing the header block must produce: a body request for a
    /// positive `Content-Length`, otherwise the complete request with an
    /// empty body.
    pub open spec fn spec_close_headers(self, step: ReaderStep) -> bool {
        match self.content_length {
            Some(n) => if n > 0 {
                step matches ReaderStep::NeedBody(r2, m) && m == n && r2 == self
            } else {
                step matches ReaderStep::Complete(req) && Some(req.request_line)
                    == self.request_line && req.headers == self.headers && req.body@
                    == Seq::<char>::empty()
            },
            None => step matches ReaderStep::Complete(req) && Some(req.request_line)
                == self.request_line && req.headers == self.headers && req.body@
                == Seq::<char>::empty(),
        }
    }

    /// Closes the header block once the empty line or the end of the
    /// stream was seen.
    fn close_headers(self) -> (step: ReaderStep)
        requires
            self.request_line is Some,
        ensures
            self.spec_close_headers(step),
    {
        let want_body = match self.content_length {
            Some(n) => n > 0,
            None => false,
        };
        if want_body {
            let n = match self.content_length {
                Some(n) => n,
                None => 0,
            };
            ReaderStep::NeedBody(self, n)
        } else {
            match self.request_line {
                Some(rl) => {
                    proof {
                        reveal_strlit("");
                        assert(("")@ =~= Seq::<char>::empty());
                    }
                    ReaderStep::Complete(
                        RawRequest {
                            request_line: rl,
                            headers: self.headers,
                            body: String::from_str(""),
                        },
                    )
                },
                None => ReaderStep::Failed(HttpError::NoData),
            }
        }
    }

    /// Consumes the body event that answers a `NeedBody` request: the full
    /// body completes the request, a short read is `TruncatedBody`, a
    /// decode failure is `BodyDecodeFailed`.
    pub fn feed_body(self, ev: BodyEvent) -> (step: ReaderStep)
        requires
            self.request_line is Some,
        ensures
            match ev {
                BodyEvent::Full(b) => step matches ReaderStep::Complete(req) && Some(
                    req.request_line,
                ) == self.request_line && req.headers == self.headers && req.body == b,
                BodyEvent::Truncated => step matches ReaderStep::Failed(e) && e
                    == HttpError::TruncatedBody,
                BodyEvent::DecodeFailed => step matches ReaderStep::Failed(e) && e
                    == HttpError::BodyDecodeFailed,
            },
    {
        match ev {
            BodyEvent::Full(b) => {
                match self.request_line {
                    Some(rl) => ReaderStep::Complete(
                        RawRequest { request_line: rl, headers: self.headers, body: b },
                    ),
                    None => ReaderStep::Failed(HttpError::LineReadFailed),
                }
            },
            BodyEvent::Truncated => ReaderStep::Failed(HttpError::TruncatedBody),
            BodyEvent::DecodeFailed => ReaderStep::Failed(HttpError::BodyDecodeFailed),
        }
    }
}

} // verus!
