//! Response-side data model: the header collection and the closed set of
//! response kinds with their exact byte-level serialization.
//!
//! A header collection is a sequence of `(name, value)` pairs with pairwise
//! distinct names. Setting a name that is already present replaces the old
//! pair; emission order is the insertion order and is fully determined by
//! the collection's history, so serialization is deterministic.

use vstd::prelude::*;

use crate::text;
use crate::utils;

verus! {

/// The serialized form of one header pair: `name: value`.
pub open spec fn header_line(p: (Seq<char>, Seq<char>)) -> Seq<char> {
    p.0 + (": ")@ + p.1
}

/// `s` with every pair named `k` removed, keeping the order of the rest.
pub open spec fn without_key(s: Seq<(Seq<char>, Seq<char>)>, k: Seq<char>) -> Seq<
    (Seq<char>, Seq<char>),
>
    decreases s.len(),
{
    if s.len() == 0 {
        seq![]
    } else {
        let rest = without_key(s.drop_last(), k);
        if s.last().0 == k {
            rest
        } else {
            rest.push(s.last())
        }
    }
}

/// Setting header `k` to `v`: any old pair named `k` goes, the new pair
/// comes last.
pub open spec fn insert_header(
    s: Seq<(Seq<char>, Seq<char>)>,
    k: Seq<char>,
    v: Seq<char>,
) -> Seq<(Seq<char>, Seq<char>)> {
    without_key(s, k).push((k, v))
}

/// Every pair of `b` inserted into `a`, in order.
pub open spec fn merge_headers(a: Seq<(Seq<char>, Seq<char>)>, b: Seq<(Seq<char>, Seq<char>)>) -> Seq<
    (Seq<char>, Seq<char>),
>
    decreases b.len(),
{
    if b.len() == 0 {
        a
    } else {
        insert_header(merge_headers(a, b.drop_last()), b.last().0, b.last().1)
    }
}

/// The serialized header block: the lines joined by CRLF, with no trailing
/// terminator.
pub open spec fn headers_text(s: Seq<(Seq<char>, Seq<char>)>) -> Seq<char>
    decreases s.len(),
{
    if s.len() == 0 {
        Seq::empty()
    } else if s.len() == 1 {
        header_line(s[0])
    } else {
        headers_text(s.drop_last()) + ("\r\n")@ + header_line(s.last())
    }
}

/// Header names are pairwise distinct.
pub open spec fn wf_headers(s: Seq<(Seq<char>, Seq<char>)>) -> bool {
    forall|i: int, j: int| 0 <= i < j < s.len() ==> s[i].0 != s[j].0
}

/// Some pair of `s` is named `k`.
pub open spec fn has_key(s: Seq<(Seq<char>, Seq<char>)>, k: Seq<char>) -> bool {
    exists|i: int| 0 <= i < s.len() && s[i].0 == k
}

pub proof fn lemma_without_key(s: Seq<(Seq<char>, Seq<char>)>, k: Seq<char>)
    ensures
        forall|k2: Seq<char>| #[trigger] has_key(without_key(s, k), k2) ==> has_key(s, k2) && k2
            != k,
        wf_headers(s) ==> wf_headers(without_key(s, k)),
    decreases s.len(),
{
    if s.len() > 0 {
        let pre = s.drop_last();
        lemma_without_key(pre, k);
        assert forall|k2: Seq<char>| #[trigger] has_key(without_key(s, k), k2) implies has_key(
            s,
            k2,
        ) && k2 != k by {
            let w = without_key(s, k);
            let i = choose|i: int| 0 <= i < w.len() && w[i].0 == k2;
            if s.last().0 != k && i == w.len() - 1 {
                assert(s[s.len() - 1].0 == k2);
            } else {
                assert(has_key(without_key(pre, k), k2)) by {
                    assert(without_key(pre, k)[i].0 == k2);
                }
                assert(has_key(pre, k2));
                let j = choose|j: int| 0 <= j < pre.len() && pre[j].0 == k2;
                assert(s[j].0 == k2);
            }
        }
        if wf_headers(s) {
            assert(wf_headers(pre)) by {
                assert(forall|i: int| 0 <= i < pre.len() ==> pre[i] == s[i]);
            }
            if s.last().0 != k {
                let w = without_key(s, k);
                let wp = without_key(pre, k);
                assert forall|i: int, j: int| 0 <= i < j < w.len() implies w[i].0 != w[j].0 by {
                    if j < w.len() - 1 {
                        assert(wp[i].0 != wp[j].0);
                    } else {
                        if w[i].0 == s.last().0 {
                            assert(has_key(wp, w[i].0)) by {
                                assert(wp[i].0 == w[i].0);
                            }
                            let m = choose|m: int| 0 <= m < pre.len() && pre[m].0 == w[i].0;
                            assert(s[m].0 == s[s.len() - 1].0);
                        }
                    }
                }
            }
        }
    }
}

pub proof fn lemma_insert_header_wf(s: Seq<(Seq<char>, Seq<char>)>, k: Seq<char>, v: Seq<char>)
    requires
        wf_headers(s),
    ensures
        wf_headers(insert_header(s, k, v)),
{
    lemma_without_key(s, k);
    let w = without_key(s, k);
    let r = insert_header(s, k, v);
    assert forall|i: int, j: int| 0 <= i < j < r.len() implies r[i].0 != r[j].0 by {
        if j == r.len() - 1 {
            assert(has_key(w, w[i].0)) by {
                assert(w[i].0 == r[i].0);
            }
        } else {
            assert(w[i].0 != w[j].0);
        }
    }
}

/// An ordered collection of HTTP response headers with unique names.
pub struct HttpHeaders {
    entries: Vec<(String, String)>,
}

impl View for HttpHeaders {
    type V = Seq<(Seq<char>, Seq<char>)>;

    closed spec fn view(&self) -> Seq<(Seq<char>, Seq<char>)> {
        Seq::new(self.entries@.len(), |i: int| (self.entries@[i].0@, self.entries@[i].1@))
    }
}

impl Clone for HttpHeaders {
    fn clone(&self) -> (r: Self)
        ensures
            r@ == self@,
    {
        let mut entries: Vec<(String, String)> = Vec::new();
        let n = self.entries.len();
        let mut i: usize = 0;
        while i < n
            invariant
                i <= n,
                n == self.entries@.len(),
                entries@.len() == i,
                forall|j: int| 0 <= j < i ==> entries@[j].0@ == self@[j].0 && entries@[j].1@
                    == self@[j].1,
            decreases n - i,
        {
            let e = &self.entries[i];
            entries.push((e.0.clone(), e.1.clone()));
            i = i + 1;
        }
        let r = HttpHeaders { entries };
        proof {
            assert(r@ =~= self@);
        }
        r
    }
}

impl HttpHeaders {
    /// Names are pairwise distinct; constructors establish this and every
    /// method preserves it.
    pub open spec fn wf(&self) -> bool {
        wf_headers(self@)
    }

    /// The empty collection.
    pub fn new() -> (r: Self)
        ensures
            r@ == Seq::<(Seq<char>, Seq<char>)>::empty(),
            r.wf(),
    {
        let r = HttpHeaders { entries: Vec::new() };
        proof {
            assert(r@ =~= Seq::<(Seq<char>, Seq<char>)>::empty());
        }
        r
    }

    /// Sets header `key` to `value`, replacing any pair of that name.
    fn insert(self, key: &str, value: String) -> (r: Self)
        ensures
            r@ == insert_header(self@, key@, value@),
            self.wf() ==> r.wf(),
    {
        let mut entries: Vec<(String, String)> = Vec::new();
        let n = self.entries.len();
        let mut i: usize = 0;
        while i < n
            invariant
                i <= n,
                n == self.entries@.len(),
                self@.len() == n,
                Seq::new(entries@.len(), |j: int| (entries@[j].0@, entries@[j].1@))
                    =~= without_key(self@.take(i as int), key@),
            decreases n - i,
        {
            proof {
                assert(self@.take(i as int + 1).drop_last() =~= self@.take(i as int));
                assert(self@.take(i as int + 1).last() == self@[i as int]);
            }
            let e = &self.entries[i];
            if !text::str_eq(e.0.as_str(), key) {
                entries.push((e.0.clone(), e.1.clone()));
            }
            proof {
                assert(Seq::new(entries@.len(), |j: int| (entries@[j].0@, entries@[j].1@))
                    =~= without_key(self@.take(i as int + 1), key@));
            }
            i = i + 1;
        }
        entries.push((String::from_str(key), value));
        let r = HttpHeaders { entries };
        proof {
            assert(self@.take(n as int) =~= self@);
            assert(r@ =~= insert_header(self@, key@, value@));
            if self.wf() {
                lemma_insert_header_wf(self@, key@, value@);
            }
        }
        r
    }

    /// Inserts every pair of `other` into `self`, in order; on a name
    /// collision the incoming value wins.
    pub fn merge(self, other: HttpHeaders) -> (r: Self)
        ensures
            r@ == merge_headers(self@, other@),
            self.wf() ==> r.wf(),
    {
        let mut r = self;
        let ghost a = r@;
        let ghost a_wf = r.wf();
        let n = other.entries.len();
        let mut i: usize = 0;
        while i < n
            invariant
                i <= n,
                n == other.entries@.len(),
                other@.len() == n,
                r@ == merge_headers(a, other@.take(i as int)),
                a_wf ==> r.wf(),
            decreases n - i,
        {
            proof {
                assert(other@.take(i as int + 1).drop_last() =~= other@.take(i as int));
                assert(other@.take(i as int + 1).last() == other@[i as int]);
            }
            let e = &other.entries[i];
            r = r.insert(e.0.as_str(), e.1.clone());
            i = i + 1;
        }
        proof {
            assert(other@.take(n as int) =~= other@);
        }
        r
    }

    /// Sets the `Content-Type` header.
    pub fn with_content_type(self, content_type: &str) -> (r: Self)
        ensures
            r@ == insert_header(self@, ("Content-Type")@, content_type@),
            self.wf() ==> r.wf(),
    {
        self.insert("Content-Type", String::from_str(content_type))
    }

    /// Sets the `Content-Length` header.
    pub fn with_content_length(self, content_length: &str) -> (r: Self)
        ensures
            r@ == insert_header(self@, ("Content-Length")@, content_length@),
            self.wf() ==> r.wf(),
    {
        self.insert("Content-Length", String::from_str(content_length))
    }

    /// Sets the `Content-Encoding` header.
    pub fn with_encoding(self, encoding: &str) -> (r: Self)
        ensures
            r@ == insert_header(self@, ("Content-Encoding")@, encoding@),
            self.wf() ==> r.wf(),
    {
        self.insert("Content-Encoding", String::from_str(encoding))
    }

    /// Serializes the collection as CRLF-joined `name: value` lines.
    pub fn to_string(&self) -> (r: String)
        ensures
            r@ == headers_text(self@),
    {
        let mut out = String::new();
        let n = self.entries.len();
        let mut i: usize = 0;
        while i < n
            invariant
                i <= n,
                n == self.entries@.len(),
                self@.len() == n,
                out@ == headers_text(self@.take(i as int)),
            decreases n - i,
        {
            proof {
                assert(self@.take(i as int + 1).drop_last() =~= self@.take(i as int));
                assert(self@.take(i as int + 1).last() == self@[i as int]);
            }
            if i > 0 {
                out.append("\r\n");
            }
            let e = &self.entries[i];
            out.append(e.0.as_str());
            out.append(": ");
            out.append(e.1.as_str());
            proof {
                assert(out@ =~= headers_text(self@.take(i as int + 1)));
            }
            i = i + 1;
        }
        proof {
            assert(self@.take(n as int) =~= self@);
        }
        out
    }
}

/// The model of a 200 response before serialization: its headers (without
/// `Content-Length`, which serialization computes last) and its body text.
pub struct OkModel {
    pub headers: Seq<(Seq<char>, Seq<char>)>,
    pub body: Seq<char>,
}

/// The head of a 200 response: status line, header block, blank line.
pub open spec fn ok_head_chars(hs: Seq<(Seq<char>, Seq<char>)>) -> Seq<char> {
    ("HTTP/1.1 200 OK\r\n")@ + headers_text(hs) + ("\r\n\r\n")@
}

/// The headers actually emitted for an uncompressed 200 response:
/// `Content-Length` is set last, to the byte length of the body.
pub open spec fn ok_full_headers(
    hs: Seq<(Seq<char>, Seq<char>)>,
    body: Seq<char>,
) -> Seq<(Seq<char>, Seq<char>)> {
    insert_header(hs, ("Content-Length")@, text::dec_chars(vstd::utf8::encode_utf8(body).len()))
}

/// The full serialization of an uncompressed 200 response.
pub open spec fn ok_response_bytes(hs: Seq<(Seq<char>, Seq<char>)>, body: Seq<char>) -> Seq<u8> {
    vstd::utf8::encode_utf8(ok_head_chars(ok_full_headers(hs, body))) + vstd::utf8::encode_utf8(
        body,
    )
}

/// The headers emitted for a gzip-compressed 200 response: `Content-Length`
/// reflects the compressed body.
pub open spec fn ok_compressed_headers(
    hs: Seq<(Seq<char>, Seq<char>)>,
    body: Seq<char>,
) -> Seq<(Seq<char>, Seq<char>)> {
    insert_header(
        hs,
        ("Content-Length")@,
        text::dec_chars(utils::gzip_of(vstd::utf8::encode_utf8(body)).len()),
    )
}

/// The full serialization of a 200 response whose body is sent
/// gzip-compressed.
pub open spec fn ok_compressed_bytes(hs: Seq<(Seq<char>, Seq<char>)>, body: Seq<char>) -> Seq<u8> {
    vstd::utf8::encode_utf8(ok_head_chars(ok_compressed_headers(hs, body))) + utils::gzip_of(
        vstd::utf8::encode_utf8(body),
    )
}

/// A response kind that can serialize itself to the exact bytes put on the
/// wire.
pub trait HttpResponse {
    spec fn spec_response(&self) -> Seq<u8>;

    fn response(&self) -> (r: Vec<u8>)
        ensures
            r@ == self.spec_response(),
    ;
}

/// A 200 response carrying caller-supplied headers and body.
pub struct OKResponse {
    headers: HttpHeaders,
    body: String,
}

impl View for OKResponse {
    type V = OkModel;

    closed spec fn view(&self) -> OkModel {
        OkModel { headers: self.headers@, body: self.body@ }
    }
}

impl OKResponse {
    pub open spec fn wf(&self) -> bool {
        wf_headers(self@.headers)
    }

    /// A 200 response with the given body and `Content-Type: text/plain`.
    pub fn new(body: &str) -> (r: Self)
        ensures
            r@.headers == insert_header(
                Seq::<(Seq<char>, Seq<char>)>::empty(),
                ("Content-Type")@,
                ("text/plain")@,
            ),
            r@.body == body@,
            r.wf(),
    {
        let r = OKResponse {
            headers: HttpHeaders::new().with_content_type("text/plain"),
            body: String::from_str(body),
        };
        r
    }

    /// Replaces the `Content-Type` header.
    pub fn with_content_type(self, content_type: &str) -> (r: Self)
        ensures
            r@.headers == insert_header(self@.headers, ("Content-Type")@, content_type@),
            r@.body == self@.body,
            self.wf() ==> r.wf(),
    {
        OKResponse { headers: self.headers.with_content_type(content_type), body: self.body }
    }

    /// Merges the given headers into the response's own.
    pub fn with_headers(self, headers: HttpHeaders) -> (r: Self)
        ensures
            r@.headers == merge_headers(self@.headers, headers@),
            r@.body == self@.body,
            self.wf() ==> r.wf(),
    {
        OKResponse { headers: self.headers.merge(headers), body: self.body }
    }

    /// Serializes the response with the body gzip-compressed and
    /// `Content-Length` computed over the compressed bytes. The second
    /// clause records that decompressing the sent body yields the original.
    pub fn response_compressed(&self) -> (r: Vec<u8>)
        ensures
            r@ == ok_compressed_bytes(self@.headers, self@.body),
            utils::gunzip_of(utils::gzip_of(vstd::utf8::encode_utf8(self@.body))) == Some(
                vstd::utf8::encode_utf8(self@.body),
            ),
    {
        let compressed = utils::gzip_compress(self.body.as_str().as_bytes());
        let len_str = text::usize_to_string(compressed.len());
        let hs = self.headers.clone().with_content_length(len_str.as_str());
        let mut head = String::from_str("HTTP/1.1 200 OK\r\n");
        head.append(hs.to_string().as_str());
        head.append("\r\n\r\n");
        let mut out = head.as_str().as_bytes_vec();
        let mut tail = compressed;
        out.append(&mut tail);
        proof {
            assert(out@ =~= ok_compressed_bytes(self@.headers, self@.body));
        }
        out
    }
}

impl HttpResponse for OKResponse {
    open spec fn spec_response(&self) -> Seq<u8> {
        ok_response_bytes(self@.headers, self@.body)
    }

    /// Serializes the response; `Content-Length` is the byte length of the
    /// body and is computed last.
    fn response(&self) -> (r: Vec<u8>) {
        let mut tail = self.body.as_str().as_bytes_vec();
        let len_str = text::usize_to_string(tail.len());
        let hs = self.headers.clone().with_content_length(len_str.as_str());
        let mut head = String::from_str("HTTP/1.1 200 OK\r\n");
        head.append(hs.to_string().as_str());
        head.append("\r\n\r\n");
        let mut out = head.as_str().as_bytes_vec();
        out.append(&mut tail);
        proof {
            assert(out@ =~= ok_response_bytes(self@.headers, self@.body));
        }
        out
    }
}

/// The fixed 201 response: no headers, no body.
pub struct OKCreatedResponse;

impl HttpResponse for OKCreatedResponse {
    open spec fn spec_response(&self) -> Seq<u8> {
        vstd::utf8::encode_utf8(("HTTP/1.1 201 Created\r\n\r\n")@)
    }

    fn response(&self) -> (r: Vec<u8>) {
        ("HTTP/1.1 201 Created\r\n\r\n").as_bytes_vec()
    }
}

/// The fixed 404 response: no headers, no body.
pub struct NotFoundResponse;

impl HttpResponse for NotFoundResponse {
    open spec fn spec_response(&self) -> Seq<u8> {
        vstd::utf8::encode_utf8(("HTTP/1.1 404 Not Found\r\n\r\n")@)
    }

    fn response(&self) -> (r: Vec<u8>) {
        ("HTTP/1.1 404 Not Found\r\n\r\n").as_bytes_vec()
    }
}

/// The fixed 403 response: no headers, no body.
pub struct ForbiddenResponse;

impl HttpResponse for ForbiddenResponse {
    open spec fn spec_response(&self) -> Seq<u8> {
        vstd::utf8::encode_utf8(("HTTP/1.1 403 Forbidden\r\n\r\n")@)
    }

    fn response(&self) -> (r: Vec<u8>) {
        ("HTTP/1.1 403 Forbidden\r\n\r\n").as_bytes_vec()
    }
}

/// The fixed 405 response: no headers, no body.
pub struct MethodNotAllowedResponse;

impl HttpResponse for MethodNotAllowedResponse {
    open spec fn spec_response(&self) -> Seq<u8> {
        vstd::utf8::encode_utf8(("HTTP/1.1 405 Method Not Allowed\r\n\r\n")@)
    }

    fn response(&self) -> (r: Vec<u8>) {
        ("HTTP/1.1 405 Method Not Allowed\r\n\r\n").as_bytes_vec()
    }
}

/// The fixed 500 response: no headers, no body.
pub struct InternalServerErrorResponse;

impl HttpResponse for InternalServerErrorResponse {
    open spec fn spec_response(&self) -> Seq<u8> {
        vstd::utf8::encode_utf8(("HTTP/1.1 500 Internal Server Error\r\n\r\n")@)
    }

    fn response(&self) -> (r: Vec<u8>) {
        ("HTTP/1.1 500 Internal Server Error\r\n\r\n").as_bytes_vec()
    }
}

/// The closed set of responses a handler can produce.
pub enum HttpReply {
    OK(OKResponse),
    Created(OKCreatedResponse),
    NotFound(NotFoundResponse),
    Forbidden(ForbiddenResponse),
    MethodNotAllowed(MethodNotAllowedResponse),
    InternalServerError(InternalServerErrorResponse),
}

/// The serialization of a reply, uncompressed.
pub open spec fn reply_bytes(r: HttpReply) -> Seq<u8> {
    match r {
        HttpReply::OK(x) => x.spec_response(),
        HttpReply::Created(x) => x.spec_response(),
        HttpReply::NotFound(x) => x.spec_response(),
        HttpReply::Forbidden(x) => x.spec_response(),
        HttpReply::MethodNotAllowed(x) => x.spec_response(),
        HttpReply::InternalServerError(x) => x.spec_response(),
    }
}

impl HttpReply {
    pub open spec fn wf(&self) -> bool {
        self matches HttpReply::OK(x) ==> x.wf()
    }

    /// Serializes the reply without compression.
    pub fn response(&self) -> (r: Vec<u8>)
        ensures
            r@ == reply_bytes(*self),
    {
        match self {
            HttpReply::OK(x) => x.response(),
            HttpReply::Created(x) => x.response(),
            HttpReply::NotFound(x) => x.response(),
            HttpReply::Forbidden(x) => x.response(),
            HttpReply::MethodNotAllowed(x) => x.response(),
            HttpReply::InternalServerError(x) => x.response(),
        }
    }
}

} // verus!
