//! Routing and handling: dispatches a parsed request line to the fixed set
//! of handlers, negotiates gzip encoding, and serializes the reply.
//!
//! The static-file route needs the filesystem, which this module does not
//! touch: routing yields a [`FileRequest`] describing the wanted access, the
//! caller resolves it against the filesystem and hands the results back to
//! [`plan_file_route`], [`handle_read_file`] and [`handle_write_file`].

use vstd::prelude::*;

use crate::interface::{
    ok_compressed_bytes, ok_response_bytes, insert_header, merge_headers, reply_bytes,
    ForbiddenResponse, HttpHeaders, HttpReply, HttpResponse, InternalServerErrorResponse,
    MethodNotAllowedResponse, NotFoundResponse, OKCreatedResponse, OKResponse,
};
use crate::server::HttpError;
use crate::text;
use crate::utils;

verus! {

/// The first element of `hs` that begins with `p`, if any.
pub open spec fn first_with_prefix(hs: Seq<Seq<char>>, p: Seq<char>) -> Option<Seq<char>>
    decreases hs.len(),
{
    if hs.len() == 0 {
        None
    } else if text::has_prefix(hs[0], p) {
        Some(hs[0])
    } else {
        first_with_prefix(hs.drop_first(), p)
    }
}

/// The index of the first header that begins with `prefix`.
fn find_header_with_prefix(headers: &Vec<String>, prefix: &str) -> (r: Option<usize>)
    ensures
        match r {
            Some(i) => i < headers@.len() && text::has_prefix(headers.deep_view()[i as int], prefix@)
                && first_with_prefix(headers.deep_view(), prefix@) == Some(
                headers.deep_view()[i as int],
            ),
            None => first_with_prefix(headers.deep_view(), prefix@) is None,
        },
{
    let ghost hv = headers.deep_view();
    let n = headers.len();
    let mut i: usize = 0;
    proof {
        assert(hv.skip(0) =~= hv);
    }
    while i < n
        invariant
            i <= n,
            n == hv.len(),
            hv == headers.deep_view(),
            headers@.len() == n,
            first_with_prefix(hv, prefix@) == first_with_prefix(hv.skip(i as int), prefix@),
        decreases n - i,
    {
        proof {
            assert(hv.skip(i as int)[0] == hv[i as int]);
            assert(hv.skip(i as int).drop_first() =~= hv.skip(i as int + 1));
        }
        if text::str_has_prefix(headers[i].as_str(), prefix) {
            return Some(i);
        }
        i = i + 1;
    }
    proof {
        assert(hv.skip(n as int) =~= Seq::<Seq<char>>::empty());
    }
    None
}

/// The comma-separated tokens of an `Accept-Encoding` value, each stripped
/// of surrounding whitespace.
pub open spec fn encoding_tokens(v: Seq<char>) -> Seq<Seq<char>> {
    text::comma_split(v).map_values(|t: Seq<char>| text::trim(t))
}

/// True when one of the tokens is exactly `gzip`.
pub open spec fn value_accepts_gzip(v: Seq<char>) -> bool {
    encoding_tokens(v).contains(("gzip")@)
}

/// True when the first `Accept-Encoding` header, if any, lists `gzip`.
pub open spec fn accepts_gzip(hv: Seq<Seq<char>>) -> bool {
    match first_with_prefix(hv, ("Accept-Encoding: ")@) {
        Some(h) => value_accepts_gzip(h.skip(17)),
        None => false,
    }
}

/// Whether an encoding value lists the token `gzip`.
fn value_lists_gzip(v: &str) -> (r: bool)
    ensures
        r == value_accepts_gzip(v@),
{
    let segs = text::split_commas(v);
    let n = segs.len();
    let mut i: usize = 0;
    while i < n
        invariant
            i <= n,
            n == segs@.len(),
            segs.deep_view() == text::comma_split(v@),
            forall|j: int| 0 <= j < i ==> text::trim(segs.deep_view()[j]) != ("gzip")@,
        decreases n - i,
    {
        if text::trims_to(segs[i].as_str(), "gzip") {
            proof {
                assert(encoding_tokens(v@)[i as int] == ("gzip")@);
            }
            return true;
        }
        i = i + 1;
    }
    proof {
        if encoding_tokens(v@).contains(("gzip")@) {
            let j = choose|j: int| 0 <= j < encoding_tokens(v@).len() && encoding_tokens(v@)[j]
                == ("gzip")@;
            assert(text::trim(segs.deep_view()[j]) == ("gzip")@);
        }
    }
    false
}

/// Whether the request's headers advertise gzip support; only the first
/// `Accept-Encoding` header is consulted.
pub fn gzip_accepted(headers: &Vec<String>) -> (r: bool)
    ensures
        r == accepts_gzip(headers.deep_view()),
{
    match find_header_with_prefix(headers, "Accept-Encoding: ") {
        Some(i) => {
            proof {
                reveal_strlit("Accept-Encoding: ");
            }
            let h = headers[i].as_str();
            let len = h.unicode_len();
            let v = h.substring_char(17, len);
            proof {
                assert(v@ =~= headers.deep_view()[i as int].skip(17));
            }
            value_lists_gzip(v)
        },
        None => false,
    }
}

/// Headers of a plain-text reply.
pub open spec fn text_plain_headers() -> Seq<(Seq<char>, Seq<char>)> {
    insert_header(Seq::<(Seq<char>, Seq<char>)>::empty(), ("Content-Type")@, ("text/plain")@)
}

/// Headers of a static-file reply.
pub open spec fn octet_stream_headers() -> Seq<(Seq<char>, Seq<char>)> {
    insert_header(text_plain_headers(), ("Content-Type")@, ("application/octet-stream")@)
}

/// The single header added when a reply is gzip-encoded.
pub open spec fn gzip_content_header() -> Seq<(Seq<char>, Seq<char>)> {
    insert_header(Seq::<(Seq<char>, Seq<char>)>::empty(), ("Content-Encoding")@, ("gzip")@)
}

/// The serialized 404 reply.
pub open spec fn not_found_bytes() -> Seq<u8> {
    vstd::utf8::encode_utf8(("HTTP/1.1 404 Not Found\r\n\r\n")@)
}

/// What finalizing a reply puts on the wire: a 200 reply for a client that
/// accepts gzip is compressed and marked `Content-Encoding: gzip`; every
/// other combination passes through unchanged.
pub open spec fn finalized_bytes(reply: HttpReply, gz: bool) -> Seq<u8> {
    match reply {
        HttpReply::OK(ok) => if gz {
            ok_compressed_bytes(merge_headers(ok@.headers, gzip_content_header()), ok@.body)
        } else {
            reply_bytes(reply)
        },
        _ => reply_bytes(reply),
    }
}

/// The serialized form of a 200 reply with plain-text headers and the given
/// body, after negotiation.
pub open spec fn plain_body_bytes(body: Seq<char>, gz: bool) -> Seq<u8> {
    if gz {
        ok_compressed_bytes(merge_headers(text_plain_headers(), gzip_content_header()), body)
    } else {
        ok_response_bytes(text_plain_headers(), body)
    }
}

/// Applies content negotiation and serializes. The second clause is the
/// round trip: when a 200 reply is compressed, decompressing the sent body
/// recovers the original body bytes.
pub fn finalize_response(reply: HttpReply, accept_gzip: bool) -> (out: Vec<u8>)
    requires
        reply.wf(),
    ensures
        out@ == finalized_bytes(reply, accept_gzip),
        accept_gzip ==> (reply matches HttpReply::OK(ok) ==> utils::gunzip_of(
            utils::gzip_of(vstd::utf8::encode_utf8(ok@.body)),
        ) == Some(vstd::utf8::encode_utf8(ok@.body))),
{
    match reply {
        HttpReply::OK(ok) => {
            if accept_gzip {
                let wrapped = ok.with_headers(HttpHeaders::new().with_encoding("gzip"));
                wrapped.response_compressed()
            } else {
                ok.response()
            }
        },
        other => other.response(),
    }
}

/// The `/` route: 200 with an empty plain-text body.
pub fn handle_root() -> (r: HttpReply)
    ensures
        r matches HttpReply::OK(ok) && ok@.headers == text_plain_headers() && ok@.body
            == Seq::<char>::empty(),
        r.wf(),
{
    proof {
        reveal_strlit("");
        assert(("")@ =~= Seq::<char>::empty());
    }
    HttpReply::OK(OKResponse::new(""))
}

/// Any unrecognized route: 404.
pub fn handle_default() -> (r: HttpReply)
    ensures
        r matches HttpReply::NotFound(_),
        r.wf(),
{
    HttpReply::NotFound(NotFoundResponse)
}

/// The `/echo/...` route: 200 whose body is exactly the given suffix.
pub fn handle_echo(content: &String) -> (r: HttpReply)
    ensures
        r matches HttpReply::OK(ok) && ok@.headers == text_plain_headers() && ok@.body == content@,
        r.wf(),
{
    HttpReply::OK(OKResponse::new(content.as_str()))
}

/// The `/user-agent` route: 200 echoing the value of the first `User-Agent`
/// header, or 404 when there is none.
pub fn handle_user_agent(headers: &Vec<String>) -> (r: HttpReply)
    ensures
        match first_with_prefix(headers.deep_view(), ("User-Agent: ")@) {
            Some(h) => r matches HttpReply::OK(ok) && ok@.headers == text_plain_headers()
                && ok@.body == h.skip(12),
            None => r matches HttpReply::NotFound(_),
        },
        r.wf(),
{
    match find_header_with_prefix(headers, "User-Agent: ") {
        Some(i) => {
            proof {
                reveal_strlit("User-Agent: ");
            }
            let h = headers[i].as_str();
            let len = h.unicode_len();
            let value = h.substring_char(12, len);
            proof {
                assert(value@ =~= headers.deep_view()[i as int].skip(12));
            }
            HttpReply::OK(OKResponse::new(value))
        },
        None => HttpReply::NotFound(NotFoundResponse),
    }
}

/// The filesystem access a `/files/...` request is allowed to make: none
/// when the path-safety guard rejected it, otherwise the access named by
/// the method. `Denied` must be decided before any filesystem read or
/// write takes place.
#[derive(PartialEq, Eq, Structural, Debug, Clone, Copy)]
pub enum FileAccess {
    Denied,
    ReadFile,
    WriteFile,
    Unsupported,
}

/// The access the file route grants, as a function of method and safety.
pub open spec fn spec_file_access(method: Seq<char>, safe: bool) -> FileAccess {
    if !safe {
        FileAccess::Denied
    } else if text::upper_ascii(method) == ("GET")@ {
        FileAccess::ReadFile
    } else if text::upper_ascii(method) == ("POST")@ {
        FileAccess::WriteFile
    } else {
        FileAccess::Unsupported
    }
}

/// Decides what a `/files/...` request may do. The safety verdict comes
/// first: an unsafe request is denied whatever its method, so no
/// filesystem access follows it.
pub fn plan_file_route(method: &str, safe: bool) -> (a: FileAccess)
    ensures
        a == spec_file_access(method@, safe),
{
    if !safe {
        FileAccess::Denied
    } else if text::upper_eq(method, "GET") {
        FileAccess::ReadFile
    } else if text::upper_eq(method, "POST") {
        FileAccess::WriteFile
    } else {
        FileAccess::Unsupported
    }
}

/// The serialized reply for a granted read, before negotiation: 200 with
/// the file's bytes, or the fixed 404.
pub open spec fn read_file_bytes(content: Option<Seq<char>>) -> Seq<u8> {
    match content {
        Some(t) => ok_response_bytes(octet_stream_headers(), t),
        None => not_found_bytes(),
    }
}

/// Builds the reply for a granted read: 200 carrying the file's contents as
/// `application/octet-stream`, or 404 when the read failed.
pub fn handle_read_file(content: Option<String>) -> (r: HttpReply)
    ensures
        match content {
            Some(t) => r matches HttpReply::OK(ok) && ok@.headers == octet_stream_headers()
                && ok@.body == t@,
            None => r matches HttpReply::NotFound(_),
        },
        reply_bytes(r) == read_file_bytes(content.deep_view()),
        r.wf(),
{
    match content {
        Some(t) => HttpReply::OK(
            OKResponse::new(t.as_str()).with_content_type("application/octet-stream"),
        ),
        None => HttpReply::NotFound(NotFoundResponse),
    }
}

/// Builds the reply for a granted write: 201 when the write succeeded, 500
/// when it failed.
pub fn handle_write_file(written: bool) -> (r: HttpReply)
    ensures
        written ==> r matches HttpReply::Created(_),
        !written ==> r matches HttpReply::InternalServerError(_),
        r.wf(),
{
    if written {
        HttpReply::Created(OKCreatedResponse)
    } else {
        HttpReply::InternalServerError(InternalServerErrorResponse)
    }
}

/// Builds the reply for a denied or unsupported file request.
pub fn handle_file_refusal(access: &FileAccess) -> (r: HttpReply)
    requires
        *access matches FileAccess::Denied || *access matches FileAccess::Unsupported,
    ensures
        *access matches FileAccess::Denied ==> r matches HttpReply::Forbidden(_),
        *access matches FileAccess::Unsupported ==> r matches HttpReply::MethodNotAllowed(_),
        r.wf(),
{
    match access {
        FileAccess::Denied => HttpReply::Forbidden(ForbiddenResponse),
        _ => HttpReply::MethodNotAllowed(MethodNotAllowedResponse),
    }
}

/// A `/files/...` request as routing hands it to the filesystem layer.
pub struct FileRequest {
    pub file_path: String,
    pub method: String,
    pub body: String,
    pub accept_gzip: bool,
}

/// What routing produced: either finished response bytes, or a file request
/// that still needs the filesystem.
pub enum HttpOutcome {
    Response(Vec<u8>),
    FileRequest(FileRequest),
}

/// Routes one request. The request line must split into exactly three
/// whitespace-separated tokens; otherwise the request is rejected as
/// malformed rather than answered. Every non-file route is answered
/// directly; a `/files/...` route is returned as a [`FileRequest`].
pub fn handle_http_request(request_line: &String, headers: &Vec<String>, request_body: &String) -> (r:
    Result<HttpOutcome, HttpError>)
    ensures
        (text::tokens_of(request_line@).len() != 3) <==> (r is Err),
        r matches Err(e) ==> e == HttpError::InvalidRequestLine,
        text::tokens_of(request_line@).len() == 3 ==> ({
            let toks = text::tokens_of(request_line@);
            let path = toks[1];
            let gz = accepts_gzip(headers.deep_view());
            &&& (path == ("/")@ ==> (r matches Ok(HttpOutcome::Response(b)) && b@
                == plain_body_bytes(Seq::<char>::empty(), gz)))
            &&& (text::has_prefix(path, ("/echo/")@) ==> (r matches Ok(HttpOutcome::Response(b))
                && b@ == plain_body_bytes(path.skip(6), gz)))
            &&& (text::has_prefix(path, ("/files/")@) ==> (r matches Ok(
                HttpOutcome::FileRequest(fr),
            ) && fr.file_path@ == path.skip(7) && fr.method@ == toks[0] && fr.body@
                == request_body@ && fr.accept_gzip == gz))
            &&& (path == ("/user-agent")@ ==> (match first_with_prefix(
                headers.deep_view(),
                ("User-Agent: ")@,
            ) {
                Some(h) => r matches Ok(HttpOutcome::Response(b)) && b@ == plain_body_bytes(
                    h.skip(12),
                    gz,
                ),
                None => r matches Ok(HttpOutcome::Response(b)) && b@ == not_found_bytes(),
            }))
            &&& ((path != ("/")@ && !text::has_prefix(path, ("/echo/")@) && !text::has_prefix(
                path,
                ("/files/")@,
            ) && path != ("/user-agent")@) ==> (r matches Ok(HttpOutcome::Response(b)) && b@
                == not_found_bytes()))
        }),
{
    let components = text::split_whitespace(request_line.as_str());
    if components.len() != 3 {
        return Err(HttpError::InvalidRequestLine);
    }
    let accept_gzip = gzip_accepted(headers);
    let route = &components[1];
    let route_str = route.as_str();
    let ghost path = text::tokens_of(request_line@)[1];
    proof {
        assert(path == route_str@);
        reveal_strlit("/");
        reveal_strlit("/echo/");
        reveal_strlit("/files/");
        reveal_strlit("/user-agent");
    }
    if text::str_eq(route_str, "/") {
        let reply = handle_root();
        Ok(HttpOutcome::Response(finalize_response(reply, accept_gzip)))
    } else if text::str_has_prefix(route_str, "/echo/") {
        let len = route_str.unicode_len();
        let content = String::from_str(route_str.substring_char(6, len));
        proof {
            assert(content@ =~= path.skip(6));
            assert(!text::has_prefix(path, ("/files/")@)) by {
                if text::has_prefix(path, ("/files/")@) {
                    assert(path.take(6)[1] == ("/echo/")@[1]);
                    assert(path.take(7)[1] == ("/files/")@[1]);
                }
            }
            assert(path != ("/user-agent")@) by {
                if path == ("/user-agent")@ {
                    assert(path.take(6)[1] == ("/echo/")@[1]);
                }
            }
        }
        let reply = handle_echo(&content);
        Ok(HttpOutcome::Response(finalize_response(reply, accept_gzip)))
    } else if text::str_has_prefix(route_str, "/files/") {
        let len = route_str.unicode_len();
        let file_path = String::from_str(route_str.substring_char(7, len));
        let method = components[0].clone();
        proof {
            assert(file_path@ =~= path.skip(7));
            assert(method@ == text::tokens_of(request_line@)[0]);
            assert(path != ("/user-agent")@) by {
                if path == ("/user-agent")@ {
                    assert(path.take(7)[1] == ("/files/")@[1]);
                }
            }
        }
        Ok(
            HttpOutcome::FileRequest(
                FileRequest { file_path, method, body: request_body.clone(), accept_gzip },
            ),
        )
    } else if text::str_eq(route_str, "/user-agent") {
        proof {
            assert(!text::has_prefix(path, ("/echo/")@)) by {
                if text::has_prefix(path, ("/echo/")@) {
                    assert(path.take(6)[1] == ("/echo/")@[1]);
                }
            }
            assert(!text::has_prefix(path, ("/files/")@)) by {
                if text::has_prefix(path, ("/files/")@) {
                    assert(path.take(7)[1] == ("/files/")@[1]);
                }
            }
        }
        let reply = handle_user_agent(headers);
        Ok(HttpOutcome::Response(finalize_response(reply, accept_gzip)))
    } else {
        let reply = handle_default();
        Ok(HttpOutcome::Response(finalize_response(reply, accept_gzip)))
    }
}

/// Two `Accept-Encoding` values whose trimmed token sets are equal are
/// accepted alike: acceptance is membership of `gzip` in the token set, so
/// the order and multiplicity of the listed encodings are irrelevant.
pub proof fn lemma_encoding_order_irrelevant(v1: Seq<char>, v2: Seq<char>)
    requires
        encoding_tokens(v1).to_set() == encoding_tokens(v2).to_set(),
    ensures
        value_accepts_gzip(v1) == value_accepts_gzip(v2),
{
    broadcast use vstd::set::group_set_axioms;

    assert(encoding_tokens(v1).contains(("gzip")@) == encoding_tokens(v1).to_set().contains(
        ("gzip")@,
    ));
    assert(encoding_tokens(v2).contains(("gzip")@) == encoding_tokens(v2).to_set().contains(
        ("gzip")@,
    ));
}

/// A request whose canonical form does not lie within the served directory
/// is unsafe, and an unsafe request is denied whatever its method; only the
/// `ReadFile` and `WriteFile` verdicts ever reach the filesystem.
pub proof fn lemma_unsafe_path_denied(
    c: Option<Seq<char>>,
    b: Option<Seq<char>>,
    method: Seq<char>,
)
    requires
        !utils::safe_path(c, b),
    ensures
        spec_file_access(method, utils::safe_path(c, b)) == FileAccess::Denied,
{
}

/// Writing `body` at `name` and then reading `name` back yields exactly
/// `body`: after a successful `POST /files/<name>` the store maps `name` to
/// the posted body, so the following `GET /files/<name>` is answered 200
/// carrying that body.
pub proof fn lemma_post_then_get(store: Map<Seq<char>, Seq<char>>, name: Seq<char>, body: Seq<char>)
    ensures
        store.insert(name, body)[name] == body,
        read_file_bytes(Some(store.insert(name, body)[name])) == ok_response_bytes(
            octet_stream_headers(),
            body,
        ),
{
}

} // verus!
