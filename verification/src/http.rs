//! The parts of HTTP that the ACP channel speaks.
use vstd::prelude::*;
use vstd::utf8::{decode_utf8, encode_utf8, encode_utf8_decode_utf8, valid_utf8};

use crate::cut::{byte_len, byte_length, truncate_utf8, truncated};
use crate::inbound::utf8_text;
use crate::number::{decimal, decimal_text, parse_number, parse_usize};
use crate::split::{lines, lines_of};
use crate::text::{
    chars_of, contains, find_chars, first_at, first_word, law_texts_hold_their_parts,
    lemma_first_at, lower, occurs_at, put, same_ignoring_case, split_word, starts_with, text,
    text_between, trim, trim_text, upper_text, uppered,
};

verus! {

// ---------------------------------------------------------------------------
// Responses
// ---------------------------------------------------------------------------
/// The header that lets every page read a response, or nothing.
pub open spec fn cors_header(open_cors: bool) -> Seq<char> {
    if open_cors {
        "Access-Control-Allow-Origin: *\r\n"@
    } else {
        ""@
    }
}

/// The header that lets every page read a response, or nothing.
pub fn cors_line(open_cors: bool) -> (r: &'static str)
    ensures
        r@ == cors_header(open_cors),
{
    if open_cors {
        "Access-Control-Allow-Origin: *\r\n"
    } else {
        ""
    }
}

/// The answer to a preflight request.
pub fn build_cors_preflight(open_cors: bool) -> (r: String)
    ensures
        r@ == "HTTP/1.1 204 No Content\r\n"@ + cors_header(open_cors)
            + "Access-Control-Allow-Methods: POST, OPTIONS\r\nAccess-Control-Allow-Headers: Content-Type, Authorization\r\nContent-Length: 0\r\n\r\n"@,
{
    let mut s = text("HTTP/1.1 204 No Content\r\n");
    put(&mut s, cors_line(open_cors));
    put(
        &mut s,
        "Access-Control-Allow-Methods: POST, OPTIONS\r\nAccess-Control-Allow-Headers: Content-Type, Authorization\r\nContent-Length: 0\r\n\r\n",
    );
    s
}

/// The answer to a notification: it has no body.
pub open spec fn notification_response(open_cors: bool) -> Seq<char> {
    "HTTP/1.1 204 No Content\r\n"@ + cors_header(open_cors) + "Content-Length: 0\r\n\r\n"@
}

/// The answer to a notification: it has no body.
pub fn build_204_notification(open_cors: bool) -> (r: String)
    ensures
        r@ == notification_response(open_cors),
{
    let mut s = text("HTTP/1.1 204 No Content\r\n");
    put(&mut s, cors_line(open_cors));
    put(&mut s, "Content-Length: 0\r\n\r\n");
    s
}

/// A response with a JSON body, after which the connection closes. The length
/// that it declares is that of the body in bytes.
pub open spec fn json_response(status_line: Seq<char>, body: Seq<char>, open_cors: bool) -> Seq<
    char,
> {
    "HTTP/1.1 "@ + status_line + "\r\nContent-Type: application/json\r\n"@ + cors_header(open_cors)
        + "Content-Length: "@ + decimal(byte_len(body)) + "\r\nConnection: close\r\n\r\n"@ + body
}

/// A response with a JSON body, after which the connection closes.
pub fn build_http_error(status_line: &str, body: &str, open_cors: bool) -> (r: String)
    ensures
        r@ == json_response(status_line@, body@, open_cors),
{
    let mut s = text("HTTP/1.1 ");
    put(&mut s, status_line);
    put(&mut s, "\r\nContent-Type: application/json\r\n");
    put(&mut s, cors_line(open_cors));
    put(&mut s, "Content-Length: ");
    put(&mut s, decimal_text(byte_length(body) as u64).as_str());
    put(&mut s, "\r\nConnection: close\r\n\r\n");
    put(&mut s, body);
    s
}

/// One event of an event stream.
pub open spec fn sse(data: Seq<char>) -> Seq<char> {
    "data: "@ + data + "\n\n"@
}

/// One event of an event stream.
pub fn sse_text(data: &str) -> (r: String)
    ensures
        r@ == sse(data@),
{
    let mut s = text("data: ");
    put(&mut s, data);
    put(&mut s, "\n\n");
    s
}

/// The head of an event stream.
pub open spec fn stream_head(open_cors: bool) -> Seq<char> {
    "HTTP/1.1 200 OK\r\nContent-Type: text/event-stream\r\nCache-Control: no-cache\r\nConnection: keep-alive\r\n"@
        + cors_header(open_cors) + "X-Accel-Buffering: no\r\n\r\n"@
}

/// The head of an event stream.
pub fn stream_head_text(open_cors: bool) -> (r: String)
    ensures
        r@ == stream_head(open_cors),
{
    let mut s = text(
        "HTTP/1.1 200 OK\r\nContent-Type: text/event-stream\r\nCache-Control: no-cache\r\nConnection: keep-alive\r\n",
    );
    put(&mut s, cors_line(open_cors));
    put(&mut s, "X-Accel-Buffering: no\r\n\r\n");
    s
}

// ---------------------------------------------------------------------------
// Requests
// ---------------------------------------------------------------------------
/// Whether the blank line after the headers stands at position `i`.
pub open spec fn header_end_at(data: Seq<u8>, i: int) -> bool {
    &&& 0 <= i && i + 4 <= data.len()
    &&& data[i] == 13 && data[i + 1] == 10 && data[i + 2] == 13 && data[i + 3] == 10
}

/// Where the headers of a request end, searched from `from` on.
pub open spec fn header_end(data: Seq<u8>, from: int) -> Option<int>
    decreases data.len() - from,
{
    if from < 0 || from >= data.len() {
        None
    } else if header_end_at(data, from) {
        Some(from)
    } else {
        header_end(data, from + 1)
    }
}

/// `header_end` gives the first position of a blank line, or none if there is none.
pub proof fn lemma_header_end(data: Seq<u8>, from: int)
    requires
        0 <= from,
    ensures
        match header_end(data, from) {
            Some(i) => from <= i && header_end_at(data, i) && forall|j: int|
                from <= j < i ==> !#[trigger] header_end_at(data, j),
            None => forall|j: int| from <= j ==> !#[trigger] header_end_at(data, j),
        },
    decreases data.len() - from,
{
    if from < data.len() && !header_end_at(data, from) {
        lemma_header_end(data, from + 1);
    }
}

/// Where the headers of a request end, if they do.
pub fn find_header_end(data: &[u8]) -> (r: Option<usize>)
    ensures
        match r {
            Some(i) => header_end(data@, 0) == Some(i as int) && i + 4 <= data.len(),
            None => header_end(data@, 0) is None,
        },
{
    let n: usize = data.len();
    let mut i: usize = 0;
    while i < n && n - i >= 4
        invariant
            i <= n == data@.len(),
            header_end(data@, 0) == header_end(data@, i as int),
        decreases n - i,
    {
        if data[i] == 13 && data[i + 1] == 10 && data[i + 2] == 13 && data[i + 3] == 10 {
            return Some(i);
        }
        i = i + 1;
    }
    proof {
        lemma_header_end(data@, i as int);
    }
    None
}

/// A request as it was read.
#[derive(Debug)]
pub struct ParsedRequest {
    pub method: String,
    pub path: String,
    pub headers: Vec<(String, String)>,
    pub body: String,
}

/// The model of a [`ParsedRequest`].
#[verifier::ext_equal]
pub struct HttpV {
    pub method: Seq<char>,
    pub path: Seq<char>,
    pub headers: Seq<(Seq<char>, Seq<char>)>,
    pub body: Seq<char>,
}

impl DeepView for ParsedRequest {
    type V = HttpV;

    open spec fn deep_view(&self) -> HttpV {
        HttpV {
            method: self.method@,
            path: self.path@,
            headers: self.headers.deep_view(),
            body: self.body@,
        }
    }
}

/// The headers in lines: a name, a colon, a value; a line without a colon is none.
pub open spec fn headers_in(all: Seq<Seq<char>>) -> Seq<(Seq<char>, Seq<char>)>
    decreases all.len(),
{
    if all.len() == 0 {
        seq![]
    } else {
        let rest = headers_in(all.drop_last());
        match first_at(all.last(), seq![':'], 0) {
            Some(i) => rest.push((trim(all.last().take(i)), trim(all.last().skip(i + 1)))),
            None => rest,
        }
    }
}

/// The position of the first header with the given name, in any case, from `from` on.
pub open spec fn header_at(
    headers: Seq<(Seq<char>, Seq<char>)>,
    name: Seq<char>,
    from: int,
) -> Option<int>
    decreases headers.len() - from,
{
    if from < 0 || from >= headers.len() {
        None
    } else if lower(headers[from].0) == lower(name) {
        Some(from)
    } else {
        header_at(headers, name, from + 1)
    }
}

/// The length that the headers declare, zero where they declare none.
pub open spec fn declared_length(headers: Seq<(Seq<char>, Seq<char>)>) -> nat {
    match header_at(headers, "content-length"@, 0) {
        Some(i) => match parse_number(trim(headers[i].1), usize::MAX as nat) {
            Some(n) => n,
            None => 0,
        },
        None => 0,
    }
}

/// The length that the headers declare, zero where they declare none.
pub fn content_length(headers: &Vec<(String, String)>) -> (r: usize)
    ensures
        r == declared_length(headers.deep_view()),
{
    let ghost all = headers.deep_view();
    let mut i: usize = 0;
    while i < headers.len()
        invariant
            i <= headers@.len(),
            all == headers.deep_view(),
            header_at(all, "content-length"@, 0) == header_at(all, "content-length"@, i as int),
        decreases headers@.len() - i,
    {
        proof {
            assert(all[i as int] == (headers@[i as int].0@, headers@[i as int].1@));
        }
        if same_ignoring_case(headers[i].0.as_str(), "content-length") {
            let value = trim_text(headers[i].1.as_str());
            return match parse_usize(value.as_str()) {
                Some(n) => n,
                None => 0,
            };
        }
        i = i + 1;
    }
    0
}

/// The head of a request: method, path and headers.
pub open spec fn request_head(head: Seq<char>) -> Option<(
    Seq<char>,
    Seq<char>,
    Seq<(Seq<char>, Seq<char>)>,
)> {
    let all = lines(head);
    if all.len() == 0 {
        None
    } else {
        match first_word(all[0]) {
            Some((method, rest)) => match first_word(rest) {
                Some((path, _)) => Some(
                    (uppered(method), path, headers_in(all.drop_first())),
                ),
                None => None,
            },
            None => None,
        }
    }
}

/// The head and the rest of a request's text, around the first blank line.
pub open spec fn request_parts(raw: Seq<u8>) -> Option<(Seq<char>, Seq<char>)> {
    if valid_utf8(raw) {
        let s = decode_utf8(raw);
        match first_at(s, "\r\n\r\n"@, 0) {
            Some(i) => Some((s.take(i), s.skip(i + 4))),
            None => None,
        }
    } else {
        None
    }
}

/// A request as it was read. The body has the declared length, or what there is
/// where less came; what follows it does not belong to it.
pub open spec fn parsed(raw: Seq<u8>) -> Option<HttpV> {
    match request_parts(raw) {
        Some((head, rest)) => match request_head(head) {
            Some((method, path, headers)) => Some(
                HttpV {
                    method,
                    path,
                    headers,
                    body: truncated(rest, declared_length(headers)),
                },
            ),
            None => None,
        },
        None => None,
    }
}

/// Whether the declared length ends between two characters of the body, or
/// reaches beyond what came, and is one that a machine can count to.
pub open spec fn body_is_whole(raw: Seq<u8>) -> bool {
    match request_parts(raw) {
        Some((head, rest)) => match request_head(head) {
            Some((_, _, headers)) => {
                let n = declared_length(headers);
                &&& byte_len(head) + 4 + n <= usize::MAX
                &&& byte_len(rest) <= n || byte_len(truncated(rest, n)) == n
            },
            None => true,
        },
        None => true,
    }
}

/// The headers in the lines after the first.
fn collect_headers(all: &Vec<String>) -> (r: Vec<(String, String)>)
    requires
        all@.len() > 0,
    ensures
        r.deep_view() == headers_in(all.deep_view().drop_first()),
{
    let ghost tail = all.deep_view().drop_first();
    let mut colon: Vec<char> = Vec::new();
    colon.push(':');
    let mut out: Vec<(String, String)> = Vec::new();
    let mut i: usize = 1;
    proof {
        assert(colon@ =~= seq![':']);
        assert(tail.take(0) =~= Seq::<Seq<char>>::empty());
        assert(out.deep_view() =~= Seq::<(Seq<char>, Seq<char>)>::empty());
    }
    while i < all.len()
        invariant
            1 <= i <= all@.len(),
            colon@ == seq![':'],
            tail == all.deep_view().drop_first(),
            out.deep_view() == headers_in(tail.take(i - 1)),
        decreases all@.len() - i,
    {
        let ghost before = out.deep_view();
        proof {
            assert(tail.take(i as int).drop_last() =~= tail.take(i - 1));
            assert(tail.take(i as int).last() == all@[i as int]@);
        }
        let v = chars_of(all[i].as_str());
        if let Some(c) = find_chars(&v, &colon, 0) {
            let name = text_between(&v, 0, c);
            let value = text_between(&v, c + 1, v.len());
            proof {
                assert(name@ =~= v@.take(c as int));
                assert(value@ =~= v@.skip(c + 1));
            }
            out.push((trim_text(name.as_str()), trim_text(value.as_str())));
            proof {
                assert(out.deep_view() =~= before.push((trim(name@), trim(value@))));
            }
        }
        i = i + 1;
    }
    proof {
        assert(tail.take(tail.len() as int) =~= tail);
    }
    out
}

/// The head and the rest of a request's text.
fn split_request(raw: &[u8]) -> (r: Option<(String, String)>)
    ensures
        match r {
            Some((head, rest)) => request_parts(raw@) == Some((head@, rest@)) && byte_len(head@)
                + 4 <= usize::MAX,
            None => request_parts(raw@) is None,
        },
{
    match utf8_text(raw) {
        None => None,
        Some(s) => {
            let v = chars_of(s.as_str());
            let blank = chars_of("\r\n\r\n");
            proof {
                reveal_strlit("\r\n\r\n");
            }
            match find_chars(&v, &blank, 0) {
                Some(i) => {
                    let head = text_between(&v, 0, i);
                    let rest = text_between(&v, i + 4, v.len());
                    proof {
                        assert(head@ =~= v@.take(i as int));
                        assert(rest@ =~= v@.skip(i + 4));
                        lemma_head_is_shorter(v@, i as int);
                    }
                    let _ = byte_length(s.as_str());
                    Some((head, rest))
                },
                None => None,
            }
        },
    }
}

/// A text up to a position, and four more characters, are no longer than the text.
proof fn lemma_head_is_shorter(s: Seq<char>, i: int)
    requires
        0 <= i,
        i + 4 <= s.len(),
    ensures
        byte_len(s.take(i)) + 4 <= byte_len(s),
{
    let t = s.skip(i);
    assert(s =~= s.take(i) + t);
    crate::cut::lemma_byte_len_concat(s.take(i), t);
    crate::cut::lemma_char_width(t);
    crate::cut::lemma_char_width(t.drop_first());
    crate::cut::lemma_char_width(t.drop_first().drop_first());
    crate::cut::lemma_char_width(t.drop_first().drop_first().drop_first());
}

/// Method, path and headers of a request.
fn parse_head(head: &str) -> (r: Option<(String, String, Vec<(String, String)>)>)
    ensures
        match r {
            Some((method, path, headers)) => request_head(head@) == Some(
                (method@, path@, headers.deep_view()),
            ),
            None => request_head(head@) is None,
        },
{
    let all = lines_of(head);
    let ghost seen = all.deep_view();
    if all.len() == 0 {
        return None;
    }
    proof {
        assert(seen[0] == all@[0]@);
    }
    match split_word(all[0].as_str()) {
        Some((method, rest)) => match split_word(rest.as_str()) {
            Some((path, _)) => Some(
                (upper_text(method.as_str()), path, collect_headers(&all)),
            ),
            None => None,
        },
        None => None,
    }
}

/// Whether the declared length of a request's body ends between two characters.
pub fn has_whole_body(raw: &[u8]) -> (r: bool)
    ensures
        r == body_is_whole(raw@),
{
    match split_request(raw) {
        Some((head, rest)) => match parse_head(head.as_str()) {
            Some((_, _, headers)) => {
                let n: usize = content_length(&headers);
                let used: usize = byte_length(head.as_str()) + 4;
                if n > usize::MAX - used {
                    return false;
                }
                let cut = truncate_utf8(rest.as_str(), n);
                byte_length(rest.as_str()) <= n || byte_length(cut.as_str()) == n
            },
            None => true,
        },
        None => true,
    }
}

/// Reads a request; none where the bytes are not text, have no blank line after
/// the headers, or have no request line with a method and a path.
pub fn parse_request(raw: &[u8]) -> (r: Option<ParsedRequest>)
    requires
        body_is_whole(raw@),
    ensures
        match r {
            Some(req) => parsed(raw@) == Some(req.deep_view()),
            None => parsed(raw@) is None,
        },
{
    match split_request(raw) {
        Some((head, rest)) => match parse_head(head.as_str()) {
            Some((method, path, headers)) => {
                let n: usize = content_length(&headers);
                let body = truncate_utf8(rest.as_str(), n);
                Some(ParsedRequest { method, path, headers, body })
            },
            None => None,
        },
        None => None,
    }
}

// ---------------------------------------------------------------------------
// Authorization
// ---------------------------------------------------------------------------
/// Compares two texts without stopping at the first difference, and without
/// stopping at a difference in length.
pub fn constant_time_eq(a: &str, b: &str) -> (r: bool)
    ensures
        r == (a@ == b@),
{
    let x = a.as_bytes();
    let y = b.as_bytes();
    proof {
        encode_utf8_decode_utf8(a@);
        encode_utf8_decode_utf8(b@);
    }
    let n: usize = x.len();
    let m: usize = y.len();
    let longest: usize = if n > m {
        n
    } else {
        m
    };
    let mut diff: u8 = if n == m {
        0
    } else {
        1
    };
    let mut i: usize = 0;
    while i < longest
        invariant
            i <= longest,
            n == x@.len(),
            m == y@.len(),
            longest == (if n > m {
                n
            } else {
                m
            }),
            diff == 0 <==> n == m && forall|j: int| 0 <= j < i ==> x@[j] == y@[j],
        decreases longest - i,
    {
        let p: u8 = if i < n {
            x[i]
        } else {
            0
        };
        let q: u8 = if i < m {
            y[i]
        } else {
            0
        };
        let next: u8 = diff | (p ^ q);
        proof {
            assert(next == 0 <==> diff == 0 && p == q) by (bit_vector)
                requires
                    next == diff | (p ^ q),
            ;
        }
        diff = next;
        i = i + 1;
    }
    proof {
        if diff == 0 {
            assert(x@ =~= y@);
        }
    }
    diff == 0
}

/// Whether a header carries the token.
pub open spec fn carries_token(header: (Seq<char>, Seq<char>), token: Seq<char>) -> bool {
    lower(header.0) == lower("authorization"@) && trim(header.1) == "Bearer "@ + token
}

/// Whether a request may pass: no token is required, or one of its headers
/// carries it.
pub open spec fn authorized(
    headers: Seq<(Seq<char>, Seq<char>)>,
    token: Option<Seq<char>>,
) -> bool {
    match token {
        None => true,
        Some(t) => exists|i: int|
            0 <= i < headers.len() && carries_token(#[trigger] headers[i], t),
    }
}

/// Whether a request may pass.
pub fn validate_auth(headers: &Vec<(String, String)>, token: &Option<String>) -> (r: bool)
    ensures
        r == authorized(headers.deep_view(), token.deep_view()),
{
    let required = match token {
        Some(t) => t,
        None => {
            return true;
        },
    };
    let mut expected = text("Bearer ");
    put(&mut expected, required.as_str());
    let ghost all = headers.deep_view();
    let mut i: usize = 0;
    while i < headers.len()
        invariant
            i <= headers@.len(),
            all == headers.deep_view(),
            token.deep_view() == Some(required@),
            expected@ == "Bearer "@ + required@,
            forall|j: int| 0 <= j < i ==> !carries_token(#[trigger] all[j], required@),
        decreases headers@.len() - i,
    {
        proof {
            assert(all[i as int] == (headers@[i as int].0@, headers@[i as int].1@));
        }
        if same_ignoring_case(headers[i].0.as_str(), "authorization") {
            let value = trim_text(headers[i].1.as_str());
            if constant_time_eq(value.as_str(), expected.as_str()) {
                return true;
            }
        }
        i = i + 1;
    }
    false
}

// ---------------------------------------------------------------------------
// Laws
// ---------------------------------------------------------------------------
/// A response begins with its status line, ends with a blank line and its body, and
/// declares the length of that body in bytes; every page may read it exactly where that
/// is allowed.
pub proof fn law_responses_carry_their_body(status: Seq<char>, body: Seq<char>, open_cors: bool)
    ensures
        ({
            let r = json_response(status, body, open_cors);
            &&& starts_with(r, "HTTP/1.1 "@ + status + "\r\n"@)
            &&& r.skip(r.len() - body.len()) == body
            &&& r.take(r.len() - body.len()).len() >= 4
            &&& contains(
                r,
                "Content-Length: "@ + decimal(encode_utf8(body).len()) + "\r\n"@,
            )
            &&& open_cors ==> contains(r, "Access-Control-Allow-Origin: *\r\n"@)
        }),
        cors_header(false).len() == 0,
        cors_header(true) == "Access-Control-Allow-Origin: *\r\n"@,
{
    let r = json_response(status, body, open_cors);
    let a = "HTTP/1.1 "@ + status;
    let b = "\r\nContent-Type: application/json\r\n"@;
    let c = cors_header(open_cors);
    let d = "Content-Length: "@ + decimal(byte_len(body));
    let e = "\r\nConnection: close\r\n\r\n"@;
    assert(r =~= a + b + c + d + e + body);
    reveal_strlit("");
    reveal_strlit("\r\n");
    reveal_strlit("\r\nContent-Type: application/json\r\n");
    reveal_strlit("Content-Type: application/json\r\n");
    reveal_strlit("\r\nConnection: close\r\n\r\n");
    reveal_strlit("Connection: close\r\n\r\n");
    assert(b =~= "\r\n"@ + "Content-Type: application/json\r\n"@);
    assert(e =~= "\r\n"@ + "Connection: close\r\n\r\n"@);
    let first = a + "\r\n"@;
    let rest = "Content-Type: application/json\r\n"@ + c + d + e + body;
    assert(r =~= first + rest);
    law_texts_hold_their_parts(seq![], first, rest, first);
    assert(r.skip(r.len() - body.len()) =~= body);
    let length = d + "\r\n"@;
    assert(r =~= (a + b + c) + length + ("Connection: close\r\n\r\n"@ + body));
    law_texts_hold_their_parts(a + b + c, length, "Connection: close\r\n\r\n"@ + body, length);
    assert(r =~= (a + b) + c + (d + e + body));
    law_texts_hold_their_parts(a + b, c, d + e + body, c);
}

/// The blank line after the headers is the first place where a carriage return and a
/// line feed stand twice in a row.
pub proof fn law_headers_end_at_the_blank_line(data: Seq<u8>, i: int)
    requires
        0 <= i && i + 4 <= data.len(),
        data.subrange(i, i + 4) == seq![13u8, 10u8, 13u8, 10u8],
        forall|j: int|
            0 <= j < i ==> #[trigger] data.subrange(j, j + 4) != seq![13u8, 10u8, 13u8, 10u8],
    ensures
        header_end(data, 0) == Some(i),
{
    let mark = seq![13u8, 10u8, 13u8, 10u8];
    lemma_header_end(data, 0);
    let found = data.subrange(i, i + 4);
    assert(found[0] == 13 && found[1] == 10 && found[2] == 13 && found[3] == 10);
    assert(header_end_at(data, i));
    let k = header_end(data, 0).unwrap();
    if k < i {
        assert(data.subrange(k, k + 4) =~= mark);
    }
}

/// Headers are read line by line, in order: the name before the first colon, the value
/// behind it, both without white space around them. A line without a colon is none.
pub proof fn law_headers_are_read(
    before: Seq<Seq<char>>,
    name: Seq<char>,
    value: Seq<char>,
    other: Seq<char>,
)
    requires
        forall|k: int| 0 <= k < name.len() ==> #[trigger] name[k] != ':',
        forall|k: int| 0 <= k < other.len() ==> #[trigger] other[k] != ':',
    ensures
        headers_in(seq![]).len() == 0,
        headers_in(before.push(name.push(':') + value)) == headers_in(before).push(
            (trim(name), trim(value)),
        ),
        headers_in(before.push(other)) == headers_in(before),
{
    let p = seq![':'];
    let line = name.push(':') + value;
    let n = name.len() as int;
    assert(before.push(line).drop_last() =~= before);
    assert(before.push(other).drop_last() =~= before);
    lemma_first_at(line, p, 0);
    assert(line[n] == ':');
    assert(line.subrange(n, n + 1) =~= p);
    assert(occurs_at(line, p, n));
    let i = first_at(line, p, 0).unwrap();
    if i < n {
        assert(line.subrange(i, i + 1)[0] == ':');
        assert(line[i] == name[i]);
    }
    assert(line.take(n) =~= name);
    assert(line.skip(n + 1) =~= value);
    lemma_first_at(other, p, 0);
    if let Some(k) = first_at(other, p, 0) {
        assert(other.subrange(k, k + 1)[0] == ':');
        assert(other[k] == ':');
    }
}

proof fn lemma_header_at(headers: Seq<(Seq<char>, Seq<char>)>, name: Seq<char>, from: int)
    requires
        0 <= from <= headers.len(),
    ensures
        match header_at(headers, name, from) {
            Some(i) => from <= i < headers.len() && lower(headers[i].0) == lower(name)
                && forall|k: int|
                from <= k < i ==> lower((#[trigger] headers[k]).0) != lower(name),
            None => forall|k: int|
                from <= k < headers.len() ==> lower((#[trigger] headers[k]).0) != lower(name),
        },
    decreases headers.len() - from,
{
    if from < headers.len() && lower(headers[from].0) != lower(name) {
        lemma_header_at(headers, name, from + 1);
    }
}

/// The length of a body is what the first `Content-Length` says, in whatever case it is
/// written; where there is none, or it holds no number, the body is empty.
pub proof fn law_declared_lengths(headers: Seq<(Seq<char>, Seq<char>)>, i: int)
    requires
        0 <= i < headers.len(),
        forall|k: int|
            0 <= k < i ==> lower((#[trigger] headers[k]).0) != lower("content-length"@),
    ensures
        lower(headers[i].0) == lower("content-length"@) ==> declared_length(headers) == (
        match parse_number(trim(headers[i].1), usize::MAX as nat) {
            Some(n) => n,
            None => 0,
        }),
        (forall|k: int|
            0 <= k < headers.len() ==> lower((#[trigger] headers[k]).0) != lower(
                "content-length"@,
            )) ==> declared_length(headers) == 0,
{
    lemma_header_at(headers, "content-length"@, 0);
}

/// A request is read from its text: the first line gives the method, in capitals, and
/// the path, the lines up to the blank line give the headers, and what follows is the
/// body, cut to the length that the headers declare.
pub proof fn law_requests_are_read(
    head: Seq<char>,
    rest: Seq<char>,
    first: Seq<char>,
    more: Seq<Seq<char>>,
    method: Seq<char>,
    path: Seq<char>,
    after_method: Seq<char>,
    after_path: Seq<char>,
)
    requires
        forall|j: int|
            0 <= j < head.len() ==> #[trigger] (head + "\r\n\r\n"@ + rest).subrange(j, j + 4)
                != "\r\n\r\n"@,
        lines(head) == seq![first] + more,
        first_word(first) == Some((method, after_method)),
        first_word(after_method) == Some((path, after_path)),
    ensures
        parsed(encode_utf8(head + "\r\n\r\n"@ + rest)) matches Some(req) && {
            &&& req.method == uppered(method)
            &&& req.path == path
            &&& req.headers == headers_in(more)
            &&& req.body == truncated(rest, declared_length(headers_in(more)))
        },
{
    let s = head + "\r\n\r\n"@ + rest;
    let raw = encode_utf8(s);
    vstd::utf8::encode_utf8_valid_utf8(s);
    vstd::utf8::encode_utf8_decode_utf8(s);
    reveal_strlit("\r\n\r\n");
    let p = "\r\n\r\n"@;
    let n = head.len() as int;
    assert(p.len() == 4);
    assert(s.subrange(n, n + 4) =~= p);
    assert(occurs_at(s, p, n));
    lemma_first_at(s, p, 0);
    let i = first_at(s, p, 0).unwrap();
    if i < n {
        assert(s.subrange(i, i + 4) == p);
    }
    assert(s.take(n) =~= head);
    assert(s.skip(n + 4) =~= rest);
    assert(lines(head)[0] == first);
    assert(lines(head).drop_first() =~= more);
}

/// Bytes that are not text, and text without a blank line, are no request.
pub proof fn law_other_bytes_are_no_request(raw: Seq<u8>, s: Seq<char>)
    ensures
        !valid_utf8(raw) ==> parsed(raw) is None,
        (forall|j: int|
            0 <= j && j + 4 <= s.len() ==> #[trigger] s.subrange(j, j + 4) != "\r\n\r\n"@)
            ==> parsed(encode_utf8(s)) is None,
{
    vstd::utf8::encode_utf8_valid_utf8(s);
    vstd::utf8::encode_utf8_decode_utf8(s);
    reveal_strlit("\r\n\r\n");
    lemma_first_at(s, "\r\n\r\n"@, 0);
    if let Some(i) = first_at(s, "\r\n\r\n"@, 0) {
        assert(s.subrange(i, i + 4) == "\r\n\r\n"@);
    }
}

/// Where a token is required, a request passes exactly where one of its headers is an
/// `Authorization`, in whatever case it is written, with that token behind `Bearer`;
/// where none is required every request passes.
pub proof fn law_only_the_token_lets_requests_pass(
    headers: Seq<(Seq<char>, Seq<char>)>,
    token: Seq<char>,
)
    ensures
        authorized(headers, None),
        authorized(headers, Some(token)) <==> exists|i: int|
            0 <= i < headers.len() && lower((#[trigger] headers[i]).0) == lower("authorization"@)
                && trim(headers[i].1) == "Bearer "@ + token,
        headers.len() == 0 ==> !authorized(headers, Some(token)),
{
    if authorized(headers, Some(token)) {
        let i = choose|i: int|
            0 <= i < headers.len() && carries_token(#[trigger] headers[i], token);
        assert(lower(headers[i].0) == lower("authorization"@));
    }
    if exists|i: int|
        0 <= i < headers.len() && lower((#[trigger] headers[i]).0) == lower("authorization"@)
            && trim(headers[i].1) == "Bearer "@ + token {
        let i = choose|i: int|
            0 <= i < headers.len() && lower((#[trigger] headers[i]).0) == lower("authorization"@)
                && trim(headers[i].1) == "Bearer "@ + token;
        assert(carries_token(headers[i], token));
    }
}

/// An event of a stream is one line of data and a blank line.
pub proof fn law_events_of_streams(data: Seq<char>, open_cors: bool)
    ensures
        sse(data) == "data: "@ + data + "\n\n"@,
        starts_with(
            stream_head(open_cors),
            "HTTP/1.1 200 OK\r\nContent-Type: text/event-stream\r\n"@,
        ),
        open_cors ==> contains(stream_head(open_cors), "Access-Control-Allow-Origin: *\r\n"@),
        starts_with(notification_response(open_cors), "HTTP/1.1 204 No Content\r\n"@),
        contains(notification_response(open_cors), "Content-Length: 0\r\n\r\n"@),
{
    reveal_strlit(
        "HTTP/1.1 200 OK\r\nContent-Type: text/event-stream\r\nCache-Control: no-cache\r\nConnection: keep-alive\r\n",
    );
    reveal_strlit("HTTP/1.1 200 OK\r\nContent-Type: text/event-stream\r\n");
    reveal_strlit("Cache-Control: no-cache\r\nConnection: keep-alive\r\n");
    let a = "HTTP/1.1 200 OK\r\nContent-Type: text/event-stream\r\n"@;
    let b = "Cache-Control: no-cache\r\nConnection: keep-alive\r\n"@;
    let c = cors_header(open_cors);
    let d = "X-Accel-Buffering: no\r\n\r\n"@;
    assert(stream_head(open_cors) =~= a + (b + c + d));
    law_texts_hold_their_parts(seq![], a, b + c + d, a);
    assert(stream_head(open_cors) =~= (a + b) + c + d);
    law_texts_hold_their_parts(a + b, c, d, c);
    let e = "HTTP/1.1 204 No Content\r\n"@;
    let f = "Content-Length: 0\r\n\r\n"@;
    assert(notification_response(open_cors) =~= e + (c + f));
    law_texts_hold_their_parts(seq![], e, c + f, e);
    assert(notification_response(open_cors) =~= (e + c) + f + seq![]);
    law_texts_hold_their_parts(e + c, f, seq![], f);
}

/// A request that was read holds what its model holds.
pub proof fn law_requests_hold_what_was_read(r: ParsedRequest, i: int)
    ensures
        r.deep_view().method == r.method@,
        r.deep_view().path == r.path@,
        r.deep_view().body == r.body@,
        r.deep_view().headers.len() == r.headers@.len(),
        0 <= i < r.headers@.len() ==> r.deep_view().headers[i] == (
            r.headers@[i].0@,
            r.headers@[i].1@,
        ),
{
}

} // verus!
