//! The one-line request protocol of the file server: choosing a route from
//! the request line, and framing the response.

use vstd::prelude::*;
use vstd::string::*;
use vstd::utf8::encode_utf8;
use crate::words::{split_words, words};

verus! {

/// Where a request is sent.
#[derive(PartialEq, Eq, Structural, Clone, Copy, Debug)]
pub enum Route {
    /// Success, with the index document.
    Index,
    /// Not found, with the 404 document.
    NotFound,
}

/// The route of a path: `/`, `/status`, and any nine-character path that
/// starts with `/` are served the index; every other path is not found.
pub open spec fn route_of(path: Seq<char>) -> Route {
    if path == seq!['/'] || path == seq!['/', 's', 't', 'a', 't', 'u', 's'] || (path.len() == 9
        && path[0] == '/') {
        Route::Index
    } else {
        Route::NotFound
    }
}

/// The route of a request line: that of its second word, or none when the
/// line has fewer than two words.
pub open spec fn request_route(line: Seq<char>) -> Option<Route> {
    if words(line).len() >= 2 {
        Some(route_of(words(line)[1]))
    } else {
        None
    }
}

fn route_chars(p: &Vec<char>) -> (r: Route)
    ensures
        r == route_of(p@),
{
    let n = p.len();
    let is_root = n == 1 && p[0] == '/';
    let is_status = n == 7 && p[0] == '/' && p[1] == 's' && p[2] == 't' && p[3] == 'a' && p[4]
        == 't' && p[5] == 'u' && p[6] == 's';
    proof {
        if n == 1 && p@[0] == '/' {
            assert(p@ =~= seq!['/']);
        }
        if p@ == seq!['/'] {
            assert(p@[0] == '/');
        }
        if n == 7 && p@[0] == '/' && p@[1] == 's' && p@[2] == 't' && p@[3] == 'a' && p@[4] == 't'
            && p@[5] == 'u' && p@[6] == 's' {
            assert(p@ =~= seq!['/', 's', 't', 'a', 't', 'u', 's']);
        }
        if p@ == seq!['/', 's', 't', 'a', 't', 'u', 's'] {
            assert(p@[1] == 's' && p@[6] == 's');
        }
    }
    if is_root || is_status || (n == 9 && p[0] == '/') {
        Route::Index
    } else {
        Route::NotFound
    }
}

/// The route of a request path.
pub fn route(path: &str) -> (r: Route)
    ensures
        r == route_of(path@),
{
    let n = path.unicode_len();
    let mut p: Vec<char> = Vec::new();
    let mut i: usize = 0;
    while i < n
        invariant
            n == path@.len(),
            i <= n,
            p@ == path@.take(i as int),
        decreases n - i,
    {
        p.push(path.get_char(i));
        proof {
            assert(p@ =~= path@.take(i + 1));
        }
        i = i + 1;
    }
    proof {
        assert(p@ =~= path@);
    }
    route_chars(&p)
}

/// The route of a request line such as `GET /status HTTP/1.1`; `None` when
/// the line has no path word.
pub fn route_request(line: &str) -> (r: Option<Route>)
    ensures
        r == request_route(line@),
{
    let ws = split_words(line);
    proof {
        assert(ws@.len() == words(line@).len());
    }
    if ws.len() >= 2 {
        proof {
            assert(ws@[1]@ == words(line@)[1]);
        }
        Some(route_chars(&ws[1]))
    } else {
        None
    }
}

/// The status line sent for a route.
pub open spec fn status_text(r: Route) -> Seq<char> {
    match r {
        Route::Index => "HTTP/1.1 200 OK"@,
        Route::NotFound => "HTTP/1.1 404 NOT FOUND"@,
    }
}

/// The document served for a route.
pub open spec fn document_path(r: Route) -> Seq<char> {
    match r {
        Route::Index => "src/index.html"@,
        Route::NotFound => "src/404.html"@,
    }
}

impl Route {
    /// The status line sent for this route.
    pub fn status_line(&self) -> (r: &'static str)
        ensures
            r@ == status_text(*self),
    {
        match self {
            Route::Index => "HTTP/1.1 200 OK",
            Route::NotFound => "HTTP/1.1 404 NOT FOUND",
        }
    }

    /// The relative path of the document served for this route.
    pub fn document(&self) -> (r: &'static str)
        ensures
            r@ == document_path(*self),
    {
        match self {
            Route::Index => "src/index.html",
            Route::NotFound => "src/404.html",
        }
    }
}

/// `n` in decimal, as ASCII digits, without leading zeros.
pub open spec fn decimal(n: nat) -> Seq<u8>
    decreases n,
{
    if n < 10 {
        seq![(48 + n) as u8]
    } else {
        decimal(n / 10).push((48 + n % 10) as u8)
    }
}

/// Every byte is an ASCII digit.
pub open spec fn all_digits(s: Seq<u8>) -> bool {
    forall|i: int| 0 <= i < s.len() ==> 48 <= #[trigger] s[i] <= 57
}

/// The number that a string of ASCII digits reads as in decimal.
pub open spec fn digits_value(s: Seq<u8>) -> int
    decreases s.len(),
{
    if s.len() == 0 {
        0
    } else {
        digits_value(s.drop_last()) * 10 + (s.last() - 48)
    }
}

/// Everything of a response before its body: status line, `Content-Length`
/// header with the body's byte count, and the blank line.
pub open spec fn response_head(r: Route, body_len: nat) -> Seq<u8> {
    encode_utf8(status_text(r)) + encode_utf8("\r\nContent-Length: "@) + decimal(body_len)
        + encode_utf8("\r\n\r\n"@)
}

/// The response for a route and a document body.
pub open spec fn response_bytes(r: Route, body: Seq<u8>) -> Seq<u8> {
    response_head(r, body.len()) + body
}

fn append_bytes(out: &mut Vec<u8>, b: &[u8])
    ensures
        final(out)@ == old(out)@ + b@,
{
    let mut i: usize = 0;
    while i < b.len()
        invariant
            i <= b@.len(),
            out@ == old(out)@ + b@.take(i as int),
        decreases b@.len() - i,
    {
        out.push(b[i]);
        proof {
            assert(b@.take(i + 1) =~= b@.take(i as int).push(b@[i as int]));
        }
        i = i + 1;
    }
    proof {
        assert(b@.take(b@.len() as int) =~= b@);
    }
}

fn push_decimal(n: usize, out: &mut Vec<u8>)
    ensures
        final(out)@ == old(out)@ + decimal(n as nat),
    decreases n,
{
    if n >= 10 {
        push_decimal(n / 10, out);
    }
    out.push((48 + n % 10) as u8);
    proof {
        if n < 10 {
            assert(old(out)@ + decimal(n as nat) =~= old(out)@.push((48 + n) as u8));
        } else {
            assert(old(out)@ + decimal(n as nat) =~= (old(out)@ + decimal((n / 10) as nat)).push(
                (48 + n % 10) as u8,
            ));
        }
    }
}

/// Frames a response: status line, `Content-Length` with the byte count of
/// `body`, a blank line, then `body`, with CRLF line ends.
pub fn build_response(route: Route, body: &[u8]) -> (r: Vec<u8>)
    ensures
        r@ == response_bytes(route, body@),
{
    let mut out: Vec<u8> = Vec::new();
    append_bytes(&mut out, route.status_line().as_bytes());
    append_bytes(&mut out, "\r\nContent-Length: ".as_bytes());
    push_decimal(body.len(), &mut out);
    append_bytes(&mut out, "\r\n\r\n".as_bytes());
    append_bytes(&mut out, body);
    proof {
        assert(out@ =~= response_bytes(route, body@));
    }
    out
}

proof fn lemma_decimal_value(n: nat)
    ensures
        all_digits(decimal(n)),
        digits_value(decimal(n)) == n,
    decreases n,
{
    if n < 10 {
        assert(decimal(n).drop_last() =~= Seq::<u8>::empty());
        assert(decimal(n).last() == 48 + n);
        assert(digits_value(Seq::<u8>::empty()) == 0);
        assert(digits_value(decimal(n)) == digits_value(decimal(n).drop_last()) * 10 + (
        decimal(n).last() - 48));
    } else {
        assert(decimal(n).last() == 48 + n % 10);
        assert(n == (n / 10) * 10 + n % 10);
        lemma_decimal_value(n / 10);
        assert(decimal(n).drop_last() =~= decimal(n / 10));
        assert(digits_value(decimal(n)) == digits_value(decimal(n).drop_last()) * 10 + (
        decimal(n).last() - 48));
    }
}

/// Every response is its head followed by the body, and the `Content-Length`
/// value in the head is a run of decimal digits whose value is exactly the
/// number of body bytes.
pub proof fn content_length_matches_body(route: Route, body: Seq<u8>)
    ensures
        response_bytes(route, body) == response_head(route, body.len()) + body,
        response_head(route, body.len()) == encode_utf8(status_text(route)) + encode_utf8(
            "\r\nContent-Length: "@,
        ) + decimal(body.len()) + encode_utf8("\r\n\r\n"@),
        all_digits(decimal(body.len())),
        digits_value(decimal(body.len())) == body.len(),
{
    lemma_decimal_value(body.len());
}

} // verus!
