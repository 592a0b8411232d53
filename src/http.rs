use vstd::prelude::*;
use vstd::string::StringSliceAdditionalSpecFns;

verus! {

/// The ASCII decimal representation of `n`, most significant digit first,
/// with no leading zeros (`0` is written as a single `'0'`).
pub open spec fn decimal(n: nat) -> Seq<u8>
    decreases n,
{
    if n < 10 {
        seq![(n + 48) as u8]
    } else {
        decimal(n / 10).push(((n % 10) + 48) as u8)
    }
}

/// Writes `n` in decimal as ASCII digits.
pub fn decimal_bytes(n: usize) -> (r: Vec<u8>)
    ensures
        r@ == decimal(n as nat),
    decreases n,
{
    if n < 10 {
        let mut r: Vec<u8> = Vec::new();
        r.push((n as u8) + 48);
        r
    } else {
        let mut r = decimal_bytes(n / 10);
        r.push(((n % 10) as u8) + 48);
        r
    }
}

/// The request line that asks for the index page.
pub open spec fn index_request() -> Seq<u8> {
    "GET / HTTP/1.1\r\n".spec_bytes()
}

/// The request line that asks for the index page after a pause.
pub open spec fn sleep_request() -> Seq<u8> {
    "GET /sleep HTTP/1.1\r\n".spec_bytes()
}

/// How a request is answered, decided by how it begins.
#[derive(Debug, PartialEq, Eq, Structural, Clone, Copy)]
pub enum Route {
    /// `GET /`: the index page.
    Index,
    /// `GET /sleep`: the index page, after a pause.
    Sleep,
    /// Anything else: the not-found page.
    NotFound,
}

/// The index request wins over the pause request; anything that begins
/// with neither is not found.
pub open spec fn route_of(request: Seq<u8>) -> Route {
    if index_request().is_prefix_of(request) {
        Route::Index
    } else if sleep_request().is_prefix_of(request) {
        Route::Sleep
    } else {
        Route::NotFound
    }
}

/// Found pages answer `200 OK`, the rest `404 NOT FOUND`.
pub open spec fn status_of(route: Route) -> Seq<char> {
    match route {
        Route::NotFound => "HTTP/1.1 404 NOT FOUND"@,
        _ => "HTTP/1.1 200 OK"@,
    }
}

/// Found pages serve the index file, the rest the not-found file.
pub open spec fn file_of(route: Route) -> Seq<char> {
    match route {
        Route::NotFound => "404.html"@,
        _ => "index.html"@,
    }
}

/// The line ending of the protocol.
pub open spec fn crlf() -> Seq<u8> {
    "\r\n".spec_bytes()
}

/// A response: the status line, a `Content-Length` header giving the size
/// of the body in bytes, a blank line, then the body.
pub open spec fn response_of(status: &str, body: &str) -> Seq<u8> {
    status.spec_bytes() + crlf() + "Content-Length: ".spec_bytes() + decimal(
        body.spec_bytes().len(),
    ) + crlf() + crlf() + body.spec_bytes()
}

/// Whether `s` begins with `prefix`.
pub fn starts_with(s: &[u8], prefix: &[u8]) -> (r: bool)
    ensures
        r == prefix@.is_prefix_of(s@),
{
    if prefix.len() > s.len() {
        return false;
    }
    let mut i: usize = 0;
    while i < prefix.len()
        invariant
            prefix@.len() <= s@.len(),
            i <= prefix@.len(),
            forall|k: int| 0 <= k < i ==> prefix@[k] == s@[k],
        decreases prefix@.len() - i,
    {
        if prefix[i] != s[i] {
            assert(s@.subrange(0, prefix@.len() as int)[i as int] == s@[i as int]);
            return false;
        }
        i = i + 1;
    }
    assert(prefix@ =~= s@.subrange(0, prefix@.len() as int));
    true
}

/// Chooses the answer to `request`, the bytes received on a connection.
pub fn route(request: &[u8]) -> (r: Route)
    ensures
        r == route_of(request@),
{
    if starts_with(request, "GET / HTTP/1.1\r\n".as_bytes()) {
        Route::Index
    } else if starts_with(request, "GET /sleep HTTP/1.1\r\n".as_bytes()) {
        Route::Sleep
    } else {
        Route::NotFound
    }
}

/// The status line that answers `route`.
pub fn status_line(route: Route) -> (r: &'static str)
    ensures
        r@ == status_of(route),
{
    match route {
        Route::NotFound => "HTTP/1.1 404 NOT FOUND",
        _ => "HTTP/1.1 200 OK",
    }
}

/// The file whose contents form the body of the answer to `route`.
pub fn filename(route: Route) -> (r: &'static str)
    ensures
        r@ == file_of(route),
{
    match route {
        Route::NotFound => "404.html",
        _ => "index.html",
    }
}

/// How many seconds to wait before answering `route`.
pub fn delay_secs(route: Route) -> (r: u64)
    ensures
        r == (if route == Route::Sleep { 5u64 } else { 0u64 }),
{
    match route {
        Route::Sleep => 5,
        _ => 0,
    }
}

fn push_all(out: &mut Vec<u8>, bytes: &[u8])
    ensures
        final(out)@ == old(out)@ + bytes@,
{
    let mut i: usize = 0;
    while i < bytes.len()
        invariant
            i <= bytes@.len(),
            out@ == old(out)@ + bytes@.take(i as int),
        decreases bytes@.len() - i,
    {
        out.push(bytes[i]);
        i = i + 1;
        assert(out@ =~= old(out)@ + bytes@.take(i as int));
    }
    assert(bytes@.take(i as int) =~= bytes@);
}

/// The full response with status line `status` and body `body`.
pub fn response(status: &str, body: &str) -> (r: Vec<u8>)
    ensures
        r@ == response_of(status, body),
{
    let mut out: Vec<u8> = Vec::new();
    push_all(&mut out, status.as_bytes());
    push_all(&mut out, "\r\n".as_bytes());
    push_all(&mut out, "Content-Length: ".as_bytes());
    let body_bytes = body.as_bytes();
    let digits = decimal_bytes(body_bytes.len());
    push_all(&mut out, digits.as_slice());
    push_all(&mut out, "\r\n".as_bytes());
    push_all(&mut out, "\r\n".as_bytes());
    push_all(&mut out, body_bytes);
    assert(out@ =~= response_of(status, body));
    out
}

} // verus!
