//! The answer that the demo server gives to a request: which page a
//! request line asks for, and the bytes of the reply that carries it.
use vstd::prelude::*;
use vstd::string::{StringExecFns, StringSliceAdditionalSpecFns};

verus! {

/// The two pages that the server knows.
#[derive(Debug, Clone, Copy, PartialEq, Eq, Structural)]
pub enum Page {
    /// The front page, asked for by `GET / HTTP/1.1`.
    Index,
    /// The page for every other request.
    NotFound,
}

/// The only request line that reaches the front page.
pub open spec fn index_request() -> Seq<char> {
    "GET / HTTP/1.1"@
}

impl Page {
    /// The status line of the reply that carries this page.
    pub open spec fn spec_status(self) -> Seq<char> {
        match self {
            Page::Index => "HTTP/1.1 200 OK"@,
            Page::NotFound => "HTTP/1.1 404 NOT FOUND"@,
        }
    }

    /// The file that holds this page.
    pub open spec fn spec_file(self) -> Seq<char> {
        match self {
            Page::Index => "./templates/index.html"@,
            Page::NotFound => "./templates/404.html"@,
        }
    }

    /// The status line of the reply that carries this page.
    pub fn status(&self) -> (r: &'static str)
        ensures
            r@ == self.spec_status(),
    {
        match self {
            Page::Index => "HTTP/1.1 200 OK",
            Page::NotFound => "HTTP/1.1 404 NOT FOUND",
        }
    }

    /// The file that holds this page.
    pub fn file(&self) -> (r: &'static str)
        ensures
            r@ == self.spec_file(),
    {
        match self {
            Page::Index => "./templates/index.html",
            Page::NotFound => "./templates/404.html",
        }
    }
}

/// The page that a request line asks for.
pub fn route(request_line: &String) -> (p: Page)
    ensures
        p == (if request_line@ == index_request() {
            Page::Index
        } else {
            Page::NotFound
        }),
{
    let index = String::from_str("GET / HTTP/1.1");
    if *request_line == index {
        Page::Index
    } else {
        Page::NotFound
    }
}

/// The character of decimal digit `d`.
pub open spec fn digit_char(d: nat) -> char {
    if d == 0 { '0' }
    else if d == 1 { '1' }
    else if d == 2 { '2' }
    else if d == 3 { '3' }
    else if d == 4 { '4' }
    else if d == 5 { '5' }
    else if d == 6 { '6' }
    else if d == 7 { '7' }
    else if d == 8 { '8' }
    else { '9' }
}

/// `n` written in decimal, without leading zeros.
pub open spec fn decimal(n: nat) -> Seq<char>
    decreases n,
{
    if n < 10 {
        seq![digit_char(n)]
    } else {
        decimal(n / 10).push(digit_char(n % 10))
    }
}

/// The reply to a request: the status line, a `Content-Length` header that
/// gives the length of `contents` in bytes, a blank line, then `contents`.
pub open spec fn spec_response(status: Seq<char>, contents: &str) -> Seq<char> {
    status + "\r\nContent-Length: "@ + decimal(contents.spec_bytes().len()) + "\r\n\r\n"@
        + contents@
}

fn digit_str(d: usize) -> (r: &'static str)
    requires
        d < 10,
    ensures
        r@ == seq![digit_char(d as nat)],
{
    proof {
        reveal_strlit("0");
        reveal_strlit("1");
        reveal_strlit("2");
        reveal_strlit("3");
        reveal_strlit("4");
        reveal_strlit("5");
        reveal_strlit("6");
        reveal_strlit("7");
        reveal_strlit("8");
        reveal_strlit("9");
    }
    let r = if d == 0 { "0" }
    else if d == 1 { "1" }
    else if d == 2 { "2" }
    else if d == 3 { "3" }
    else if d == 4 { "4" }
    else if d == 5 { "5" }
    else if d == 6 { "6" }
    else if d == 7 { "7" }
    else if d == 8 { "8" }
    else { "9" };
    assert(r@ =~= seq![digit_char(d as nat)]);
    r
}

fn push_decimal(out: &mut String, n: usize)
    ensures
        final(out)@ == old(out)@ + decimal(n as nat),
    decreases n,
{
    if n >= 10 {
        push_decimal(out, n / 10);
    }
    out.append(digit_str(n % 10));
    assert(out@ =~= old(out)@ + decimal(n as nat));
}

/// The reply that carries `contents` under the status line `status`.
pub fn response(status: &str, contents: &str) -> (r: String)
    ensures
        r@ == spec_response(status@, contents),
{
    let mut out = String::from_str(status);
    out.append("\r\nContent-Length: ");
    push_decimal(&mut out, contents.as_bytes().len());
    out.append("\r\n\r\n");
    out.append(contents);
    assert(out@ =~= spec_response(status@, contents));
    out
}

} // verus!
