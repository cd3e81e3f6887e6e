//! Answering the request line of an HTTP request.

use vstd::prelude::*;
use vstd::string::StringExecFns;

verus! {

/// What to answer a request with.
#[derive(Clone, Copy, Debug, PartialEq, Eq)]
pub struct Reply {
    /// The status line of the response.
    pub status_line: &'static str,
    /// The file whose contents make the body of the response.
    pub filename: &'static str,
    /// The seconds to wait before answering.
    pub delay_secs: u64,
}

/// Whether `line` asks for the front page.
pub open spec fn asks_for_root(line: Seq<char>) -> bool {
    line == "GET / HTTP/1.1"@
}

/// Whether `line` asks for the slow page.
pub open spec fn asks_for_sleep(line: Seq<char>) -> bool {
    line == "GET /sleep HTTP/1.1"@
}

/// The answer to a request line: the front page for `GET /`, the front
/// page after five seconds for `GET /sleep`, and the error page for
/// anything else.
pub fn reply_to(request_line: &str) -> (reply: Reply)
    ensures
        asks_for_root(request_line@) || asks_for_sleep(request_line@) ==> reply.status_line@
            == "HTTP/1.1 200 OK"@ && reply.filename@ == "hello.html"@,
        !asks_for_root(request_line@) && !asks_for_sleep(request_line@) ==> reply.status_line@
            == "HTTP/1.1 404 NOT FOUND"@ && reply.filename@ == "404.html"@,
        reply.delay_secs == if asks_for_sleep(request_line@) {
            5u64
        } else {
            0u64
        },
{
    proof {
        reveal_strlit("GET / HTTP/1.1");
        reveal_strlit("GET /sleep HTTP/1.1");
        assert("GET / HTTP/1.1"@.len() == 14);
        assert("GET /sleep HTTP/1.1"@.len() == 19);
    }
    let line = String::from_str(request_line);
    if line == String::from_str("GET / HTTP/1.1") {
        Reply { status_line: "HTTP/1.1 200 OK", filename: "hello.html", delay_secs: 0 }
    } else if line == String::from_str("GET /sleep HTTP/1.1") {
        Reply { status_line: "HTTP/1.1 200 OK", filename: "hello.html", delay_secs: 5 }
    } else {
        Reply { status_line: "HTTP/1.1 404 NOT FOUND", filename: "404.html", delay_secs: 0 }
    }
}

/// The character of a decimal digit.
pub open spec fn digit_char(d: nat) -> char {
    if d == 0 {
        '0'
    } else if d == 1 {
        '1'
    } else if d == 2 {
        '2'
    } else if d == 3 {
        '3'
    } else if d == 4 {
        '4'
    } else if d == 5 {
        '5'
    } else if d == 6 {
        '6'
    } else if d == 7 {
        '7'
    } else if d == 8 {
        '8'
    } else {
        '9'
    }
}

/// `n` in decimal, without leading zeros.
pub open spec fn decimal_of(n: nat) -> Seq<char>
    decreases n,
{
    if n < 10 {
        seq![digit_char(n)]
    } else {
        decimal_of(n / 10).push(digit_char(n % 10))
    }
}

/// The text of a decimal digit.
fn digit_text(d: usize) -> (text: &'static str)
    requires
        d < 10,
    ensures
        text@ == seq![digit_char(d as nat)],
{
    proof {
        reveal_strlit("0");
        reveal_strlit("1");
        reveal_strlit("2");
        reveal_strlit("3");
        reveal_strlit("4");
        reveal_strlit("5");
        reveal_strlit("6");
        reveal_strlit("7");
        reveal_strlit("8");
        reveal_strlit("9");
    }
    let text = if d == 0 {
        "0"
    } else if d == 1 {
        "1"
    } else if d == 2 {
        "2"
    } else if d == 3 {
        "3"
    } else if d == 4 {
        "4"
    } else if d == 5 {
        "5"
    } else if d == 6 {
        "6"
    } else if d == 7 {
        "7"
    } else if d == 8 {
        "8"
    } else {
        "9"
    };
    assert(text@ =~= seq![digit_char(d as nat)]);
    text
}

/// `n` in decimal, without leading zeros.
pub fn decimal(n: usize) -> (text: String)
    ensures
        text@ == decimal_of(n as nat),
    decreases n,
{
    if n < 10 {
        String::from_str(digit_text(n))
    } else {
        let text = decimal(n / 10).concat(digit_text(n % 10));
        assert(text@ =~= decimal_of((n / 10) as nat).push(digit_char((n % 10) as nat)));
        text
    }
}

/// The response with the given status line and body: the status line, the
/// length of the body in bytes as its only header, an empty line, the body.
pub open spec fn response_spec(status_line: Seq<char>, contents: Seq<char>, length: nat) -> Seq<
    char,
> {
    status_line + "\r\nContent-Length: "@ + decimal_of(length) + "\r\n\r\n"@ + contents
}

/// The response with the given status line and body.
pub fn response(status_line: &str, contents: &str) -> (text: String)
    ensures
        text@ == response_spec(status_line@, contents@, contents.len() as nat),
{
    let length = decimal(contents.len());
    String::from_str(status_line).concat("\r\nContent-Length: ").concat(length.as_str()).concat(
        "\r\n\r\n",
    ).concat(contents)
}

} // verus!
