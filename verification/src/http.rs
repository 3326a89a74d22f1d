//! The dispatcher's pure request logic: routing on a request's first line,
//! response construction, and the wire framing of a response.
//!
//! The surrounding runtime reads the request from a connection, looks up the
//! static resource the route asks for, and writes the framed bytes back; the
//! decisions in between are made here.
use crate::words::str_eq;
use vstd::prelude::*;

verus! {

/// The behaviors the dispatcher recognizes from a request's first line.
#[derive(Clone, Copy, Debug, PartialEq, Eq, Structural)]
pub enum Route {
    /// The index route: serve the static resource.
    Index,
    /// The slow route: pause for a fixed simulated latency, then serve the
    /// static resource.
    Slow,
    /// Anything else: serve the not-found resource.
    NotFound,
}

/// The route that a request's first line maps to.
pub open spec fn spec_route(line: Seq<char>) -> Route {
    if line == "GET / HTTP/1.1"@ {
        Route::Index
    } else if line == "GET /sleep HTTP/1.1"@ {
        Route::Slow
    } else {
        Route::NotFound
    }
}

/// Maps a request's first line to the route it names; every unrecognized
/// line maps to `NotFound`.
pub fn route(first_line: &str) -> (r: Route)
    ensures
        r == spec_route(first_line@),
{
    if str_eq(first_line, "GET / HTTP/1.1") {
        Route::Index
    } else if str_eq(first_line, "GET /sleep HTTP/1.1") {
        Route::Slow
    } else {
        Route::NotFound
    }
}

/// A response: a status line and the body it carries.
pub struct Response {
    pub status: String,
    pub contents: String,
}

impl Response {
    /// A successful response carrying the given body.
    pub fn create_ok(contents: String) -> (r: Response)
        ensures
            r.status@ == "HTTP/1.1 200 OK"@,
            r.contents == contents,
    {
        Response { status: String::from_str("HTTP/1.1 200 OK"), contents }
    }

    /// A not-found response carrying the given body.
    pub fn create_not_found(contents: String) -> (r: Response)
        ensures
            r.status@ == "HTTP/1.1 400 NOT FOUND"@,
            r.contents == contents,
    {
        Response { status: String::from_str("HTTP/1.1 400 NOT FOUND"), contents }
    }
}

/// Builds the response a route calls for: the static page with status OK for
/// the index and slow routes, the missing page with status NOT FOUND
/// otherwise.
pub fn build_response(r: Route, page: String, missing: String) -> (resp: Response)
    ensures
        (r == Route::Index || r == Route::Slow) ==> {
            &&& resp.status@ == "HTTP/1.1 200 OK"@
            &&& resp.contents == page
        },
        r == Route::NotFound ==> {
            &&& resp.status@ == "HTTP/1.1 400 NOT FOUND"@
            &&& resp.contents == missing
        },
{
    match r {
        Route::Index => Response::create_ok(page),
        Route::Slow => Response::create_ok(page),
        Route::NotFound => Response::create_not_found(missing),
    }
}

/// The character for one decimal digit.
pub open spec fn decimal_digit(d: int) -> char {
    if d == 0 {
        '0'
    } else if d == 1 {
        '1'
    } else if d == 2 {
        '2'
    } else if d == 3 {
        '3'
    } else if d == 4 {
        '4'
    } else if d == 5 {
        '5'
    } else if d == 6 {
        '6'
    } else if d == 7 {
        '7'
    } else if d == 8 {
        '8'
    } else {
        '9'
    }
}

/// The decimal notation of a number, most significant digit first, with no
/// leading zero except for the number zero itself.
pub open spec fn spec_decimal(n: nat) -> Seq<char>
    decreases n,
{
    if n < 10 {
        seq![decimal_digit(n as int)]
    } else {
        spec_decimal(n / 10).push(decimal_digit((n % 10) as int))
    }
}

/// One decimal digit as a string.
fn digit_to_string(d: u64) -> (s: String)
    requires
        d < 10,
    ensures
        s@ == seq![decimal_digit(d as int)],
{
    if d == 0 {
        let s = String::from_str("0");
        proof {
            reveal_strlit("0");
            assert(s@ =~= seq![decimal_digit(0)]);
        }
        s
    } else if d == 1 {
        let s = String::from_str("1");
        proof {
            reveal_strlit("1");
            assert(s@ =~= seq![decimal_digit(1)]);
        }
        s
    } else if d == 2 {
        let s = String::from_str("2");
        proof {
            reveal_strlit("2");
            assert(s@ =~= seq![decimal_digit(2)]);
        }
        s
    } else if d == 3 {
        let s = String::from_str("3");
        proof {
            reveal_strlit("3");
            assert(s@ =~= seq![decimal_digit(3)]);
        }
        s
    } else if d == 4 {
        let s = String::from_str("4");
        proof {
            reveal_strlit("4");
            assert(s@ =~= seq![decimal_digit(4)]);
        }
        s
    } else if d == 5 {
        let s = String::from_str("5");
        proof {
            reveal_strlit("5");
            assert(s@ =~= seq![decimal_digit(5)]);
        }
        s
    } else if d == 6 {
        let s = String::from_str("6");
        proof {
            reveal_strlit("6");
            assert(s@ =~= seq![decimal_digit(6)]);
        }
        s
    } else if d == 7 {
        let s = String::from_str("7");
        proof {
            reveal_strlit("7");
            assert(s@ =~= seq![decimal_digit(7)]);
        }
        s
    } else if d == 8 {
        let s = String::from_str("8");
        proof {
            reveal_strlit("8");
            assert(s@ =~= seq![decimal_digit(8)]);
        }
        s
    } else {
        let s = String::from_str("9");
        proof {
            reveal_strlit("9");
            assert(s@ =~= seq![decimal_digit(9)]);
        }
        s
    }
}

/// Renders a number in decimal notation.
pub fn u64_to_decimal(n: u64) -> (s: String)
    ensures
        s@ == spec_decimal(n as nat),
    decreases n,
{
    if n < 10 {
        digit_to_string(n)
    } else {
        let rest = u64_to_decimal(n / 10);
        let last = digit_to_string(n % 10);
        let s = rest.concat(last.as_str());
        proof {
            assert(s@ =~= spec_decimal((n / 10) as nat).push(decimal_digit((n as nat % 10) as int)));
        }
        s
    }
}

/// The byte length of a string, the count `Content-Length` must carry.
pub open spec fn spec_byte_len(s: Seq<char>) -> nat {
    crate::words::spec_bytes_of(s).len()
}

/// The single contiguous character sequence a response is written as: the
/// status line, a `Content-Length` header carrying the body's byte length, a
/// blank line, then the body.
pub open spec fn spec_wire(status: Seq<char>, contents: Seq<char>) -> Seq<char> {
    status + "\r\nContent-Length: "@ + spec_decimal(spec_byte_len(contents)) + "\r\n\r\n"@
        + contents
}

/// Frames a response for the wire.
pub fn frame_response(r: &Response) -> (out: String)
    requires
        spec_byte_len(r.contents@) <= usize::MAX,
    ensures
        out@ == spec_wire(r.status@, r.contents@),
{
    let len = r.contents.as_str().len();
    let mut out = String::new();
    out.append(r.status.as_str());
    out.append("\r\nContent-Length: ");
    let dec = u64_to_decimal(len as u64);
    out.append(dec.as_str());
    out.append("\r\n\r\n");
    out.append(r.contents.as_str());
    proof {
        assert(out@ =~= spec_wire(r.status@, r.contents@));
    }
    out
}

} // verus!
