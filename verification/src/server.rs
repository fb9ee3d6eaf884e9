//! Connection handling: the decisions between reading a request and
//! writing its answer. Reading lines from a socket, sleeping, loading a
//! file and writing bytes back stay with the embedding program; what to
//! answer is decided and proved here.
//!
//! Routing goes by exact match of the whole request line: the root path
//! under GET is served, a literal sleepy path is served after a delay to
//! let a pool demonstration saturate one worker, and everything else is
//! answered with a not-found document.

pub mod error;
pub mod request;

use crate::server::error::Error;
use crate::server::request::Request;
use crate::text::{dec_str, push_decimal};
use vstd::prelude::*;
use vstd::string::*;
use vstd::utf8::encode_utf8;

verus! {

/// What the handler decided to answer: the status line, the document to
/// serve, and whether to stall first.
#[derive(Debug, Clone, PartialEq, Eq)]
pub struct ResponsePlan {
    /// The status line of the answer.
    pub status_line: String,
    /// The name of the document whose bytes become the body.
    pub filename: String,
    /// Whether the handler stalls before answering, to demonstrate that
    /// the pool keeps other workers available.
    pub sleep: bool,
}

/// What routing owes for the given request line: the root path under GET
/// is served, the sleepy path is served after a stall, and any other line
/// gets the not-found document.
pub open spec fn spec_route(line: Seq<char>, p: ResponsePlan) -> bool {
    &&& line == "GET / HTTP/1.1"@ ==> (p.status_line@ == "HTTP/1.1 200 OK"@ && p.filename@
        == "hello.html"@ && !p.sleep)
    &&& line == "GET /sleep HTTP/1.1"@ ==> (p.status_line@ == "HTTP/1.1 200 OK"@ && p.filename@
        == "hello.html"@ && p.sleep)
    &&& line != "GET / HTTP/1.1"@ && line != "GET /sleep HTTP/1.1"@ ==> (p.status_line@
        == "HTTP/1.1 404 NOT FOUND"@ && p.filename@ == "404.html"@ && !p.sleep)
}

/// Selects a response by exact match of the whole request line.
pub fn route(request_line: &String) -> (p: ResponsePlan)
    ensures
        spec_route(request_line@, p),
{
    proof {
        reveal_strlit("GET / HTTP/1.1");
        reveal_strlit("GET /sleep HTTP/1.1");
        assert("GET / HTTP/1.1"@.len() == 14);
        assert("GET /sleep HTTP/1.1"@.len() == 19);
        assert("GET / HTTP/1.1"@ != "GET /sleep HTTP/1.1"@);
    }
    if request::str_eq(request_line.as_str(), "GET / HTTP/1.1") {
        ResponsePlan {
            status_line: String::from_str("HTTP/1.1 200 OK"),
            filename: String::from_str("hello.html"),
            sleep: false,
        }
    } else if request::str_eq(request_line.as_str(), "GET /sleep HTTP/1.1") {
        ResponsePlan {
            status_line: String::from_str("HTTP/1.1 200 OK"),
            filename: String::from_str("hello.html"),
            sleep: true,
        }
    } else {
        ResponsePlan {
            status_line: String::from_str("HTTP/1.1 404 NOT FOUND"),
            filename: String::from_str("404.html"),
            sleep: false,
        }
    }
}

/// Decides how to answer the lines read from one connection. No lines at
/// all is an aborted request: nothing is answered and nothing is wrong.
/// Otherwise the first line must parse as a request line, and the whole
/// of it then picks the response; the error of a malformed request line
/// passes through, and the connection is answered nothing.
pub fn plan_response(lines: &Vec<String>) -> (r: Result<Option<ResponsePlan>, Error>)
    ensures
        lines@.len() == 0 ==> r == Ok::<Option<ResponsePlan>, Error>(None),
        lines@.len() > 0 ==> ({
            let toks = request::split_ws(lines@[0]@);
            &&& (toks.len() == 3 && toks[2] == "HTTP/1.1"@ && request::is_method_token(toks[0]))
                ==> (r matches Ok(op) && op matches Some(p) && spec_route(lines@[0]@, p))
            &&& !(toks.len() == 3 && toks[2] == "HTTP/1.1"@ && request::is_method_token(
                toks[0],
            )) ==> (r matches Err(e) && e matches Error::InvalidRequest(_))
        }),
{
    if lines.len() == 0 {
        return Ok(None);
    }
    let parsed = Request::parse(lines);
    match parsed {
        Ok(_) => Ok(Some(route(&lines[0]))),
        Err(e) => Err(e),
    }
}

/// Frames a response: the status line, a `Content-Length` header carrying
/// the body's length in bytes, a blank line, and the body.
pub fn compose_response(status_line: &String, contents: &String) -> (r: String)
    ensures
        r@ == status_line@ + "\r\nContent-Length: "@ + dec_str(
            encode_utf8(contents@).len() as int,
        ) + "\r\n\r\n"@ + contents@,
{
    let mut response = status_line.clone();
    response.append("\r\nContent-Length: ");
    let body_bytes = contents.as_str().as_bytes();
    push_decimal(&mut response, body_bytes.len() as u64);
    response.append("\r\n\r\n");
    response.append(contents.as_str());
    proof {
        assert(response@ =~= status_line@ + "\r\nContent-Length: "@ + dec_str(
            encode_utf8(contents@).len() as int,
        ) + "\r\n\r\n"@ + contents@);
    }
    response
}

} // verus!
