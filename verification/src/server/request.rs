//! The HTTP request line: `METHOD TARGET VERSION`, split on ASCII
//! whitespace, with the eight request methods of HTTP and the literal
//! version `HTTP/1.1`.

use crate::server::error::Error;
use crate::text::{dec_str, push_decimal};
use crate::url::Url;
use vstd::prelude::*;
use vstd::string::*;

verus! {

/// The request methods of HTTP.
#[derive(Debug, Clone, Copy, PartialEq, Eq, Structural)]
pub enum RequestMethod {
    Get,
    Head,
    Post,
    Put,
    Delete,
    Connect,
    Options,
    Trace,
}

/// Whether the token is one of the eight method names.
pub open spec fn is_method_token(t: Seq<char>) -> bool {
    ||| t == "GET"@
    ||| t == "HEAD"@
    ||| t == "POST"@
    ||| t == "PUT"@
    ||| t == "DELETE"@
    ||| t == "CONNECT"@
    ||| t == "OPTIONS"@
    ||| t == "TRACE"@
}

/// The method a token names.
pub open spec fn method_of_token(t: Seq<char>) -> RequestMethod
    recommends
        is_method_token(t),
{
    if t == "GET"@ {
        RequestMethod::Get
    } else if t == "HEAD"@ {
        RequestMethod::Head
    } else if t == "POST"@ {
        RequestMethod::Post
    } else if t == "PUT"@ {
        RequestMethod::Put
    } else if t == "DELETE"@ {
        RequestMethod::Delete
    } else if t == "CONNECT"@ {
        RequestMethod::Connect
    } else if t == "OPTIONS"@ {
        RequestMethod::Options
    } else {
        RequestMethod::Trace
    }
}

/// Whether two string slices hold the same characters.
pub fn str_eq(a: &str, b: &str) -> (r: bool)
    ensures
        r == (a@ == b@),
{
    let owned_a = a.to_owned();
    let owned_b = b.to_owned();
    owned_a == owned_b
}

impl RequestMethod {
    /// The method a token names, or `InvalidRequest` naming the token
    /// when it is none of the eight.
    pub fn try_from(value: &str) -> (r: Result<RequestMethod, Error>)
        ensures
            is_method_token(value@) ==> (r matches Ok(m) && m == method_of_token(value@)),
            !is_method_token(value@) ==> (r matches Err(e) && e matches Error::InvalidRequest(msg)
                && msg@ == "invalid method: "@ + value@),
    {
        if str_eq(value, "GET") {
            Ok(RequestMethod::Get)
        } else if str_eq(value, "HEAD") {
            Ok(RequestMethod::Head)
        } else if str_eq(value, "POST") {
            Ok(RequestMethod::Post)
        } else if str_eq(value, "PUT") {
            Ok(RequestMethod::Put)
        } else if str_eq(value, "DELETE") {
            Ok(RequestMethod::Delete)
        } else if str_eq(value, "CONNECT") {
            Ok(RequestMethod::Connect)
        } else if str_eq(value, "OPTIONS") {
            Ok(RequestMethod::Options)
        } else if str_eq(value, "TRACE") {
            Ok(RequestMethod::Trace)
        } else {
            let mut msg = String::from_str("invalid method: ");
            msg.append(value);
            Err(Error::InvalidRequest(msg))
        }
    }
}

/// Whether `c` is ASCII whitespace: space, tab, newline, form feed or
/// carriage return.
pub open spec fn is_ascii_ws(c: char) -> bool {
    c == ' ' || c == '\t' || c == '\n' || c == '\u{c}' || c == '\r'
}

/// Decides whether a character is ASCII whitespace.
fn is_ascii_ws_char(c: char) -> (r: bool)
    ensures
        r == is_ascii_ws(c),
{
    c == ' ' || c == '\t' || c == '\n' || c == '\u{c}' || c == '\r'
}

/// Length of the whitespace-free run at the front of `s`.
pub open spec fn token_len(s: Seq<char>) -> int
    decreases s.len(),
{
    if s.len() == 0 || is_ascii_ws(s[0]) {
        0
    } else {
        1 + token_len(s.drop_first())
    }
}

/// The front run never overruns the sequence.
proof fn lemma_token_len_bounds(s: Seq<char>)
    ensures
        0 <= token_len(s) <= s.len(),
    decreases s.len(),
{
    if s.len() != 0 && !is_ascii_ws(s[0]) {
        lemma_token_len_bounds(s.drop_first());
    }
}

/// The front run is as long as the whitespace-free prefix observed.
proof fn lemma_token_len_is(s: Seq<char>, m: int)
    requires
        0 <= m <= s.len(),
        forall|k: int| 0 <= k < m ==> !is_ascii_ws(s[k]),
        m == s.len() || is_ascii_ws(s[m]),
    ensures
        token_len(s) == m,
    decreases m,
{
    if m == 0 {
    } else {
        assert(!is_ascii_ws(s[0]));
        lemma_token_len_is(s.drop_first(), m - 1);
    }
}

/// The words of `s`: the maximal whitespace-free runs, in order.
pub open spec fn split_ws(s: Seq<char>) -> Seq<Seq<char>>
    decreases s.len(),
    via split_ws_decreases
{
    if s.len() == 0 {
        seq![]
    } else if is_ascii_ws(s[0]) {
        split_ws(s.drop_first())
    } else {
        seq![s.subrange(0, token_len(s))] + split_ws(s.subrange(token_len(s), s.len() as int))
    }
}

#[via_fn]
proof fn split_ws_decreases(s: Seq<char>) {
    lemma_token_len_bounds(s);
    if s.len() != 0 && !is_ascii_ws(s[0]) {
        lemma_token_len_bounds(s.drop_first());
    }
}

/// Splits a string on ASCII whitespace into its words.
pub fn split_whitespace_tokens(line: &str) -> (tokens: Vec<String>)
    ensures
        tokens@.len() == split_ws(line@).len(),
        forall|k: int|
            0 <= k < tokens@.len() ==> (#[trigger] tokens@[k])@ == split_ws(line@)[k],
{
    let n = line.unicode_len();
    let mut tokens: Vec<String> = Vec::new();
    let mut i: usize = 0;
    proof {
        assert(line@.subrange(0, n as int) =~= line@);
    }
    while i < n
        invariant
            i <= n,
            n == line@.len(),
            split_ws(line@) == tokens@.map_values(|t: String| t@) + split_ws(
                line@.subrange(i as int, n as int),
            ),
        decreases n - i,
    {
        let ghost suffix = line@.subrange(i as int, n as int);
        let c = line.get_char(i);
        if is_ascii_ws_char(c) {
            proof {
                assert(suffix.drop_first() =~= line@.subrange(i + 1, n as int));
            }
            i = i + 1;
        } else {
            let mut j = i + 1;
            while j < n && !is_ascii_ws_char(line.get_char(j))
                invariant
                    i < j <= n,
                    n == line@.len(),
                    forall|k: int| i <= k < j ==> !is_ascii_ws(line@[k]),
                decreases n - j,
            {
                j = j + 1;
            }
            let tok = line.substring_char(i, j);
            let ghost tokens_pre = tokens@;
            tokens.push(tok.to_owned());
            proof {
                lemma_token_len_is(suffix, j - i);
                assert(suffix.subrange(0, j - i) =~= line@.subrange(i as int, j as int));
                assert(suffix.subrange(j - i, suffix.len() as int) =~= line@.subrange(
                    j as int,
                    n as int,
                ));
                assert(split_ws(suffix) == seq![line@.subrange(i as int, j as int)] + split_ws(
                    line@.subrange(j as int, n as int),
                ));
                assert(tokens@.map_values(|t: String| t@) =~= tokens_pre.map_values(
                    |t: String| t@,
                ).push(tok@));
                assert(tokens@.map_values(|t: String| t@) + split_ws(
                    line@.subrange(j as int, n as int),
                ) =~= tokens_pre.map_values(|t: String| t@) + split_ws(suffix));
            }
            i = j;
        }
    }
    proof {
        assert(line@.subrange(n as int, n as int) =~= Seq::<char>::empty());
        assert(split_ws(line@) =~= tokens@.map_values(|t: String| t@));
        assert forall|k: int| 0 <= k < tokens@.len() implies (#[trigger] tokens@[k])@
            == split_ws(line@)[k] by {
            assert(tokens@.map_values(|t: String| t@)[k] == tokens@[k]@);
        }
    }
    tokens
}

/// A parsed request: its method, and a placeholder for the target, which
/// routing does not interpret yet.
#[derive(Debug, Clone, Copy, PartialEq, Eq, Structural)]
pub struct Request {
    /// The request method.
    pub method: RequestMethod,
    /// The request target.
    pub target: Url,
}

impl Request {
    /// Parses the first of the given lines as a request line: exactly
    /// three whitespace-separated tokens, the third the literal
    /// `HTTP/1.1`, the first one of the eight method names. Anything else
    /// is an `InvalidRequest` saying what was found.
    pub fn parse(raw_request: &Vec<String>) -> (r: Result<Request, Error>)
        ensures
            raw_request@.len() == 0 ==> (r matches Err(e) && e matches Error::InvalidRequest(m)
                && m@ == "cannot parse empty request"@),
            raw_request@.len() > 0 ==> ({
                let toks = split_ws(raw_request@[0]@);
                &&& toks.len() != 3 ==> (r matches Err(e) && e matches Error::InvalidRequest(m)
                    && m@ == "control data: expected 3 parts, got "@ + dec_str(toks.len() as int))
                &&& toks.len() == 3 && toks[2] != "HTTP/1.1"@ ==> (r matches Err(e)
                    && e matches Error::InvalidRequest(m) && m@
                    == "unsupported HTTP version: expected 'HTTP/1.1', got '"@ + toks[2] + "'"@)
                &&& toks.len() == 3 && toks[2] == "HTTP/1.1"@ && !is_method_token(toks[0]) ==> (
                r matches Err(e) && e matches Error::InvalidRequest(m) && m@
                    == "invalid method: "@ + toks[0])
                &&& toks.len() == 3 && toks[2] == "HTTP/1.1"@ && is_method_token(toks[0]) ==> r
                    == Ok::<Request, Error>(
                    Request { method: method_of_token(toks[0]), target: Url {  } },
                )
            }),
    {
        if raw_request.len() == 0 {
            return Err(Error::InvalidRequest(String::from_str("cannot parse empty request")));
        }
        let parts = split_whitespace_tokens(raw_request[0].as_str());
        if parts.len() != 3 {
            let mut msg = String::from_str("control data: expected 3 parts, got ");
            push_decimal(&mut msg, parts.len() as u64);
            return Err(Error::InvalidRequest(msg));
        }
        if !str_eq(parts[2].as_str(), "HTTP/1.1") {
            let mut msg = String::from_str("unsupported HTTP version: expected 'HTTP/1.1', got '");
            msg.append(parts[2].as_str());
            msg.append("'");
            return Err(Error::InvalidRequest(msg));
        }
        match RequestMethod::try_from(parts[0].as_str()) {
            Ok(method) => Ok(Request { method, target: Url::default() }),
            Err(e) => Err(e),
        }
    }
}

} // verus!
