//! The HTTP request methods, with their wire text in both directions.

use vstd::prelude::*;

use crate::strutil::lower_seq;
use crate::strutil::str_eq_ignore_ascii_case;
use crate::strutil::trim_back;
use crate::strutil::trim_end_str;

verus! {

/// The closed set of HTTP verbs the server understands.
#[derive(Clone, Copy, Debug, PartialEq, Eq, Structural)]
pub enum Method {
    GET,
    POST,
    PUT,
    DELETE,
    HEAD,
    CONNECT,
    OPTIONS,
    TRACE,
    PATCH,
}

/// The wire name of a method, as it appears in a request line.
pub open spec fn method_text(m: Method) -> Seq<char> {
    match m {
        Method::GET => "GET"@,
        Method::POST => "POST"@,
        Method::PUT => "PUT"@,
        Method::DELETE => "DELETE"@,
        Method::HEAD => "HEAD"@,
        Method::CONNECT => "CONNECT"@,
        Method::OPTIONS => "OPTIONS"@,
        Method::TRACE => "TRACE"@,
        Method::PATCH => "PATCH"@,
    }
}

/// Which method a token names: trailing ASCII whitespace is ignored,
/// the match is otherwise exact up to ASCII case, and a token that
/// names no method yields `None`.
pub open spec fn parse_method(t: Seq<char>) -> Option<Method> {
    let s = trim_back(t);
    if lower_seq(s) == lower_seq("GET"@) {
        Some(Method::GET)
    } else if lower_seq(s) == lower_seq("POST"@) {
        Some(Method::POST)
    } else if lower_seq(s) == lower_seq("PUT"@) {
        Some(Method::PUT)
    } else if lower_seq(s) == lower_seq("DELETE"@) {
        Some(Method::DELETE)
    } else if lower_seq(s) == lower_seq("HEAD"@) {
        Some(Method::HEAD)
    } else if lower_seq(s) == lower_seq("CONNECT"@) {
        Some(Method::CONNECT)
    } else if lower_seq(s) == lower_seq("OPTIONS"@) {
        Some(Method::OPTIONS)
    } else if lower_seq(s) == lower_seq("TRACE"@) {
        Some(Method::TRACE)
    } else if lower_seq(s) == lower_seq("PATCH"@) {
        Some(Method::PATCH)
    } else {
        None
    }
}

/// The failure of reading a method token.
#[derive(Clone, Copy, Debug, PartialEq, Eq, Structural)]
pub enum MethodParseError {
    UnknownMethod,
}

impl Method {
    /// The wire name of this method.
    pub fn to_string(&self) -> (r: String)
        ensures
            r@ == method_text(*self),
    {
        match self {
            Method::GET => String::from_str("GET"),
            Method::POST => String::from_str("POST"),
            Method::PUT => String::from_str("PUT"),
            Method::DELETE => String::from_str("DELETE"),
            Method::HEAD => String::from_str("HEAD"),
            Method::CONNECT => String::from_str("CONNECT"),
            Method::OPTIONS => String::from_str("OPTIONS"),
            Method::TRACE => String::from_str("TRACE"),
            Method::PATCH => String::from_str("PATCH"),
        }
    }

    /// Reads a method token, ignoring trailing whitespace and
    /// insensitive to ASCII case; an unknown token is the one way this
    /// fails.
    pub fn from_str(s: &str) -> (r: Result<Method, MethodParseError>)
        ensures
            r matches Ok(m) ==> parse_method(s@) == Some(m),
            r is Err <==> parse_method(s@) is None,
            r matches Err(e) ==> e == MethodParseError::UnknownMethod,
    {
        let t = trim_end_str(s);
        if str_eq_ignore_ascii_case(t, "GET") {
            Ok(Method::GET)
        } else if str_eq_ignore_ascii_case(t, "POST") {
            Ok(Method::POST)
        } else if str_eq_ignore_ascii_case(t, "PUT") {
            Ok(Method::PUT)
        } else if str_eq_ignore_ascii_case(t, "DELETE") {
            Ok(Method::DELETE)
        } else if str_eq_ignore_ascii_case(t, "HEAD") {
            Ok(Method::HEAD)
        } else if str_eq_ignore_ascii_case(t, "CONNECT") {
            Ok(Method::CONNECT)
        } else if str_eq_ignore_ascii_case(t, "OPTIONS") {
            Ok(Method::OPTIONS)
        } else if str_eq_ignore_ascii_case(t, "TRACE") {
            Ok(Method::TRACE)
        } else if str_eq_ignore_ascii_case(t, "PATCH") {
            Ok(Method::PATCH)
        } else {
            Err(MethodParseError::UnknownMethod)
        }
    }
}

impl Default for Method {
    /// The default method is `GET`.
    fn default() -> (r: Method)
        ensures
            r == Method::GET,
    {
        Method::GET
    }
}

} // verus!
