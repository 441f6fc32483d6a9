//! The HTTP protocol versions the server can name, with their wire text.

use vstd::prelude::*;

use crate::strutil::str_eq;

verus! {

/// The two protocol versions that a request line may name.
#[derive(Clone, Copy, Debug, PartialEq, Eq, Structural)]
pub enum HttpVersion {
    HTTP1_0,
    HTTP1_1,
}

/// The wire text of a protocol version.
pub open spec fn version_text(v: HttpVersion) -> Seq<char> {
    match v {
        HttpVersion::HTTP1_0 => "HTTP/1.0"@,
        HttpVersion::HTTP1_1 => "HTTP/1.1"@,
    }
}

/// Which version a token names; the match is exact.
pub open spec fn parse_version(s: Seq<char>) -> Option<HttpVersion> {
    if s == "HTTP/1.1"@ {
        Some(HttpVersion::HTTP1_1)
    } else if s == "HTTP/1.0"@ {
        Some(HttpVersion::HTTP1_0)
    } else {
        None
    }
}

impl HttpVersion {
    /// The wire text of this version.
    pub fn to_string(&self) -> (r: String)
        ensures
            r@ == version_text(*self),
    {
        match self {
            HttpVersion::HTTP1_0 => String::from_str("HTTP/1.0"),
            HttpVersion::HTTP1_1 => String::from_str("HTTP/1.1"),
        }
    }

    /// Reads a version token; only the two exact wire spellings are
    /// accepted.
    pub fn from_str(s: &str) -> (r: Result<HttpVersion, ()>)
        ensures
            r matches Ok(v) ==> parse_version(s@) == Some(v),
            r is Err <==> parse_version(s@) is None,
    {
        if str_eq(s, "HTTP/1.1") {
            Ok(HttpVersion::HTTP1_1)
        } else if str_eq(s, "HTTP/1.0") {
            Ok(HttpVersion::HTTP1_0)
        } else {
            Err(())
        }
    }
}

impl Default for HttpVersion {
    /// The default version is HTTP/1.1.
    fn default() -> (r: HttpVersion)
        ensures
            r == HttpVersion::HTTP1_1,
    {
        HttpVersion::HTTP1_1
    }
}

} // verus!
