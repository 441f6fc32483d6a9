//! The request message and its parse: the wire algorithm that reads the
//! request line, grows the header store line by line, and takes the
//! payload the `content-length` header announces.

use vstd::prelude::*;
use vstd::utf8::decode_utf8;
use vstd::utf8::valid_utf8;

use crate::assoc::assoc_update;
use crate::assoc::lookup;
use crate::assoc::unique_keys;
use crate::headers::header_line_kv;
use crate::headers::HeaderError;
use crate::headers::Headers;
use crate::method::parse_method;
use crate::method::Method;
use crate::numdec::dec_value;
use crate::numdec::is_dec_seq;
use crate::strutil::find_byte;
use crate::strutil::first_pos;
use crate::strutil::lemma_first_pos;
use crate::strutil::lower_seq;
use crate::strutil::ws_split;
use crate::uri::uri_params;
use crate::uri::uri_path;
use crate::uri::Uri;
use crate::version::parse_version;
use crate::version::HttpVersion;

verus! {

/// A parsed HTTP request message.
#[derive(Debug)]
pub struct Request {
    pub method: Method,
    pub uri: Uri,
    pub headers: Headers,
    pub payload: Vec<u8>,
    pub version: HttpVersion,
}

/// The ways a byte stream can fail to be a request message.
#[derive(Clone, Copy, Debug, PartialEq, Eq, Structural)]
pub enum RequestParseError {
    CantReadRequest,
    RequestMalformed,
    UrlMalformed,
    VersionMalformed,
    UnknownMethod,
    UnsupportedVersion,
}

/// Relies on std's `str::from_utf8`: it succeeds exactly on valid UTF-8
/// and yields the characters those bytes encode.
#[verifier::external_body]
fn utf8_to_string(b: &[u8]) -> (r: Option<String>)
    ensures
        match r {
            Some(s) => valid_utf8(b@) && s@ == decode_utf8(b@),
            None => !valid_utf8(b@),
        },
{
    match std::str::from_utf8(b) {
        Ok(s) => Some(s.to_owned()),
        Err(_) => None,
    }
}

/// What a token-wise read of the request line yields: the method, the
/// raw request-target token, and the version, or the error naming the
/// first token that is missing or wrong.
pub open spec fn spec_parse_first_line(l: Seq<char>) -> Result<
    (Method, Seq<char>, HttpVersion),
    RequestParseError,
> {
    let ts = ws_split(l);
    if ts.len() == 0 {
        Err(RequestParseError::RequestMalformed)
    } else {
        match parse_method(ts[0]) {
            None => Err(RequestParseError::UnknownMethod),
            Some(m) => if ts.len() == 1 || ts.len() == 2 {
                Err(RequestParseError::RequestMalformed)
            } else {
                match parse_version(ts[2]) {
                    None => Err(RequestParseError::VersionMalformed),
                    Some(v) => Ok((m, ts[1], v)),
                }
            },
        }
    }
}

/// One wire line: the bytes up to and including the first line feed, or
/// all that is left when none remains, and the bytes after it.
pub open spec fn take_line(b: Seq<u8>) -> (Seq<u8>, Seq<u8>) {
    match first_pos(b, 10u8) {
        Some(i) => (b.take(i + 1), b.skip(i + 1)),
        None => (b, Seq::<u8>::empty()),
    }
}

/// A line without its ending: a trailing line feed goes, and a carriage
/// return directly before it goes with it.
pub open spec fn strip_line_ending(l: Seq<u8>) -> Seq<u8> {
    if l.len() >= 2 && l[l.len() - 2] == 13 && l[l.len() - 1] == 10 {
        l.take(l.len() - 2)
    } else if l.len() >= 1 && l[l.len() - 1] == 10 {
        l.take(l.len() - 1)
    } else {
        l
    }
}

/// Reads header lines into the store until the bare `\r\n` line, the
/// end of the bytes, or a line that is not text (which is consumed and
/// dropped); yields the grown store and the bytes after the headers.
pub open spec fn spec_parse_headers(
    b: Seq<u8>,
    m: Seq<(Seq<char>, Option<Seq<char>>)>,
) -> (Seq<(Seq<char>, Option<Seq<char>>)>, Seq<u8>)
    decreases b.len(),
{
    if b.len() == 0 {
        (m, b)
    } else {
        match first_pos(b, 10u8) {
            Some(i) => if 0 <= i < b.len() {
                // A found position is always in range; the bound keeps
                // the recursion visibly well-founded.
                let line = b.take(i + 1);
                let rest = b.skip(i + 1);
                if line == seq![13u8, 10u8] {
                    (m, rest)
                } else {
                    let core = strip_line_ending(line);
                    if valid_utf8(core) {
                        let l = decode_utf8(core);
                        spec_parse_headers(
                            rest,
                            assoc_update(m, lower_seq(header_line_kv(l).0), header_line_kv(l).1),
                        )
                    } else {
                        (m, rest)
                    }
                }
            } else {
                (m, Seq::<u8>::empty())
            },
            None => {
                let core = strip_line_ending(b);
                if valid_utf8(core) {
                    let l = decode_utf8(core);
                    (
                        assoc_update(m, lower_seq(header_line_kv(l).0), header_line_kv(l).1),
                        Seq::<u8>::empty(),
                    )
                } else {
                    (m, Seq::<u8>::empty())
                }
            },
        }
    }
}

/// The parts of a parsed request, as the wire algorithm determines them.
pub ghost struct RequestModel {
    pub method: Method,
    pub target: Seq<char>,
    pub version: HttpVersion,
    pub headers: Seq<(Seq<char>, Option<Seq<char>>)>,
    pub payload: Seq<u8>,
}

/// The whole parse: the request line, then the headers, then exactly
/// the payload bytes the `content-length` header announces. A missing
/// header means an empty payload; one without a usable size fails the
/// parse; too few payload bytes fail it as a short read.
pub open spec fn spec_parse_request(input: Seq<u8>) -> Result<RequestModel, RequestParseError> {
    if input.len() == 0 {
        Err(RequestParseError::RequestMalformed)
    } else {
        let line = take_line(input).0;
        let rest = take_line(input).1;
        if !valid_utf8(line) {
            Err(RequestParseError::CantReadRequest)
        } else {
            match spec_parse_first_line(decode_utf8(line)) {
                Err(e) => Err(e),
                Ok((m, target, v)) => {
                    let hm = spec_parse_headers(rest, Seq::empty()).0;
                    let body = spec_parse_headers(rest, Seq::empty()).1;
                    match lookup(hm, "content-length"@) {
                        None => Ok(
                            RequestModel {
                                method: m,
                                target,
                                version: v,
                                headers: hm,
                                payload: Seq::<u8>::empty(),
                            },
                        ),
                        Some(None) => Err(RequestParseError::RequestMalformed),
                        Some(Some(t)) => if is_dec_seq(t) && dec_value(t) <= usize::MAX {
                            if body.len() >= dec_value(t) {
                                Ok(
                                    RequestModel {
                                        method: m,
                                        target,
                                        version: v,
                                        headers: hm,
                                        payload: body.take(dec_value(t) as int),
                                    },
                                )
                            } else {
                                Err(RequestParseError::CantReadRequest)
                            }
                        } else {
                            Err(RequestParseError::RequestMalformed)
                        },
                    }
                },
            }
        }
    }
}

/// The readable text of a request: its request line, the header block,
/// and the payload where it is text (other payload bytes are left out).
pub open spec fn request_text(r: Request) -> Seq<char> {
    crate::method::method_text(r.method) + seq![' '] + r.uri.raw@ + seq![' ']
        + crate::version::version_text(r.version) + seq!['\n'] + crate::headers::headers_block_text(
        r.headers@,
    ) + (if valid_utf8(r.payload@) {
        decode_utf8(r.payload@)
    } else {
        Seq::<char>::empty()
    })
}

impl Request {
    /// The request as readable text, for looking at what came in.
    pub fn to_string(&self) -> (r: String)
        ensures
            r@ == request_text(*self),
    {
        let mut s = self.method.to_string();
        s.push(' ');
        s.append(self.uri.to_string().as_str());
        s.push(' ');
        s.append(self.version.to_string().as_str());
        s.push('\n');
        s.append(self.headers.to_string().as_str());
        match utf8_to_string(self.payload.as_slice()) {
            Some(p) => s.append(p.as_str()),
            None => {},
        }
        proof {
            assert(s@ =~= request_text(*self));
        }
        s
    }

    /// Reads the request line: the first token must name a method, the
    /// second is the request-target, the third must name a version.
    pub fn parse_first_line(l: &str) -> (r: Result<
        (Method, Uri, HttpVersion),
        RequestParseError,
    >)
        ensures
            match spec_parse_first_line(l@) {
                Ok(p) => r matches Ok(q) && q.0 == p.0 && q.2 == p.2 && q.1.path@ == uri_path(p.1)
                    && q.1.raw@ == p.1 && q.1.params@ == uri_params(p.1) && unique_keys(
                    q.1.params@,
                ),
                Err(e) => r matches Err(e2) && e2 == e,
            },
    {
        let toks = crate::strutil::ws_tokens(l);
        if toks.len() == 0 {
            return Err(RequestParseError::RequestMalformed);
        }
        let method = match Method::from_str(toks[0].as_str()) {
            Ok(m) => m,
            Err(_) => {
                return Err(RequestParseError::UnknownMethod);
            },
        };
        if toks.len() == 1 {
            return Err(RequestParseError::RequestMalformed);
        }
        let uri = match Uri::from_str(toks[1].as_str()) {
            Ok(u) => u,
            Err(_) => {
                return Err(RequestParseError::UrlMalformed);
            },
        };
        if toks.len() == 2 {
            return Err(RequestParseError::RequestMalformed);
        }
        let version = match HttpVersion::from_str(toks[2].as_str()) {
            Ok(v) => v,
            Err(_) => {
                return Err(RequestParseError::VersionMalformed);
            },
        };
        Ok((method, uri, version))
    }

    /// Parses one whole request message from its bytes.
    pub fn parse(input: &[u8]) -> (r: Result<Request, RequestParseError>)
        ensures
            match spec_parse_request(input@) {
                Ok(p) => r matches Ok(req) && req.method == p.method && req.version == p.version
                    && req.uri.path@ == uri_path(p.target) && req.uri.raw@ == p.target
                    && req.uri.params@ == uri_params(p.target) && req.headers@ == p.headers
                    && req.headers.wf() && req.payload@ == p.payload,
                Err(e) => r matches Err(e2) && e2 == e,
            },
    {
        let n = input.len();
        if n == 0 {
            return Err(RequestParseError::RequestMalformed);
        }
        let line_end = match find_byte(input, 10u8) {
            Some(i) => {
                proof {
                    lemma_first_pos(input@, 10u8);
                }
                i + 1
            },
            None => n,
        };
        let first_line = vstd::slice::slice_subrange(input, 0, line_end);
        proof {
            assert(first_line@ =~= take_line(input@).0);
        }
        let parsed = match utf8_to_string(first_line) {
            None => {
                return Err(RequestParseError::CantReadRequest);
            },
            Some(s) => match Self::parse_first_line(s.as_str()) {
                Ok(t) => t,
                Err(e) => {
                    return Err(e);
                },
            },
        };
        let (method, uri, version) = parsed;
        let mut rem = vstd::slice::slice_subrange(input, line_end, n);
        proof {
            assert(rem@ =~= take_line(input@).1);
        }
        let ghost hspec = spec_parse_headers(rem@, Seq::empty());
        let mut headers = Headers::new();
        let mut scanning = true;
        while scanning
            invariant
                headers.wf(),
                scanning ==> spec_parse_headers(rem@, headers@) == hspec,
                !scanning ==> headers@ == hspec.0 && rem@ == hspec.1,
            decreases rem@.len() + (if scanning {
                1int
            } else {
                0int
            }),
        {
            let rn = rem.len();
            if rn == 0 {
                scanning = false;
            } else {
                let le = match find_byte(rem, 10u8) {
                    Some(i) => {
                        proof {
                            lemma_first_pos(rem@, 10u8);
                        }
                        i + 1
                    },
                    None => rn,
                };
                let ghost old_rem = rem@;
                let ghost old_hdrs = headers@;
                let line = vstd::slice::slice_subrange(rem, 0, le);
                if le == 2 && *vstd::slice::slice_index_get(line, 0) == 13 && *vstd::slice::slice_index_get(line, 1) == 10 {
                    rem = vstd::slice::slice_subrange(rem, le, rn);
                    scanning = false;
                    proof {
                        lemma_first_pos(old_rem, 10u8);
                        assert(line@ =~= seq![13u8, 10u8]);
                        assert(line@ =~= old_rem.take(2int));
                        assert(rem@ =~= old_rem.skip(2int));
                    }
                } else {
                    let core_end = if le >= 2 && *vstd::slice::slice_index_get(line, le - 2) == 13
                        && *vstd::slice::slice_index_get(line, le - 1) == 10 {
                        le - 2
                    } else if le >= 1 && *vstd::slice::slice_index_get(line, le - 1) == 10 {
                        le - 1
                    } else {
                        le
                    };
                    let core = vstd::slice::slice_subrange(rem, 0, core_end);
                    proof {
                        lemma_first_pos(old_rem, 10u8);
                        match first_pos(old_rem, 10u8) {
                            Some(i) => {
                                assert(line@ =~= old_rem.take(i + 1));
                                assert(core@ =~= strip_line_ending(line@));
                            },
                            None => {
                                assert(line@ =~= old_rem);
                                assert(core@ =~= strip_line_ending(old_rem));
                            },
                        }
                    }
                    match utf8_to_string(core) {
                        Some(s) => {
                            headers.add_from_line(s.as_str());
                            rem = vstd::slice::slice_subrange(rem, le, rn);
                            proof {
                                match first_pos(old_rem, 10u8) {
                                    Some(i) => {
                                        assert(rem@ =~= old_rem.skip(i + 1));
                                        assert(old_rem.take(i + 1) != seq![13u8, 10u8]);
                                    },
                                    None => {
                                        assert(rem@ =~= Seq::<u8>::empty());
                                        assert(spec_parse_headers(rem@, headers@) == (
                                            headers@,
                                            Seq::<u8>::empty(),
                                        ));
                                    },
                                }
                            }
                        },
                        None => {
                            rem = vstd::slice::slice_subrange(rem, le, rn);
                            scanning = false;
                            proof {
                                match first_pos(old_rem, 10u8) {
                                    Some(i) => {
                                        assert(rem@ =~= old_rem.skip(i + 1));
                                        assert(old_rem.take(i + 1) != seq![13u8, 10u8]);
                                    },
                                    None => {
                                        assert(rem@ =~= Seq::<u8>::empty());
                                    },
                                }
                            }
                        },
                    }
                }
            }
        }
        let cl = match headers.content_length() {
            Ok(c) => c,
            Err(e) => match e {
                HeaderError::NotFound => 0,
                _ => {
                    return Err(RequestParseError::RequestMalformed);
                },
            },
        };
        if rem.len() < cl {
            return Err(RequestParseError::CantReadRequest);
        }
        let payload = vstd::slice::slice_to_vec(vstd::slice::slice_subrange(rem, 0, cl));
        proof {
            assert(payload@ =~= hspec.1.take(cl as int));
        }
        Ok(Request { method, uri, headers, payload, version })
    }
}

} // verus!
