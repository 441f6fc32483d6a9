//! The response message: a status with its fixed reason phrase, the
//! header block, the payload, and the byte-exact wire serialization
//! with the `content-length` header stamped from the payload.

use vstd::prelude::*;
use vstd::utf8::encode_utf8;

use crate::assoc::assoc_update;
use crate::assoc::lookup;
use crate::headers::headers_block_text;
use crate::headers::lemma_lower_strlit_content_length;
use crate::headers::Headers;
use crate::numdec::dec_repr;
use crate::numdec::dec_value;
use crate::numdec::is_dec_seq;
use crate::numdec::lemma_dec_repr_value;
use crate::numdec::usize_to_dec_string;
use crate::version::version_text;
use crate::version::HttpVersion;

verus! {

/// The status codes the server can answer with, each carrying its fixed
/// reason phrase.
#[derive(Clone, Copy, Debug, PartialEq, Eq, Structural)]
pub enum Status {
    Okay,
    Created,
    Accepted,
    NonAuthoritativeInformation,
    NoContent,
    ResetContent,
    PartialContent,
    NotFound,
    InternalServerError,
    HttpVersionNotSupported,
}

/// The numeric code of a status.
pub open spec fn status_code(s: Status) -> nat {
    match s {
        Status::Okay => 200,
        Status::Created => 201,
        Status::Accepted => 202,
        Status::NonAuthoritativeInformation => 203,
        Status::NoContent => 204,
        Status::ResetContent => 205,
        Status::PartialContent => 206,
        Status::NotFound => 404,
        Status::InternalServerError => 500,
        Status::HttpVersionNotSupported => 505,
    }
}

/// The fixed reason phrase of a status.
pub open spec fn status_reason(s: Status) -> Seq<char> {
    match s {
        Status::Okay => "OK"@,
        Status::Created => "Created"@,
        Status::Accepted => "Accepted"@,
        Status::NonAuthoritativeInformation => "Non-Authoritative Information"@,
        Status::NoContent => "No Content"@,
        Status::ResetContent => "Reset Content"@,
        Status::PartialContent => "Partial Content"@,
        Status::NotFound => "Not Found"@,
        Status::InternalServerError => "Internal Server Error"@,
        Status::HttpVersionNotSupported => "HTTP Version Not Supported"@,
    }
}

/// The status as it stands in the response's first line: the code in
/// decimal, a space, the reason phrase.
pub open spec fn status_text(s: Status) -> Seq<char> {
    dec_repr(status_code(s)) + seq![' '] + status_reason(s)
}

impl Status {
    /// The numeric code of this status.
    pub fn code(&self) -> (r: u16)
        ensures
            r as nat == status_code(*self),
    {
        match self {
            Status::Okay => 200,
            Status::Created => 201,
            Status::Accepted => 202,
            Status::NonAuthoritativeInformation => 203,
            Status::NoContent => 204,
            Status::ResetContent => 205,
            Status::PartialContent => 206,
            Status::NotFound => 404,
            Status::InternalServerError => 500,
            Status::HttpVersionNotSupported => 505,
        }
    }

    /// The code and reason phrase, as the response's first line shows
    /// them.
    pub fn to_string(&self) -> (r: String)
        ensures
            r@ == status_text(*self),
    {
        let mut s = usize_to_dec_string(self.code() as usize);
        s.push(' ');
        match self {
            Status::Okay => s.append("OK"),
            Status::Created => s.append("Created"),
            Status::Accepted => s.append("Accepted"),
            Status::NonAuthoritativeInformation => s.append("Non-Authoritative Information"),
            Status::NoContent => s.append("No Content"),
            Status::ResetContent => s.append("Reset Content"),
            Status::PartialContent => s.append("Partial Content"),
            Status::NotFound => s.append("Not Found"),
            Status::InternalServerError => s.append("Internal Server Error"),
            Status::HttpVersionNotSupported => s.append("HTTP Version Not Supported"),
        }
        proof {
            assert(s@ =~= status_text(*self));
        }
        s
    }
}

/// A response message.
pub struct Response {
    pub version: HttpVersion,
    pub status: Status,
    pub headers: Headers,
    pub payload: Vec<u8>,
}

/// The text of everything before the payload: the status line and the
/// header block.
pub open spec fn response_head_text(r: Response) -> Seq<char> {
    version_text(r.version) + seq![' '] + status_text(r.status) + seq!['\r', '\n']
        + headers_block_text(r.headers@)
}

/// The serialized response: the head as UTF-8 bytes, then the payload
/// bytes as they are.
pub open spec fn response_bytes(r: Response) -> Seq<u8> {
    encode_utf8(response_head_text(r)) + r.payload@
}

/// Relies on std's `io::Write::write`: a single write of the buffer; on
/// success the count written is at most the buffer's length.
#[verifier::external_body]
fn write_bytes_to<T: std::io::Write>(mut s: T, bytes: &Vec<u8>) -> (r: Result<
    usize,
    std::io::Error,
>)
    ensures
        r matches Ok(n) ==> n <= bytes@.len(),
{
    s.write(bytes.as_slice())
}

#[verifier::external_type_specification]
#[verifier::external_body]
pub struct ExIoError(std::io::Error);

impl Response {
    /// A response for a status and a plain text body: version HTTP/1.1
    /// and the default header set.
    pub fn new(status: Status, msg: &str) -> (r: Response)
        ensures
            r.version == HttpVersion::HTTP1_1,
            r.status == status,
            r.headers@ == seq![("server"@, Some("rusty-server"@)), ("connection"@, Some("close"@))],
            r.headers.wf(),
            r.payload@ == encode_utf8(msg@),
    {
        Response {
            version: HttpVersion::HTTP1_1,
            status,
            headers: Headers::default(),
            payload: vstd::slice::slice_to_vec(msg.as_bytes()),
        }
    }

    /// An empty-bodied `200 OK` under the given version.
    pub fn ok(v: HttpVersion) -> (r: Response)
        ensures
            r.version == v,
            r.status == Status::Okay,
            r.headers@ == seq![("server"@, Some("rusty-server"@)), ("connection"@, Some("close"@))],
            r.headers.wf(),
            r.payload@ == Seq::<u8>::empty(),
    {
        let r = Response {
            version: v,
            status: Status::Okay,
            headers: Headers::default(),
            payload: Vec::new(),
        };
        proof {
            assert(r.payload@ =~= Seq::<u8>::empty());
        }
        r
    }

    /// An empty-bodied `500 Internal Server Error` under the given
    /// version.
    pub fn internal_server_error(v: HttpVersion) -> (r: Response)
        ensures
            r.version == v,
            r.status == Status::InternalServerError,
            r.headers@ == seq![("server"@, Some("rusty-server"@)), ("connection"@, Some("close"@))],
            r.headers.wf(),
            r.payload@ == Seq::<u8>::empty(),
    {
        let r = Response {
            version: v,
            status: Status::InternalServerError,
            headers: Headers::default(),
            payload: Vec::new(),
        };
        proof {
            assert(r.payload@ =~= Seq::<u8>::empty());
        }
        r
    }

    /// An empty-bodied `200 OK` under HTTP/1.0.
    pub fn ok_1() -> (r: Response)
        ensures
            r.version == HttpVersion::HTTP1_0,
            r.status == Status::Okay,
            r.headers@ == seq![("server"@, Some("rusty-server"@)), ("connection"@, Some("close"@))],
            r.headers.wf(),
            r.payload@ == Seq::<u8>::empty(),
    {
        Response::ok(HttpVersion::HTTP1_0)
    }

    /// An empty-bodied `200 OK` under HTTP/1.1.
    pub fn ok_1_1() -> (r: Response)
        ensures
            r.version == HttpVersion::HTTP1_1,
            r.status == Status::Okay,
            r.headers@ == seq![("server"@, Some("rusty-server"@)), ("connection"@, Some("close"@))],
            r.headers.wf(),
            r.payload@ == Seq::<u8>::empty(),
    {
        Response::ok(HttpVersion::HTTP1_1)
    }

    /// Stamps the `content-length` header from the payload's present
    /// length, overwriting whatever stood there.
    pub fn set_content_length(&mut self) -> (r: ())
        ensures
            final(self).headers@ == assoc_update(
                old(self).headers@,
                "content-length"@,
                Some(dec_repr(old(self).payload@.len())),
            ),
            final(self).payload == old(self).payload,
            final(self).status == old(self).status,
            final(self).version == old(self).version,
            old(self).headers.wf() ==> final(self).headers.wf(),
    {
        let len = self.payload.len();
        proof {
            lemma_lower_strlit_content_length();
        }
        self.headers.add(String::from_str("content-length"), Some(usize_to_dec_string(len)));
    }

    /// The serialized response: status line, header block, payload.
    pub fn to_bytes(&self) -> (r: Vec<u8>)
        ensures
            r@ == response_bytes(*self),
    {
        let mut head = self.version.to_string();
        head.push(' ');
        head.append(self.status.to_string().as_str());
        head.push('\r');
        head.push('\n');
        head.append(self.headers.to_string().as_str());
        proof {
            assert(head@ =~= response_head_text(*self));
        }
        let mut out = head.as_str().as_bytes_vec();
        let mut tail = vstd::slice::slice_to_vec(self.payload.as_slice());
        out.append(&mut tail);
        proof {
            assert(out@ =~= response_bytes(*self));
        }
        out
    }

    /// Stamps the `content-length` header, serializes the response, and
    /// writes it to the sink in one call, handing back what the sink
    /// reported.
    pub fn write_to<T: std::io::Write>(&mut self, s: T) -> (r: Result<usize, std::io::Error>)
        ensures
            final(self).headers@ == assoc_update(
                old(self).headers@,
                "content-length"@,
                Some(dec_repr(old(self).payload@.len())),
            ),
            final(self).payload == old(self).payload,
            final(self).status == old(self).status,
            final(self).version == old(self).version,
            old(self).headers.wf() ==> final(self).headers.wf(),
            r matches Ok(n) ==> n <= response_bytes(*final(self)).len(),
    {
        self.set_content_length();
        let bytes = self.to_bytes();
        write_bytes_to(s, &bytes)
    }
}

/// The stamped length always reads back as exactly the payload length:
/// whatever stood under `content-length` before, after the stamp the
/// store holds the decimal numeral of `n`, and that numeral parses back
/// to `n`.
pub proof fn lemma_content_length_round_trip(
    m: Seq<(Seq<char>, Option<Seq<char>>)>,
    n: nat,
)
    ensures
        lookup(assoc_update(m, "content-length"@, Some(dec_repr(n))), "content-length"@) == Some(
            Some(dec_repr(n)),
        ),
        is_dec_seq(dec_repr(n)),
        dec_value(dec_repr(n)) == n,
{
    crate::assoc::lemma_assoc_update_lookup(m, "content-length"@, Some(dec_repr(n)), "content-length"@);
    lemma_dec_repr_value(n);
}

} // verus!
