use vstd::prelude::*;

mod assoc;
mod headers;
mod method;
mod numdec;
mod request;
mod response;
mod router;
mod strutil;
mod uri;
mod version;

pub use assoc::AssocList;
pub use headers::HeaderError;
pub use headers::Headers;
pub use method::Method;
pub use method::MethodParseError;
pub use request::Request;
pub use request::RequestParseError;
pub use response::Response;
pub use response::Status;
pub use router::not_found_response;
pub use router::Handler;
pub use router::Handlers;
pub use uri::Uri;
pub use version::HttpVersion;

verus! {

} // verus!
