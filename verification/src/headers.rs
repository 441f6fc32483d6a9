//! The header store: a case-insensitive, single-value-per-key mapping
//! from header name to an optional text value, with line-based parsing
//! and wire serialization.

use vstd::prelude::*;

use crate::assoc::assoc_update;
use crate::assoc::clone_opt_text;
use crate::assoc::lookup;
use crate::assoc::opt_text_view;
use crate::assoc::unique_keys;
use crate::assoc::AssocList;
use crate::numdec::dec_value;
use crate::numdec::is_dec_seq;
use crate::numdec::parse_usize_dec;
use crate::strutil::first_pos;
use crate::strutil::lemma_lower_seq_idempotent;
use crate::strutil::lower_seq;
use crate::strutil::lower_string;
use crate::strutil::trim_seq;
use crate::strutil::trim_str;
use crate::strutil::find_char;

verus! {

/// The ways a header lookup can come back empty-handed: the key is not
/// there, the key is there with no value, or the value does not parse
/// as what the caller asked for.
#[derive(Clone, Copy, Debug, PartialEq, Eq, Structural)]
pub enum HeaderError {
    NotFound,
    NoValue,
    InvalidValue,
}

/// The words for each header lookup failure.
pub open spec fn header_error_text(e: HeaderError) -> Seq<char> {
    match e {
        HeaderError::NoValue => "header is defined but has no value"@,
        HeaderError::NotFound => "header is not defined"@,
        HeaderError::InvalidValue => "header is defined but has an invalid value, e.g. invalid int"@,
    }
}

impl HeaderError {
    /// Says in words what went wrong.
    pub fn message(&self) -> (r: String)
        ensures
            r@ == header_error_text(*self),
    {
        match self {
            HeaderError::NoValue => String::from_str("header is defined but has no value"),
            HeaderError::NotFound => String::from_str("header is not defined"),
            HeaderError::InvalidValue => String::from_str(
                "header is defined but has an invalid value, e.g. invalid int",
            ),
        }
    }
}

/// A case-insensitive store of header names to optional text values.
/// Every stored key is ASCII lower-case, and each key occurs once.
#[derive(Debug)]
pub struct Headers {
    store: AssocList,
}

impl View for Headers {
    type V = Seq<(Seq<char>, Option<Seq<char>>)>;

    closed spec fn view(&self) -> Seq<(Seq<char>, Option<Seq<char>>)> {
        self.store@
    }
}

/// The key and optional value a wire header line carries: the split is
/// on the first colon, a line without one is all key, an empty remainder
/// is no value, and a value is trimmed of surrounding ASCII whitespace.
pub open spec fn header_line_kv(l: Seq<char>) -> (Seq<char>, Option<Seq<char>>) {
    match first_pos(l, ':') {
        Some(i) => (
            l.take(i),
            if l.skip(i + 1).len() == 0 {
                None
            } else {
                Some(trim_seq(l.skip(i + 1)))
            },
        ),
        None => (l, None),
    }
}

/// The wire text of one stored header entry: `key: value` and a line
/// ending, with an absent value rendered as empty.
pub open spec fn header_line_text(e: (Seq<char>, Option<Seq<char>>)) -> Seq<char> {
    e.0 + seq![':', ' '] + (match e.1 {
        Some(v) => v,
        None => Seq::<char>::empty(),
    }) + seq!['\r', '\n']
}

/// The wire text of the stored entries, in storage order.
pub open spec fn headers_lines(m: Seq<(Seq<char>, Option<Seq<char>>)>) -> Seq<char>
    decreases m.len(),
{
    if m.len() == 0 {
        Seq::empty()
    } else {
        header_line_text(m[0]) + headers_lines(m.drop_first())
    }
}

/// The whole header block: every entry's line, closed by the blank line
/// that ends the headers on the wire.
pub open spec fn headers_block_text(m: Seq<(Seq<char>, Option<Seq<char>>)>) -> Seq<char> {
    headers_lines(m) + seq!['\r', '\n']
}

/// Appending an entry appends its line.
proof fn lemma_headers_lines_push(m: Seq<(Seq<char>, Option<Seq<char>>)>, e: (Seq<char>, Option<Seq<char>>))
    ensures
        headers_lines(m.push(e)) == headers_lines(m) + header_line_text(e),
    decreases m.len(),
{
    if m.len() == 0 {
        assert(m =~= Seq::<(Seq<char>, Option<Seq<char>>)>::empty());
        assert(m.push(e).drop_first() =~= m);
        assert(m.push(e)[0] == e);
        assert(headers_lines(m) == Seq::<char>::empty());
        assert(headers_lines(m.push(e)) == header_line_text(e) + headers_lines(m));
        assert(headers_lines(m.push(e)) =~= headers_lines(m) + header_line_text(e));
    } else {
        lemma_headers_lines_push(m.drop_first(), e);
        assert(m.push(e).drop_first() =~= m.drop_first().push(e));
        assert(m.push(e)[0] == m[0]);
        assert(headers_lines(m.push(e)) == header_line_text(m[0]) + headers_lines(
            m.drop_first().push(e),
        ));
        assert(header_line_text(m[0]) + (headers_lines(m.drop_first()) + header_line_text(e)) =~= (
        header_line_text(m[0]) + headers_lines(m.drop_first())) + header_line_text(e));
        assert(headers_lines(m) == header_line_text(m[0]) + headers_lines(m.drop_first()));
    }
}

impl Headers {
    /// Every stored key is its own lower-casing, and no key repeats.
    pub open spec fn wf(&self) -> bool {
        &&& unique_keys(self@)
        &&& forall|i: int| 0 <= i < self@.len() ==> #[trigger] self@[i].0 == lower_seq(self@[i].0)
    }

    /// The empty header store.
    pub fn new() -> (r: Headers)
        ensures
            r@ == Seq::<(Seq<char>, Option<Seq<char>>)>::empty(),
            r.wf(),
    {
        Headers { store: AssocList::new() }
    }

    /// The store every response starts from: it names this server and
    /// announces that the connection closes after the response.
    pub fn default() -> (r: Headers)
        ensures
            r@ == seq![
                ("server"@, Some("rusty-server"@)),
                ("connection"@, Some("close"@)),
            ],
            r.wf(),
    {
        let mut h = Headers::new();
        h.add(String::from_str("Server"), Some(String::from_str("rusty-server")));
        let ghost h1 = h@;
        proof {
            lemma_lower_strlit_server();
            crate::assoc::lemma_key_index(
                Seq::<(Seq<char>, Option<Seq<char>>)>::empty(),
                "server"@,
            );
            assert(h1 =~= seq![("server"@, Some("rusty-server"@))]);
        }
        h.add(String::from_str("Connection"), Some(String::from_str("close")));
        proof {
            lemma_lower_strlit_connection();
            reveal_strlit("server");
            reveal_strlit("connection");
            assert("server"@.len() != "connection"@.len());
            crate::assoc::lemma_key_index(h1, "connection"@);
            assert(h@ =~= seq![
                ("server"@, Some("rusty-server"@)),
                ("connection"@, Some("close"@)),
            ]);
        }
        h
    }

    /// Stores `v` under the lower-cased key, overwriting and returning
    /// any prior value for that key.
    pub fn add(&mut self, k: String, v: Option<String>) -> (prior: Option<Option<String>>)
        ensures
            final(self)@ == assoc_update(old(self)@, lower_seq(k@), opt_text_view(v)),
            match prior {
                Some(o) => lookup(old(self)@, lower_seq(k@)) == Some(opt_text_view(o)),
                None => lookup(old(self)@, lower_seq(k@)) is None,
            },
            old(self).wf() ==> final(self).wf(),
    {
        let lk = lower_string(k.as_str());
        let prior = self.store.insert(lk, v);
        proof {
            if old(self).wf() {
                lemma_lower_seq_idempotent(k@);
                crate::assoc::lemma_key_index(old(self)@, lower_seq(k@));
                match crate::assoc::key_index(old(self)@, lower_seq(k@)) {
                    Some(i) => {
                        assert(forall|j: int| 0 <= j < self@.len() ==> #[trigger] self@[j].0
                            == old(self)@[j].0);
                    },
                    None => {
                        assert(forall|j: int| 0 <= j < old(self)@.len() ==> #[trigger] self@[j].0
                            == old(self)@[j].0);
                        assert(self@[self@.len() - 1].0 == lower_seq(k@));
                    },
                }
            }
        }
        prior
    }

    /// Reads the value under the lower-cased key, telling a missing key
    /// from a key that is present without a value.
    pub fn get(&self, k: String) -> (r: Result<String, HeaderError>)
        ensures
            match r {
                Ok(s) => lookup(self@, lower_seq(k@)) == Some(Some(s@)),
                Err(HeaderError::NoValue) => lookup(self@, lower_seq(k@)) == Some(
                    None::<Seq<char>>,
                ),
                Err(HeaderError::NotFound) => lookup(self@, lower_seq(k@)) is None,
                Err(HeaderError::InvalidValue) => false,
            },
    {
        let lk = lower_string(k.as_str());
        match self.store.get(lk.as_str()) {
            Some(Some(v)) => Ok(v),
            Some(None) => Err(HeaderError::NoValue),
            None => Err(HeaderError::NotFound),
        }
    }

    /// Reads the `server` header.
    pub fn server(&self) -> (r: Result<String, HeaderError>)
        ensures
            match r {
                Ok(s) => lookup(self@, "server"@) == Some(Some(s@)),
                Err(HeaderError::NoValue) => lookup(self@, "server"@) == Some(None::<Seq<char>>),
                Err(HeaderError::NotFound) => lookup(self@, "server"@) is None,
                Err(HeaderError::InvalidValue) => false,
            },
    {
        proof {
            lemma_lower_strlit_server();
        }
        self.get(String::from_str("server"))
    }

    /// Reads the `content-length` header as a size: a missing key or a
    /// key without a value is reported as such, and a value that is not
    /// a decimal numeral that fits is `InvalidValue`.
    pub fn content_length(&self) -> (r: Result<usize, HeaderError>)
        ensures
            match lookup(self@, "content-length"@) {
                None => r == Err::<usize, HeaderError>(HeaderError::NotFound),
                Some(None) => r == Err::<usize, HeaderError>(HeaderError::NoValue),
                Some(Some(t)) => if is_dec_seq(t) && dec_value(t) <= usize::MAX {
                    r == Ok::<usize, HeaderError>((dec_value(t) as usize))
                } else {
                    r == Err::<usize, HeaderError>(HeaderError::InvalidValue)
                },
            },
    {
        proof {
            lemma_lower_strlit_content_length();
        }
        match self.get(String::from_str("content-length")) {
            Err(e) => Err(e),
            Ok(v) => match parse_usize_dec(v.as_str()) {
                Some(n) => Ok(n),
                None => Err(HeaderError::InvalidValue),
            },
        }
    }

    /// Parses one wire header line (its ending already stripped) and
    /// stores what it carries; the split key and value are handed back.
    pub fn add_from_line(&mut self, l: &str) -> (r: Result<(String, Option<String>), ()>)
        ensures
            r is Ok,
            r matches Ok(p) ==> p.0@ == header_line_kv(l@).0 && opt_text_view(p.1)
                == header_line_kv(l@).1,
            final(self)@ == assoc_update(
                old(self)@,
                lower_seq(header_line_kv(l@).0),
                header_line_kv(l@).1,
            ),
            old(self).wf() ==> final(self).wf(),
    {
        let n = l.unicode_len();
        let (k, v) = match find_char(l, ':') {
            Some(i) => {
                proof {
                    crate::strutil::lemma_first_pos(l@, ':');
                }
                let k = l.substring_char(0, i);
                let vraw = l.substring_char(i + 1, n);
                proof {
                    assert(l@.subrange(0, i as int) =~= l@.take(i as int));
                    assert(l@.subrange(i + 1, n as int) =~= l@.skip(i + 1));
                }
                if vraw.unicode_len() == 0 {
                    (k, None)
                } else {
                    (k, Some(trim_str(vraw).to_owned()))
                }
            },
            None => (l, None),
        };
        let ks = k.to_owned();
        let vc = clone_opt_text(&v);
        self.add(ks, v);
        Ok((k.to_owned(), vc))
    }

    /// The wire text of the whole header block, each entry in storage
    /// order as `key: value` with a line ending, closed by a blank line.
    pub fn to_string(&self) -> (r: String)
        ensures
            r@ == headers_block_text(self@),
    {
        let n = self.store.len();
        let mut s = String::new();
        let mut i: usize = 0;
        proof {
            assert(self@.take(0) =~= Seq::<(Seq<char>, Option<Seq<char>>)>::empty());
        }
        while i < n
            invariant
                i <= n,
                n == self@.len(),
                s@ == headers_lines(self@.take(i as int)),
            decreases n - i,
        {
            let e = self.store.entry_at(i);
            s.append(e.0.as_str());
            s.push(':');
            s.push(' ');
            match &e.1 {
                Some(v) => {
                    s.append(v.as_str());
                },
                None => {},
            }
            s.push('\r');
            s.push('\n');
            proof {
                lemma_headers_lines_push(self@.take(i as int), self@[i as int]);
                assert(self@.take(i + 1) =~= self@.take(i as int).push(self@[i as int]));
                assert(s@ =~= headers_lines(self@.take(i + 1)));
            }
            i = i + 1;
        }
        s.push('\r');
        s.push('\n');
        proof {
            assert(self@.take(n as int) =~= self@);
            assert(s@ =~= headers_block_text(self@));
        }
        s
    }
}

/// Reading is insensitive to case: once a header line stores its key
/// and value, asking under any spelling of the key whose ASCII
/// lower-casing agrees reads that value back, whatever else the store
/// holds.
pub proof fn lemma_get_case_insensitive(
    m: Seq<(Seq<char>, Option<Seq<char>>)>,
    l: Seq<char>,
    k: Seq<char>,
)
    requires
        lower_seq(k) == lower_seq(header_line_kv(l).0),
    ensures
        lookup(
            assoc_update(m, lower_seq(header_line_kv(l).0), header_line_kv(l).1),
            lower_seq(k),
        ) == Some(header_line_kv(l).1),
{
    crate::assoc::lemma_assoc_update_lookup(
        m,
        lower_seq(header_line_kv(l).0),
        header_line_kv(l).1,
        lower_seq(k),
    );
}

/// Lower-casing sends `"Server"` to `"server"`, which is already
/// lower-case.
proof fn lemma_lower_strlit_server()
    ensures
        lower_seq("Server"@) == "server"@,
        lower_seq("server"@) == "server"@,
{
    reveal_strlit("Server");
    reveal_strlit("server");
    assert(lower_seq("Server"@) =~= "server"@);
    assert(lower_seq("server"@) =~= "server"@);
}

/// Lower-casing sends `"Connection"` to `"connection"`.
proof fn lemma_lower_strlit_connection()
    ensures
        lower_seq("Connection"@) == "connection"@,
{
    reveal_strlit("Connection");
    reveal_strlit("connection");
    assert(lower_seq("Connection"@) =~= "connection"@);
}

/// `"content-length"` is already lower-case.
pub(crate) proof fn lemma_lower_strlit_content_length()
    ensures
        lower_seq("content-length"@) == "content-length"@,
{
    reveal_strlit("content-length");
    assert(lower_seq("content-length"@) =~= "content-length"@);
}

} // verus!
