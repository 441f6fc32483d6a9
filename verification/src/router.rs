//! Routing: an ordered list of handler entries, scanned front to back;
//! an entry wins when it serves the request's method and its glob
//! pattern matches the path. A fixed default entry stands for the case
//! that nothing matches.

use vstd::prelude::*;
use vstd::utf8::encode_utf8;

use crate::method::method_text;
use crate::method::Method;
use crate::response::Response;
use crate::response::Status;
use crate::version::HttpVersion;

verus! {

/// What glob matching decides for a pattern text and a path: whether
/// the shell-style pattern compiled from the text matches the whole
/// path. A pattern text that does not compile matches no path.
pub uninterp spec fn glob_matches(pattern: Seq<char>, path: Seq<char>) -> bool;

/// Relies on glob::Pattern::new and glob::Pattern::matches, under the
/// crate's default match options: what the two together decide depends
/// on the pattern text and the path alone, and a pattern that does not
/// compile matches nothing. (For recursive `**` patterns the crate
/// consults the target's path-separator set, which is fixed for a
/// build of this library; the `*` patterns of route tables never
/// reach it.)
#[verifier::external_body]
fn glob_match(pattern: &str, path: &str) -> (r: bool)
    ensures
        r == glob_matches(pattern@, path@),
{
    match glob::Pattern::new(pattern) {
        Ok(p) => p.matches(path),
        Err(_) => false,
    }
}

/// One route entry: the methods it serves, the glob pattern its paths
/// must match, and the registrant's identifier for the callable that
/// answers such requests.
pub struct Handler {
    pub methods: Vec<Method>,
    pub pattern: String,
    pub id: usize,
}

/// Whether an entry answers a request for `m` on `path`.
pub open spec fn handler_matches(h: Handler, m: Method, path: Seq<char>) -> bool {
    h.methods@.contains(m) && glob_matches(h.pattern@, path)
}

/// The position of the first entry that answers `m` on `path`, if any.
pub open spec fn first_match(hs: Seq<Handler>, m: Method, path: Seq<char>) -> Option<int>
    decreases hs.len(),
{
    if hs.len() == 0 {
        None
    } else if handler_matches(hs[0], m, path) {
        Some(0int)
    } else {
        match first_match(hs.drop_first(), m, path) {
            Some(i) => Some(i + 1),
            None => None,
        }
    }
}

/// What `first_match` finds answers the request, and no earlier entry
/// does; when it finds nothing, no entry answers.
pub proof fn lemma_first_match(hs: Seq<Handler>, m: Method, path: Seq<char>)
    ensures
        match first_match(hs, m, path) {
            Some(i) => 0 <= i < hs.len() && handler_matches(hs[i], m, path) && (forall|j: int|
                0 <= j < i ==> !handler_matches(hs[j], m, path)),
            None => forall|j: int| 0 <= j < hs.len() ==> !handler_matches(hs[j], m, path),
        },
    decreases hs.len(),
{
    if hs.len() > 0 && !handler_matches(hs[0], m, path) {
        lemma_first_match(hs.drop_first(), m, path);
        match first_match(hs.drop_first(), m, path) {
            Some(i) => {
                assert forall|j: int| 0 <= j < i + 1 implies !handler_matches(hs[j], m, path) by {
                    if j > 0 {
                        assert(!handler_matches(hs.drop_first()[j - 1], m, path));
                    }
                }
            },
            None => {
                assert forall|j: int| 0 <= j < hs.len() implies !handler_matches(
                    hs[j],
                    m,
                    path,
                ) by {
                    if j > 0 {
                        assert(!handler_matches(hs.drop_first()[j - 1], m, path));
                    }
                }
            },
        }
    }
}

/// An answering entry at `i` with none before it is what `first_match`
/// finds.
pub proof fn lemma_first_match_found(hs: Seq<Handler>, m: Method, path: Seq<char>, i: int)
    requires
        0 <= i < hs.len(),
        handler_matches(hs[i], m, path),
        forall|j: int| 0 <= j < i ==> !handler_matches(hs[j], m, path),
    ensures
        first_match(hs, m, path) == Some(i),
    decreases i,
{
    if i > 0 {
        lemma_first_match_found(hs.drop_first(), m, path, i - 1);
    }
}

fn method_in(v: &Vec<Method>, m: &Method) -> (r: bool)
    ensures
        r == v@.contains(*m),
{
    let n = v.len();
    let mut i: usize = 0;
    while i < n
        invariant
            i <= n,
            n == v@.len(),
            forall|j: int| 0 <= j < i ==> v@[j] != *m,
        decreases n - i,
    {
        if v[i] == *m {
            return true;
        }
        i = i + 1;
    }
    false
}

/// The ordered route table. Entries are scanned front to back, so a
/// later registration shadows an earlier one it overlaps with.
pub struct Handlers {
    handlers: Vec<Handler>,
    default_handler: Handler,
}

impl Handlers {
    /// The registered entries, frontmost first.
    pub closed spec fn entries(&self) -> Seq<Handler> {
        self.handlers@
    }

    /// The entry handed out when nothing matches.
    pub closed spec fn default_entry(&self) -> Handler {
        self.default_handler
    }

    /// An empty table. Its default entry carries identifier 0; the
    /// registrant keeps that identifier for its catch-all callable.
    pub fn new() -> (r: Handlers)
        ensures
            r.entries() == Seq::<Handler>::empty(),
            r.default_entry().methods@ == seq![Method::GET],
            r.default_entry().pattern@ == "/"@,
            r.default_entry().id == 0,
    {
        let mut methods = Vec::new();
        methods.push(Method::GET);
        let r = Handlers {
            handlers: Vec::new(),
            default_handler: Handler {
                methods,
                pattern: String::from_str("/"),
                id: 0,
            },
        };
        proof {
            assert(r.entries() =~= Seq::<Handler>::empty());
            assert(r.default_entry().methods@ =~= seq![Method::GET]);
        }
        r
    }

    /// Puts a new entry at the front of the table, where it shadows
    /// every older entry it overlaps with.
    pub fn register(&mut self, h: Handler)
        ensures
            final(self).entries() == seq![h] + old(self).entries(),
            final(self).default_entry() == old(self).default_entry(),
    {
        self.handlers.insert(0, h);
        proof {
            assert(self.entries() =~= seq![h] + old(self).entries());
        }
    }

    /// Finds the frontmost entry that serves `m` and whose pattern
    /// matches `uri`; when none does, hands out the default entry and
    /// says so.
    pub fn get(&self, m: &Method, uri: &str) -> (r: (bool, &Handler))
        ensures
            match first_match(self.entries(), *m, uri@) {
                Some(i) => r.0 == true && *r.1 == self.entries()[i],
                None => r.0 == false && *r.1 == self.default_entry(),
            },
    {
        let n = self.handlers.len();
        let mut i: usize = 0;
        while i < n
            invariant
                i <= n,
                n == self.entries().len(),
                forall|j: int| 0 <= j < i ==> !handler_matches(self.entries()[j], *m, uri@),
            decreases n - i,
        {
            let h = &self.handlers[i];
            if method_in(&h.methods, m) && glob_match(h.pattern.as_str(), uri) {
                proof {
                    lemma_first_match_found(self.entries(), *m, uri@, i as int);
                }
                return (true, h);
            }
            i = i + 1;
        }
        proof {
            lemma_first_match(self.entries(), *m, uri@);
        }
        (false, &self.default_handler)
    }
}

/// The answer when no entry matches: a `404 Not Found` whose body names
/// the method and path that went unserved.
pub fn not_found_response(m: &Method, path: &str) -> (r: Response)
    ensures
        r.version == HttpVersion::HTTP1_1,
        r.status == Status::NotFound,
        r.headers@ == seq![("server"@, Some("rusty-server"@)), ("connection"@, Some("close"@))],
        r.headers.wf(),
        r.payload@ == encode_utf8(
            "no handler found for "@ + method_text(*m) + seq![' '] + path@,
        ),
{
    let mut msg = String::from_str("no handler found for ");
    msg.append(m.to_string().as_str());
    msg.push(' ');
    msg.append(path);
    proof {
        assert(msg@ =~= "no handler found for "@ + method_text(*m) + seq![' '] + path@);
    }
    Response::new(Status::NotFound, msg.as_str())
}

/// The later of two registrations wins: when `a` and then `b` are
/// registered and both answer a request, the table resolves that
/// request to `b`, which stands at the front.
pub proof fn lemma_last_registered_wins(
    hs: Seq<Handler>,
    a: Handler,
    b: Handler,
    m: Method,
    path: Seq<char>,
)
    requires
        handler_matches(a, m, path),
        handler_matches(b, m, path),
    ensures
        first_match(seq![b] + (seq![a] + hs), m, path) == Some(0int),
        (seq![b] + (seq![a] + hs))[0] == b,
{
    assert((seq![b] + (seq![a] + hs))[0] == b);
}

} // verus!
