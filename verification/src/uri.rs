//! The request-target: a path, the query parameters behind the first
//! `?`, and the original text kept verbatim.

use vstd::prelude::*;

use crate::assoc::assoc_update;
use crate::assoc::unique_keys;
use crate::assoc::AssocList;
use crate::strutil::first_pos;
use crate::strutil::lemma_first_pos;
use crate::strutil::find_char;

verus! {

/// The path part: everything before the first `?`, or the whole text
/// when there is none.
pub open spec fn uri_path(s: Seq<char>) -> Seq<char> {
    match first_pos(s, '?') {
        Some(i) => s.take(i),
        None => s,
    }
}

/// The query fragments: the text after the first `?` split on every
/// `&`, empty fragments kept.
pub open spec fn amp_split(q: Seq<char>) -> Seq<Seq<char>>
    decreases q.len(),
{
    match first_pos(q, '&') {
        Some(i) => if 0 <= i < q.len() {
            // A found position is always in range; the bound keeps the
            // recursion visibly well-founded.
            seq![q.take(i)] + amp_split(q.skip(i + 1))
        } else {
            seq![q]
        },
        None => seq![q],
    }
}

/// The key and optional value a query fragment carries: the split is on
/// the first `=`, a fragment without one is all key, and an empty
/// remainder is no value.
pub open spec fn frag_kv(f: Seq<char>) -> (Seq<char>, Option<Seq<char>>) {
    match first_pos(f, '=') {
        Some(i) => (
            f.take(i),
            if f.skip(i + 1).len() == 0 {
                None
            } else {
                Some(f.skip(i + 1))
            },
        ),
        None => (f, None),
    }
}

/// The store after writing every fragment's pair in order: a later
/// duplicate key overwrites an earlier one.
pub open spec fn insert_frags(
    m: Seq<(Seq<char>, Option<Seq<char>>)>,
    frags: Seq<Seq<char>>,
) -> Seq<(Seq<char>, Option<Seq<char>>)>
    decreases frags.len(),
{
    if frags.len() == 0 {
        m
    } else {
        insert_frags(assoc_update(m, frag_kv(frags[0]).0, frag_kv(frags[0]).1), frags.drop_first())
    }
}

/// The query parameters of a request-target: empty when it has no `?`.
pub open spec fn uri_params(s: Seq<char>) -> Seq<(Seq<char>, Option<Seq<char>>)> {
    match first_pos(s, '?') {
        Some(i) => insert_frags(Seq::empty(), amp_split(s.skip(i + 1))),
        None => Seq::empty(),
    }
}

/// A parsed request-target. `raw` holds the original text verbatim;
/// `path` never contains the query portion.
#[derive(Debug)]
pub struct Uri {
    pub path: String,
    pub params: AssocList,
    pub raw: String,
}

fn insert_frag(f: &str, params: &mut AssocList) -> (r: ())
    ensures
        final(params)@ == assoc_update(old(params)@, frag_kv(f@).0, frag_kv(f@).1),
        unique_keys(old(params)@) ==> unique_keys(final(params)@),
{
    let n = f.unicode_len();
    match find_char(f, '=') {
        Some(i) => {
            proof {
                lemma_first_pos(f@, '=');
            }
            let k = f.substring_char(0, i);
            let vraw = f.substring_char(i + 1, n);
            proof {
                assert(f@.subrange(0, i as int) =~= f@.take(i as int));
                assert(f@.subrange(i + 1, n as int) =~= f@.skip(i + 1));
            }
            let v = if vraw.unicode_len() == 0 {
                None
            } else {
                Some(vraw.to_owned())
            };
            params.insert(k.to_owned(), v);
        },
        None => {
            params.insert(f.to_owned(), None);
        },
    }
}

fn parse_query_into(q: &str, params: &mut AssocList)
    ensures
        final(params)@ == insert_frags(old(params)@, amp_split(q@)),
        unique_keys(old(params)@) ==> unique_keys(final(params)@),
    decreases q@.len(),
{
    let n = q.unicode_len();
    match find_char(q, '&') {
        Some(j) => {
            proof {
                lemma_first_pos(q@, '&');
            }
            let frag = q.substring_char(0, j);
            proof {
                assert(q@.subrange(0, j as int) =~= q@.take(j as int));
            }
            insert_frag(frag, params);
            let rest = q.substring_char(j + 1, n);
            proof {
                assert(q@.subrange(j + 1, n as int) =~= q@.skip(j + 1));
            }
            parse_query_into(rest, params);
            proof {
                let frags = amp_split(q@);
                assert(frags == seq![q@.take(j as int)] + amp_split(q@.skip(j + 1)));
                assert(frags[0] == q@.take(j as int));
                assert(frags.drop_first() =~= amp_split(q@.skip(j + 1)));
            }
        },
        None => {
            insert_frag(q, params);
            proof {
                let frags = amp_split(q@);
                assert(frags == seq![q@]);
                assert(frags.drop_first() =~= Seq::<Seq<char>>::empty());
                assert(insert_frags(
                    assoc_update(old(params)@, frag_kv(q@).0, frag_kv(q@).1),
                    frags.drop_first(),
                ) == final(params)@);
            }
        },
    }
}

impl Uri {
    /// Parses a request-target. A target without `?` is all path with no
    /// parameters; behind a `?`, fragments split on `&` become keys and
    /// optional values, later duplicates overwriting earlier ones.
    pub fn from_str(s: &str) -> (r: Result<Uri, ()>)
        ensures
            r is Ok,
            r matches Ok(u) ==> {
                &&& u.path@ == uri_path(s@)
                &&& u.raw@ == s@
                &&& u.params@ == uri_params(s@)
                &&& unique_keys(u.params@)
            },
    {
        let n = s.unicode_len();
        match find_char(s, '?') {
            None => Ok(
                Uri { path: s.to_owned(), params: AssocList::new(), raw: s.to_owned() },
            ),
            Some(i) => {
                proof {
                    lemma_first_pos(s@, '?');
                }
                let path = s.substring_char(0, i);
                let query = s.substring_char(i + 1, n);
                proof {
                    assert(s@.subrange(0, i as int) =~= s@.take(i as int));
                    assert(s@.subrange(i + 1, n as int) =~= s@.skip(i + 1));
                }
                let mut params = AssocList::new();
                parse_query_into(query, &mut params);
                Ok(Uri { path: path.to_owned(), params, raw: s.to_owned() })
            },
        }
    }

    /// The original request-target text.
    pub fn to_string(&self) -> (r: String)
        ensures
            r@ == self.raw@,
    {
        self.raw.clone()
    }
}

} // verus!
