//! A small single-value-per-key store over owned strings, kept as an
//! ordered list of entries. Both the header store and the query-parameter
//! store are built on it: one spot where lookup and overwrite-on-insert
//! are specified and proved.

use vstd::pervasive::VecAdditionalExecFns;
use vstd::prelude::*;

verus! {

/// The view of an optional text value.
pub open spec fn opt_text_view(v: Option<String>) -> Option<Seq<char>> {
    match v {
        Some(s) => Some(s@),
        None => None,
    }
}

/// The view of one entry.
pub open spec fn entry_view(e: (String, Option<String>)) -> (Seq<char>, Option<Seq<char>>) {
    (e.0@, opt_text_view(e.1))
}

/// The position of the entry for `k`, if any.
pub open spec fn key_index(m: Seq<(Seq<char>, Option<Seq<char>>)>, k: Seq<char>) -> Option<int>
    decreases m.len(),
{
    if m.len() == 0 {
        None
    } else if m[0].0 == k {
        Some(0int)
    } else {
        match key_index(m.drop_first(), k) {
            Some(i) => Some(i + 1),
            None => None,
        }
    }
}

/// The value stored under `k`: `None` when the key is absent, and
/// otherwise the entry's (optional) text.
pub open spec fn lookup(m: Seq<(Seq<char>, Option<Seq<char>>)>, k: Seq<char>) -> Option<
    Option<Seq<char>>,
> {
    match key_index(m, k) {
        Some(i) => Some(m[i].1),
        None => None,
    }
}

/// The store after writing `v` under `k`: the entry for `k` is replaced
/// in place, or appended when the key is new.
pub open spec fn assoc_update(
    m: Seq<(Seq<char>, Option<Seq<char>>)>,
    k: Seq<char>,
    v: Option<Seq<char>>,
) -> Seq<(Seq<char>, Option<Seq<char>>)> {
    match key_index(m, k) {
        Some(i) => m.update(i, (k, v)),
        None => m.push((k, v)),
    }
}

/// No two entries share a key.
pub open spec fn unique_keys(m: Seq<(Seq<char>, Option<Seq<char>>)>) -> bool {
    forall|i: int, j: int| 0 <= i < j < m.len() ==> m[i].0 != m[j].0
}

/// What `key_index` finds is the entry for `k`, and the first one.
pub proof fn lemma_key_index(m: Seq<(Seq<char>, Option<Seq<char>>)>, k: Seq<char>)
    ensures
        match key_index(m, k) {
            Some(i) => 0 <= i < m.len() && m[i].0 == k && (forall|j: int|
                0 <= j < i ==> m[j].0 != k),
            None => forall|j: int| 0 <= j < m.len() ==> m[j].0 != k,
        },
    decreases m.len(),
{
    if m.len() > 0 && m[0].0 != k {
        lemma_key_index(m.drop_first(), k);
        match key_index(m.drop_first(), k) {
            Some(i) => {
                assert forall|j: int| 0 <= j < i + 1 implies m[j].0 != k by {
                    if j > 0 {
                        assert(m.drop_first()[j - 1].0 != k);
                    }
                }
            },
            None => {
                assert forall|j: int| 0 <= j < m.len() implies m[j].0 != k by {
                    if j > 0 {
                        assert(m.drop_first()[j - 1].0 != k);
                    }
                }
            },
        }
    }
}

/// An entry for `k` at `i` with none before it is what `key_index` finds.
pub proof fn lemma_key_index_found(m: Seq<(Seq<char>, Option<Seq<char>>)>, k: Seq<char>, i: int)
    requires
        0 <= i < m.len(),
        m[i].0 == k,
        forall|j: int| 0 <= j < i ==> m[j].0 != k,
    ensures
        key_index(m, k) == Some(i),
    decreases i,
{
    if i > 0 {
        lemma_key_index_found(m.drop_first(), k, i - 1);
    }
}

/// After a write, the written key reads back the written value and every
/// other key reads as before.
pub proof fn lemma_assoc_update_lookup(
    m: Seq<(Seq<char>, Option<Seq<char>>)>,
    k: Seq<char>,
    v: Option<Seq<char>>,
    k2: Seq<char>,
)
    ensures
        lookup(assoc_update(m, k, v), k) == Some(v),
        k2 != k ==> lookup(assoc_update(m, k, v), k2) == lookup(m, k2),
{
    let m2 = assoc_update(m, k, v);
    lemma_key_index(m, k);
    match key_index(m, k) {
        Some(i) => {
            lemma_key_index_found(m2, k, i);
            if k2 != k {
                lemma_key_index(m, k2);
                lemma_key_index(m2, k2);
                match key_index(m, k2) {
                    Some(i2) => {
                        lemma_key_index_found(m2, k2, i2);
                    },
                    None => {
                        lemma_key_index(m2, k2);
                    },
                }
            }
        },
        None => {
            lemma_key_index_found(m2, k, m.len() as int);
            if k2 != k {
                lemma_key_index(m, k2);
                lemma_key_index(m2, k2);
                match key_index(m, k2) {
                    Some(i2) => {
                        lemma_key_index_found(m2, k2, i2);
                    },
                    None => {
                    },
                }
            }
        },
    }
}

pub fn clone_opt_text(v: &Option<String>) -> (r: Option<String>)
    ensures
        r == *v,
{
    match v {
        Some(s) => Some(s.clone()),
        None => None,
    }
}

/// An ordered store of string keys to optional text values, with at most
/// one entry per key.
#[derive(Debug)]
pub struct AssocList {
    entries: Vec<(String, Option<String>)>,
}

impl View for AssocList {
    type V = Seq<(Seq<char>, Option<Seq<char>>)>;

    closed spec fn view(&self) -> Seq<(Seq<char>, Option<Seq<char>>)> {
        self.entries@.map_values(|e: (String, Option<String>)| entry_view(e))
    }
}

impl AssocList {
    /// The empty store.
    pub fn new() -> (r: AssocList)
        ensures
            r@ == Seq::<(Seq<char>, Option<Seq<char>>)>::empty(),
    {
        let r = AssocList { entries: Vec::new() };
        proof {
            assert(r@ =~= Seq::<(Seq<char>, Option<Seq<char>>)>::empty());
        }
        r
    }

    /// The number of entries.
    pub fn len(&self) -> (r: usize)
        ensures
            r == self@.len(),
    {
        self.entries.len()
    }

    /// The entry at a position, for walking the store in order.
    pub fn entry_at(&self, i: usize) -> (r: &(String, Option<String>))
        requires
            i < self@.len(),
        ensures
            entry_view(*r) == self@[i as int],
    {
        &self.entries[i]
    }

    /// Writes `v` under `k`, overwriting and returning any prior value
    /// for that key.
    pub fn insert(&mut self, k: String, v: Option<String>) -> (prior: Option<Option<String>>)
        ensures
            final(self)@ == assoc_update(old(self)@, k@, opt_text_view(v)),
            match prior {
                Some(o) => lookup(old(self)@, k@) == Some(opt_text_view(o)),
                None => lookup(old(self)@, k@) is None,
            },
            unique_keys(old(self)@) ==> unique_keys(final(self)@),
    {
        let n = self.entries.len();
        let mut i: usize = 0;
        while i < n
            invariant
                i <= n,
                n == self@.len(),
                *self == *old(self),
                forall|j: int| 0 <= j < i ==> self@[j].0 != k@,
            decreases n - i,
        {
            if str_eq_owned(&self.entries[i].0, &k) {
                proof {
                    lemma_key_index_found(self@, k@, i as int);
                }
                let prior_val = clone_opt_text(&self.entries[i].1);
                let ghost old_view = self@;
                self.entries.set(i, (k, v));
                proof {
                    assert(self@ =~= old_view.update(i as int, (k@, opt_text_view(v))));
                    // The written key equals the key that stood there, so
                    // the sequence of keys is unchanged.
                    assert(forall|j: int| 0 <= j < self@.len() ==> self@[j].0 == old_view[j].0);
                }
                return Some(prior_val);
            }
            i = i + 1;
        }
        proof {
            lemma_key_index(self@, k@);
        }
        let ghost old_view = self@;
        self.entries.push((k, v));
        proof {
            assert(self@ =~= old_view.push((k@, opt_text_view(v))));
            assert(unique_keys(old_view) ==> unique_keys(self@)) by {
                if unique_keys(old_view) {
                    assert forall|a: int, b: int| 0 <= a < b < self@.len() implies self@[a].0
                        != self@[b].0 by {
                        if b < old_view.len() {
                            assert(old_view[a].0 != old_view[b].0);
                        } else {
                            assert(old_view[a].0 != k@);
                        }
                    }
                }
            }
        }
        None
    }

    /// Reads the value under `k`: `None` when the key is absent.
    pub fn get(&self, k: &str) -> (r: Option<Option<String>>)
        ensures
            match r {
                Some(o) => lookup(self@, k@) == Some(opt_text_view(o)),
                None => lookup(self@, k@) is None,
            },
    {
        let n = self.entries.len();
        let mut i: usize = 0;
        while i < n
            invariant
                i <= n,
                n == self@.len(),
                forall|j: int| 0 <= j < i ==> self@[j].0 != k@,
            decreases n - i,
        {
            if crate::strutil::str_eq(self.entries[i].0.as_str(), k) {
                proof {
                    lemma_key_index_found(self@, k@, i as int);
                }
                return Some(clone_opt_text(&self.entries[i].1));
            }
            i = i + 1;
        }
        proof {
            lemma_key_index(self@, k@);
        }
        None
    }
}

fn str_eq_owned(a: &String, b: &String) -> (r: bool)
    ensures
        r == (a@ == b@),
{
    crate::strutil::str_eq(a.as_str(), b.as_str())
}

} // verus!
