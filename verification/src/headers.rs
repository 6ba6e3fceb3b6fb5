//! Header maps. A map is a sequence of name/value entries whose names are
//! pairwise distinct; insertion overwrites in place (last write wins) and
//! serialization walks the entries in order, so the whole behaviour is
//! deterministic. Request maps key entries by the lower-cased name; response
//! maps keep the caller's casing.
use vstd::prelude::*;

use crate::bytes::bytes_eq;

verus! {

/// Index of the first entry of `entries` whose name is `k`, if any.
pub open spec fn find_key(entries: Seq<(Seq<u8>, Seq<u8>)>, k: Seq<u8>) -> Option<int>
    decreases entries.len(),
{
    if entries.len() == 0 {
        None
    } else if entries[0].0 == k {
        Some(0)
    } else {
        match find_key(entries.skip(1), k) {
            Some(i) => Some(i + 1),
            None => None,
        }
    }
}

/// The value stored under `k`, if any.
pub open spec fn lookup(entries: Seq<(Seq<u8>, Seq<u8>)>, k: Seq<u8>) -> Option<Seq<u8>> {
    match find_key(entries, k) {
        Some(i) => Some(entries[i].1),
        None => None,
    }
}

/// `entries` with `k` bound to `v`: overwritten in place when present,
/// appended when absent.
pub open spec fn insert_entry(
    entries: Seq<(Seq<u8>, Seq<u8>)>,
    k: Seq<u8>,
    v: Seq<u8>,
) -> Seq<(Seq<u8>, Seq<u8>)> {
    match find_key(entries, k) {
        Some(i) => entries.update(i, (k, v)),
        None => entries.push((k, v)),
    }
}

/// Entry names are pairwise distinct.
pub open spec fn entries_wf(entries: Seq<(Seq<u8>, Seq<u8>)>) -> bool {
    forall|i: int, j: int|
        0 <= i < j < entries.len() ==> entries[i].0 != entries[j].0
}

/// `find_key` returns the least index whose name is `k`, or `None` when no
/// entry has that name.
pub proof fn lemma_find_key(entries: Seq<(Seq<u8>, Seq<u8>)>, k: Seq<u8>)
    ensures
        match find_key(entries, k) {
            Some(i) => 0 <= i < entries.len() && entries[i].0 == k && forall|j: int|
                0 <= j < i ==> entries[j].0 != k,
            None => forall|j: int| 0 <= j < entries.len() ==> entries[j].0 != k,
        },
    decreases entries.len(),
{
    if entries.len() > 0 && entries[0].0 != k {
        lemma_find_key(entries.skip(1), k);
        let t = entries.skip(1);
        match find_key(t, k) {
            Some(i) => {
                assert(entries[i + 1] == t[i]);
                assert forall|j: int| 0 <= j < i + 1 implies entries[j].0 != k by {
                    if j > 0 {
                        assert(entries[j] == t[j - 1]);
                    }
                }
            },
            None => {
                assert forall|j: int| 0 <= j < entries.len() implies entries[j].0 != k by {
                    if j > 0 {
                        assert(entries[j] == t[j - 1]);
                    }
                }
            },
        }
    }
}

/// An index that holds `k`, none before it holding `k`, is the index that
/// `find_key` returns.
pub proof fn lemma_find_key_is(entries: Seq<(Seq<u8>, Seq<u8>)>, k: Seq<u8>, i: int)
    requires
        0 <= i < entries.len(),
        entries[i].0 == k,
        forall|j: int| 0 <= j < i ==> entries[j].0 != k,
    ensures
        find_key(entries, k) == Some(i),
{
    lemma_find_key(entries, k);
    match find_key(entries, k) {
        Some(n) => {
            if n < i {
                assert(entries[n].0 != k);
            }
            if n > i {
                assert(entries[i].0 != k);
            }
        },
        None => {
            assert(entries[i].0 != k);
        },
    }
}

/// Inserting preserves distinctness of names.
pub proof fn lemma_insert_wf(entries: Seq<(Seq<u8>, Seq<u8>)>, k: Seq<u8>, v: Seq<u8>)
    requires
        entries_wf(entries),
    ensures
        entries_wf(insert_entry(entries, k, v)),
{
    lemma_find_key(entries, k);
    let r = insert_entry(entries, k, v);
    match find_key(entries, k) {
        Some(i) => {
            assert forall|a: int, b: int| 0 <= a < b < r.len() implies r[a].0 != r[b].0 by {
                if a != i && b != i {
                    assert(r[a] == entries[a] && r[b] == entries[b]);
                }
            }
        },
        None => {
            assert forall|a: int, b: int| 0 <= a < b < r.len() implies r[a].0 != r[b].0 by {
                if b < entries.len() {
                    assert(r[a] == entries[a] && r[b] == entries[b]);
                } else {
                    assert(r[a] == entries[a] && r[b] == (k, v));
                }
            }
        },
    }
}

/// What `lookup` sees after an insertion: the new binding under its name,
/// every other binding unchanged.
pub proof fn lemma_lookup_insert(
    entries: Seq<(Seq<u8>, Seq<u8>)>,
    k: Seq<u8>,
    v: Seq<u8>,
    k2: Seq<u8>,
)
    ensures
        lookup(insert_entry(entries, k, v), k2) == if k2 == k {
            Some(v)
        } else {
            lookup(entries, k2)
        },
{
    lemma_find_key(entries, k);
    lemma_find_key(entries, k2);
    let r = insert_entry(entries, k, v);
    match find_key(entries, k) {
        Some(i) => {
            if k2 == k {
                lemma_find_key_is(r, k2, i);
            } else {
                match find_key(entries, k2) {
                    Some(n) => {
                        assert(r[n] == entries[n]);
                        assert forall|j: int| 0 <= j < n implies r[j].0 != k2 by {
                            if j != i {
                                assert(r[j] == entries[j]);
                            }
                        }
                        lemma_find_key_is(r, k2, n);
                    },
                    None => {
                        lemma_find_key(r, k2);
                        match find_key(r, k2) {
                            Some(n) => {
                                if n != i {
                                    assert(r[n] == entries[n]);
                                }
                            },
                            None => {},
                        }
                    },
                }
            }
        },
        None => {
            if k2 == k {
                lemma_find_key_is(r, k2, entries.len() as int);
            } else {
                match find_key(entries, k2) {
                    Some(n) => {
                        assert(r[n] == entries[n]);
                        assert forall|j: int| 0 <= j < n implies r[j].0 != k2 by {
                            assert(r[j] == entries[j]);
                        }
                        lemma_find_key_is(r, k2, n);
                    },
                    None => {
                        lemma_find_key(r, k2);
                        match find_key(r, k2) {
                            Some(n) => {
                                if n < entries.len() {
                                    assert(r[n] == entries[n]);
                                }
                            },
                            None => {},
                        }
                    },
                }
            }
        },
    }
}

/// An ordered name/value map with distinct names.
pub struct HeaderMap {
    pub items: Vec<(Vec<u8>, Vec<u8>)>,
}

impl View for HeaderMap {
    type V = Seq<(Seq<u8>, Seq<u8>)>;

    open spec fn view(&self) -> Seq<(Seq<u8>, Seq<u8>)> {
        self.items@.map_values(|p: (Vec<u8>, Vec<u8>)| (p.0@, p.1@))
    }
}

impl HeaderMap {
    /// Distinct names, as an invariant every constructor establishes.
    pub open spec fn wf(&self) -> bool {
        entries_wf(self@)
    }

    /// The empty map.
    pub fn new() -> (r: HeaderMap)
        ensures
            r@ == Seq::<(Seq<u8>, Seq<u8>)>::empty(),
            r.wf(),
    {
        let r = HeaderMap { items: Vec::new() };
        proof {
            assert(r@ =~= Seq::<(Seq<u8>, Seq<u8>)>::empty());
        }
        r
    }

    /// Number of entries.
    pub fn len(&self) -> (r: usize)
        ensures
            r == self@.len(),
    {
        self.items.len()
    }

    /// Bind `k` to `v`, overwriting in place any earlier binding of `k`.
    pub fn insert(&mut self, k: Vec<u8>, v: Vec<u8>)
        ensures
            final(self)@ == insert_entry(old(self)@, k@, v@),
            old(self).wf() ==> final(self).wf(),
    {
        proof {
            lemma_find_key(old(self)@, k@);
            if old(self).wf() {
                lemma_insert_wf(old(self)@, k@, v@);
            }
        }
        let mut i: usize = 0;
        while i < self.items.len()
            invariant
                0 <= i <= self.items@.len(),
                self@ == old(self)@,
                self.items@ == old(self).items@,
                forall|j: int| 0 <= j < i ==> self@[j].0 != k@,
            decreases self.items@.len() - i,
        {
            if bytes_eq(self.items[i].0.as_slice(), k.as_slice()) {
                proof {
                    assert(self@[i as int].0 == k@);
                    lemma_find_key_is(self@, k@, i as int);
                }
                self.items[i] = (k, v);
                proof {
                    assert(self@ =~= insert_entry(old(self)@, k@, v@));
                }
                return ;
            }
            i = i + 1;
        }
        proof {
            lemma_find_key(self@, k@);
            match find_key(self@, k@) {
                Some(n) => {
                    assert(self@[n].0 != k@);
                },
                None => {},
            }
        }
        self.items.push((k, v));
        proof {
            assert(self@ =~= insert_entry(old(self)@, k@, v@));
        }
    }

    /// The value bound to `k`, if any.
    pub fn get(&self, k: &[u8]) -> (r: Option<&Vec<u8>>)
        ensures
            match r {
                Some(v) => lookup(self@, k@) == Some(v@),
                None => lookup(self@, k@) == None::<Seq<u8>>,
            },
    {
        let mut i: usize = 0;
        while i < self.items.len()
            invariant
                0 <= i <= self.items@.len(),
                forall|j: int| 0 <= j < i ==> self@[j].0 != k@,
            decreases self.items@.len() - i,
        {
            if bytes_eq(self.items[i].0.as_slice(), k) {
                proof {
                    lemma_find_key_is(self@, k@, i as int);
                }
                return Some(&self.items[i].1);
            }
            i = i + 1;
        }
        proof {
            lemma_find_key(self@, k@);
            match find_key(self@, k@) {
                Some(n) => {
                    assert(self@[n].0 != k@);
                },
                None => {},
            }
        }
        None
    }
}

} // verus!
