//! A string-keyed map kept as an ordered list of pairs.
//!
//! Insertion order is part of the model: the view is the sequence of
//! `(key, value)` pairs, and a repeated insert overwrites in place
//! (last write wins) without moving the entry.

use vstd::prelude::*;
use crate::strutil::str_eq;

verus! {

/// First-match lookup in a sequence of key/value pairs.
pub open spec fn lookup<T>(ps: Seq<(Seq<char>, T)>, k: Seq<char>) -> Option<T>
    decreases ps.len(),
{
    if ps.len() == 0 {
        None
    } else if ps[0].0 == k {
        Some(ps[0].1)
    } else {
        lookup(ps.skip(1), k)
    }
}

/// Whether a key is present.
pub open spec fn has_key<T>(ps: Seq<(Seq<char>, T)>, k: Seq<char>) -> bool {
    lookup(ps, k) is Some
}

/// Insert-or-overwrite: the first pair with the key is replaced in
/// place; a missing key is appended at the end.
pub open spec fn upsert<T>(ps: Seq<(Seq<char>, T)>, k: Seq<char>, v: T) -> Seq<(Seq<char>, T)>
    decreases ps.len(),
{
    if ps.len() == 0 {
        seq![(k, v)]
    } else if ps[0].0 == k {
        seq![(k, v)] + ps.skip(1)
    } else {
        seq![ps[0]] + upsert(ps.skip(1), k, v)
    }
}

/// After an upsert, the inserted key maps to the new value.
pub proof fn lemma_lookup_upsert_same<T>(ps: Seq<(Seq<char>, T)>, k: Seq<char>, v: T)
    ensures
        lookup(upsert(ps, k, v), k) == Some(v),
    decreases ps.len(),
{
    if ps.len() == 0 {
    } else if ps[0].0 == k {
        assert(upsert(ps, k, v)[0] == (k, v));
    } else {
        lemma_lookup_upsert_same(ps.skip(1), k, v);
        assert(upsert(ps, k, v)[0] == ps[0]);
        assert(upsert(ps, k, v).skip(1) =~= upsert(ps.skip(1), k, v));
    }
}

/// An upsert leaves every other key unchanged.
pub proof fn lemma_lookup_upsert_other<T>(
    ps: Seq<(Seq<char>, T)>,
    k: Seq<char>,
    v: T,
    k2: Seq<char>,
)
    requires
        k2 != k,
    ensures
        lookup(upsert(ps, k, v), k2) == lookup(ps, k2),
    decreases ps.len(),
{
    let r = upsert(ps, k, v);
    if ps.len() == 0 {
        assert(r.len() == 1 && r[0] == (k, v));
        assert(lookup(r, k2) == lookup(r.skip(1), k2));
        assert(r.skip(1) =~= Seq::<(Seq<char>, T)>::empty());
    } else if ps[0].0 == k {
        assert(r.len() > 0 && r[0] == (k, v));
        assert(lookup(r, k2) == lookup(r.skip(1), k2));
        assert(r.skip(1) =~= ps.skip(1));
        assert(lookup(ps, k2) == lookup(ps.skip(1), k2));
    } else {
        lemma_lookup_upsert_other(ps.skip(1), k, v, k2);
        assert(r.len() > 0 && r[0] == ps[0]);
        assert(r.skip(1) =~= upsert(ps.skip(1), k, v));
    }
}

/// A list of writes applied in order, each an upsert.
pub open spec fn upsert_all<T>(
    ps: Seq<(Seq<char>, T)>,
    ws: Seq<(Seq<char>, T)>,
) -> Seq<(Seq<char>, T)>
    decreases ws.len(),
{
    if ws.len() == 0 {
        ps
    } else {
        upsert_all(upsert(ps, ws[0].0, ws[0].1), ws.skip(1))
    }
}

/// The value the latest write of a key carries, if the key was written.
pub open spec fn last_write<T>(ws: Seq<(Seq<char>, T)>, k: Seq<char>) -> Option<T>
    decreases ws.len(),
{
    if ws.len() == 0 {
        None
    } else {
        match last_write(ws.skip(1), k) {
            Some(v) => Some(v),
            None => if ws[0].0 == k {
                Some(ws[0].1)
            } else {
                None
            },
        }
    }
}

/// The last-write-wins law: after a list of writes, a written key holds
/// its latest written value, and an unwritten key is as before.
pub proof fn lemma_upsert_all_lookup<T>(
    ps: Seq<(Seq<char>, T)>,
    ws: Seq<(Seq<char>, T)>,
    k: Seq<char>,
)
    ensures
        lookup(upsert_all(ps, ws), k) == (match last_write(ws, k) {
            Some(v) => Some(v),
            None => lookup(ps, k),
        }),
    decreases ws.len(),
{
    if ws.len() > 0 {
        lemma_upsert_all_lookup(upsert(ps, ws[0].0, ws[0].1), ws.skip(1), k);
        match last_write(ws.skip(1), k) {
            Some(_) => {},
            None => {
                if ws[0].0 == k {
                    lemma_lookup_upsert_same(ps, k, ws[0].1);
                } else {
                    lemma_lookup_upsert_other(ps, ws[0].0, ws[0].1, k);
                }
            },
        }
    }
}

/// Writes concatenate: applying two lists in turn is applying their
/// concatenation.
pub proof fn lemma_upsert_all_concat<T>(
    ps: Seq<(Seq<char>, T)>,
    a: Seq<(Seq<char>, T)>,
    b: Seq<(Seq<char>, T)>,
)
    ensures
        upsert_all(ps, a + b) == upsert_all(upsert_all(ps, a), b),
    decreases a.len(),
{
    if a.len() == 0 {
        assert(a + b =~= b);
    } else {
        assert((a + b)[0] == a[0]);
        assert((a + b).skip(1) =~= a.skip(1) + b);
        lemma_upsert_all_concat(upsert(ps, a[0].0, a[0].1), a.skip(1), b);
    }
}

/// Lookup ignores a dropped prefix that does not hold the key.
pub proof fn lemma_lookup_skip<T>(ps: Seq<(Seq<char>, T)>, k: Seq<char>, i: int)
    requires
        0 <= i <= ps.len(),
        forall|j: int| 0 <= j < i ==> ps[j].0 != k,
    ensures
        lookup(ps, k) == lookup(ps.skip(i), k),
    decreases i,
{
    if i > 0 {
        lemma_lookup_skip(ps.skip(1), k, i - 1);
        assert(ps.skip(1).skip(i - 1) =~= ps.skip(i));
    } else {
        assert(ps.skip(0) =~= ps);
    }
}

/// An upsert that hits index `i` is an in-place update.
proof fn lemma_upsert_found<T>(ps: Seq<(Seq<char>, T)>, k: Seq<char>, v: T, i: int)
    requires
        0 <= i < ps.len(),
        forall|j: int| 0 <= j < i ==> ps[j].0 != k,
        ps[i].0 == k,
    ensures
        upsert(ps, k, v) == ps.update(i, (k, v)),
    decreases i,
{
    if i == 0 {
        assert(upsert(ps, k, v) =~= ps.update(0, (k, v)));
    } else {
        lemma_upsert_found(ps.skip(1), k, v, i - 1);
        assert(ps.skip(1).update(i - 1, (k, v)) =~= ps.update(i, (k, v)).skip(1));
        assert(upsert(ps, k, v) =~= seq![ps[0]] + upsert(ps.skip(1), k, v));
        assert(seq![ps[0]] + ps.update(i, (k, v)).skip(1) =~= ps.update(i, (k, v)));
    }
}

/// An upsert of an absent key appends the pair.
proof fn lemma_upsert_missing<T>(ps: Seq<(Seq<char>, T)>, k: Seq<char>, v: T)
    requires
        forall|j: int| 0 <= j < ps.len() ==> ps[j].0 != k,
    ensures
        upsert(ps, k, v) == ps.push((k, v)),
    decreases ps.len(),
{
    if ps.len() == 0 {
        assert(upsert(ps, k, v) =~= ps.push((k, v)));
    } else {
        lemma_upsert_missing(ps.skip(1), k, v);
        assert(upsert(ps, k, v) =~= seq![ps[0]] + ps.skip(1).push((k, v)));
        assert(seq![ps[0]] + ps.skip(1).push((k, v)) =~= ps.push((k, v)));
    }
}

/// A string-keyed map in insertion order.
#[derive(Debug, Clone)]
pub struct StrMap<V> {
    pairs: Vec<(String, V)>,
}

impl<V: View> View for StrMap<V> {
    type V = Seq<(Seq<char>, V::V)>;

    closed spec fn view(&self) -> Seq<(Seq<char>, V::V)> {
        Seq::new(self.pairs@.len(), |i: int| (self.pairs@[i].0@, self.pairs@[i].1@))
    }
}

impl<V: View> StrMap<V> {
    /// The empty map.
    pub fn new() -> (r: Self)
        ensures
            r@ == Seq::<(Seq<char>, V::V)>::empty(),
    {
        let r = StrMap { pairs: Vec::new() };
        proof {
            assert(r@ =~= Seq::<(Seq<char>, V::V)>::empty());
        }
        r
    }

    /// Number of entries.
    pub fn len(&self) -> (n: usize)
        ensures
            n == self@.len(),
    {
        self.pairs.len()
    }

    /// Whether the map has no entries.
    pub fn is_empty(&self) -> (r: bool)
        ensures
            r == (self@.len() == 0),
    {
        self.pairs.len() == 0
    }

    /// The entry at a position, in insertion order.
    pub fn entry_at(&self, i: usize) -> (r: &(String, V))
        requires
            i < self@.len(),
        ensures
            r.0@ == self@[i as int].0,
            r.1@ == self@[i as int].1,
    {
        &self.pairs[i]
    }

    /// Insert-or-overwrite, keeping the position of an existing key.
    pub fn insert(&mut self, key: String, value: V)
        ensures
            final(self)@ == upsert(old(self)@, key@, value@),
    {
        let n = self.pairs.len();
        let mut i: usize = 0;
        while i < n
            invariant
                i <= n,
                n == self.pairs@.len(),
                *self == *old(self),
                forall|j: int| 0 <= j < i ==> self@[j].0 != key@,
            decreases n - i,
        {
            if str_eq(self.pairs[i].0.as_str(), key.as_str()) {
                proof {
                    lemma_upsert_found(old(self)@, key@, value@, i as int);
                }
                self.pairs.remove(i);
                self.pairs.insert(i, (key, value));
                proof {
                    assert(self@ =~= old(self)@.update(i as int, (key@, value@)));
                }
                return ;
            }
            i += 1;
        }
        proof {
            lemma_upsert_missing(old(self)@, key@, value@);
        }
        self.pairs.push((key, value));
        proof {
            assert(self@ =~= old(self)@.push((key@, value@)));
        }
    }

    /// First-match lookup.
    pub fn get(&self, key: &str) -> (r: Option<&V>)
        ensures
            match r {
                Some(v) => lookup(self@, key@) == Some(v@),
                None => lookup(self@, key@) is None,
            },
    {
        let n = self.pairs.len();
        let mut i: usize = 0;
        while i < n
            invariant
                i <= n,
                n == self.pairs@.len(),
                forall|j: int| 0 <= j < i ==> self@[j].0 != key@,
            decreases n - i,
        {
            if str_eq(self.pairs[i].0.as_str(), key) {
                proof {
                    lemma_lookup_skip(self@, key@, i as int);
                    assert(self@.skip(i as int)[0] == self@[i as int]);
                }
                return Some(&self.pairs[i].1);
            }
            i += 1;
        }
        proof {
            lemma_lookup_skip(self@, key@, n as int);
        }
        None
    }

    /// Whether the key is present.
    pub fn contains_key(&self, key: &str) -> (r: bool)
        ensures
            r == has_key(self@, key@),
    {
        self.get(key).is_some()
    }
}

} // verus!
