//! Rendered-tile memoization: a byte store keyed by tile identifier.

use vstd::prelude::*;
use vstd::string::StringExecFns;
use crate::numfmt::{u64_chars, push_u64};

verus! {

/// The deterministic cache key of one tile address.
pub open spec fn tile_id_chars(z: int, x: int, y: int) -> Seq<char> {
    "tile:"@ + u64_chars(z as nat) + seq!['-'] + u64_chars(x as nat) + seq!['-'] + u64_chars(
        y as nat,
    )
}

/// Formats a tile address as its cache key.
pub fn tile_id(z: u64, x: u64, y: u64) -> (r: String)
    ensures
        r@ == tile_id_chars(z as int, x as int, y as int),
{
    let mut out = String::new();
    out.append("tile:");
    push_u64(&mut out, z);
    crate::numfmt::push_char(&mut out, '-');
    push_u64(&mut out, x);
    crate::numfmt::push_char(&mut out, '-');
    push_u64(&mut out, y);
    proof {
        assert(out@ =~= tile_id_chars(z as int, x as int, y as int));
    }
    out
}

/// What a tile cache does, stated over the map it stores: lookups hit
/// exactly the stored keys, a save overwrites, a delete removes.
pub trait Cache {
    /// The store's own well-formedness, kept by every operation.
    spec fn inv(&self) -> bool;

    /// The stored mapping from identifier to bytes.
    spec fn cache_map(&self) -> Map<Seq<char>, Seq<u8>>;

    /// Whether an entry exists for `id`.
    fn has(&self, id: &str) -> (r: bool)
        requires
            self.inv(),
        ensures
            r == self.cache_map().contains_key(id@),
    ;

    /// Stores `data` under `id`, replacing any previous entry.
    fn save(&mut self, id: &str, data: Vec<u8>)
        requires
            old(self).inv(),
        ensures
            final(self).inv(),
            final(self).cache_map() == old(self).cache_map().insert(id@, data@),
    ;

    /// The entry under `id`, when one exists.
    fn get(&self, id: &str) -> (r: Option<&Vec<u8>>)
        requires
            self.inv(),
        ensures
            r is Some <==> self.cache_map().contains_key(id@),
            r is Some ==> r->0@ == self.cache_map()[id@],
    ;

    /// Removes the entry under `id`, if any.
    fn delete(&mut self, id: &str)
        requires
            old(self).inv(),
        ensures
            final(self).inv(),
            final(self).cache_map() == old(self).cache_map().remove(id@),
    ;
}

/// The mapping an entry list holds; an earlier entry shadows a later one
/// with the same key (the store itself never keeps two).
pub open spec fn assoc_map(s: Seq<(String, Vec<u8>)>) -> Map<Seq<char>, Seq<u8>>
    decreases s.len(),
{
    if s.len() == 0 {
        Map::empty()
    } else {
        assoc_map(s.drop_first()).insert(s[0].0@, s[0].1@)
    }
}

proof fn lemma_assoc_first(s: Seq<(String, Vec<u8>)>, k: Seq<char>, i: int)
    requires
        0 <= i < s.len(),
        s[i].0@ == k,
        forall|j: int| #![trigger s[j]] 0 <= j < i ==> s[j].0@ != k,
    ensures
        assoc_map(s).contains_key(k),
        assoc_map(s)[k] == s[i].1@,
    decreases i,
{
    if i > 0 {
        assert(s.drop_first()[i - 1].0@ == k);
        assert forall|j: int| #![trigger s.drop_first()[j]] 0 <= j < i - 1 implies s.drop_first()[j].0@ != k by {
            assert(s[j + 1].0@ != k);
        }
        lemma_assoc_first(s.drop_first(), k, i - 1);
    }
}

proof fn lemma_assoc_none(s: Seq<(String, Vec<u8>)>, k: Seq<char>)
    requires
        forall|j: int| #![trigger s[j]] 0 <= j < s.len() ==> s[j].0@ != k,
    ensures
        !assoc_map(s).contains_key(k),
    decreases s.len(),
{
    if s.len() > 0 {
        assert forall|j: int| #![trigger s.drop_first()[j]] 0 <= j < s.drop_first().len() implies s.drop_first()[j].0@ != k by {
            assert(s[j + 1].0@ != k);
        }
        lemma_assoc_none(s.drop_first(), k);
    }
}

proof fn lemma_assoc_push(s: Seq<(String, Vec<u8>)>, p: (String, Vec<u8>))
    requires
        forall|j: int| #![trigger s[j]] 0 <= j < s.len() ==> s[j].0@ != p.0@,
    ensures
        assoc_map(s.push(p)) == assoc_map(s).insert(p.0@, p.1@),
    decreases s.len(),
{
    if s.len() == 0 {
        assert(s.push(p).drop_first() =~= s);
        assert(assoc_map(s.push(p)) =~= assoc_map(s).insert(p.0@, p.1@));
    } else {
        assert(s.push(p).drop_first() =~= s.drop_first().push(p));
        assert forall|j: int| #![trigger s.drop_first()[j]] 0 <= j < s.drop_first().len() implies s.drop_first()[j].0@ != p.0@ by {
            assert(s[j + 1].0@ != p.0@);
        }
        lemma_assoc_push(s.drop_first(), p);
        assert(s[0].0@ != p.0@);
        assert(assoc_map(s.drop_first()).insert(p.0@, p.1@).insert(s[0].0@, s[0].1@)
            =~= assoc_map(s.drop_first()).insert(s[0].0@, s[0].1@).insert(p.0@, p.1@));
        assert(assoc_map(s.push(p)) =~= assoc_map(s).insert(p.0@, p.1@));
    }
}

proof fn lemma_assoc_update(s: Seq<(String, Vec<u8>)>, i: int, p: (String, Vec<u8>))
    requires
        0 <= i < s.len(),
        s[i].0@ == p.0@,
        forall|j: int| #![trigger s[j]] 0 <= j < i ==> s[j].0@ != p.0@,
    ensures
        assoc_map(s.update(i, p)) == assoc_map(s).insert(p.0@, p.1@),
    decreases i,
{
    let t = s.update(i, p);
    if i == 0 {
        assert(t.drop_first() =~= s.drop_first());
        assert(assoc_map(t) =~= assoc_map(s).insert(p.0@, p.1@));
    } else {
        assert(t.drop_first() =~= s.drop_first().update(i - 1, p));
        assert(s.drop_first()[i - 1].0@ == p.0@);
        assert forall|j: int| #![trigger s.drop_first()[j]] 0 <= j < i - 1 implies s.drop_first()[j].0@ != p.0@ by {
            assert(s[j + 1].0@ != p.0@);
        }
        lemma_assoc_update(s.drop_first(), i - 1, p);
        assert(s[0].0@ != p.0@);
        assert(assoc_map(s.drop_first()).insert(p.0@, p.1@).insert(s[0].0@, s[0].1@)
            =~= assoc_map(s.drop_first()).insert(s[0].0@, s[0].1@).insert(p.0@, p.1@));
        assert(assoc_map(t) =~= assoc_map(s).insert(p.0@, p.1@));
    }
}

proof fn lemma_assoc_remove(s: Seq<(String, Vec<u8>)>, i: int)
    requires
        0 <= i < s.len(),
        forall|j: int| #![trigger s[j]] 0 <= j < i ==> s[j].0@ != s[i].0@,
        forall|j: int| #![trigger s[j]] i < j < s.len() ==> s[j].0@ != s[i].0@,
    ensures
        assoc_map(s.remove(i)) == assoc_map(s).remove(s[i].0@),
    decreases i,
{
    let k = s[i].0@;
    let t = s.remove(i);
    if i == 0 {
        assert(t =~= s.drop_first());
        assert forall|j: int| #![trigger t[j]] 0 <= j < t.len() implies t[j].0@ != k by {
            assert(s[j + 1].0@ != k);
        }
        lemma_assoc_none(t, k);
        assert(assoc_map(t) =~= assoc_map(s).remove(k));
    } else {
        assert(t.drop_first() =~= s.drop_first().remove(i - 1));
        assert(s.drop_first()[i - 1].0@ == k);
        assert forall|j: int| #![trigger s.drop_first()[j]] 0 <= j < i - 1 implies s.drop_first()[j].0@ != k by {
            assert(s[j + 1].0@ != k);
        }
        assert forall|j: int|
            #![trigger s.drop_first()[j]]
            i - 1 < j < s.drop_first().len() implies s.drop_first()[j].0@ != k by {
            assert(s[j + 1].0@ != k);
        }
        lemma_assoc_remove(s.drop_first(), i - 1);
        assert(s[0].0@ != k);
        assert(assoc_map(s.drop_first()).remove(k).insert(s[0].0@, s[0].1@)
            =~= assoc_map(s.drop_first()).insert(s[0].0@, s[0].1@).remove(k));
        assert(assoc_map(t) =~= assoc_map(s).remove(k));
    }
}

/// An in-memory tile cache: an entry list with pairwise distinct keys.
pub struct MemoryCache {
    pub data: Vec<(String, Vec<u8>)>,
}

impl MemoryCache {
    /// Pairwise distinct keys: the list is a map.
    pub open spec fn wf(&self) -> bool {
        forall|i: int, j: int|
            #![trigger self.data@[i], self.data@[j]]
            0 <= i < j < self.data@.len() ==> self.data@[i].0@ != self.data@[j].0@
    }

    /// An empty cache.
    pub fn new() -> (r: MemoryCache)
        ensures
            r.cache_map() == Map::<Seq<char>, Seq<u8>>::empty(),
            r.wf(),
    {
        MemoryCache { data: Vec::new() }
    }

    /// The index of the entry with key `id`, if one exists.
    fn find(&self, id: &str) -> (r: Option<usize>)
        ensures
            match r {
                Some(i) => i < self.data@.len() && self.data@[i as int].0@ == id@ && (forall|j: int|
                    #![trigger self.data@[j]]
                    0 <= j < i ==> self.data@[j].0@ != id@),
                None => forall|j: int|
                    #![trigger self.data@[j]]
                    0 <= j < self.data@.len() ==> self.data@[j].0@ != id@,
            },
    {
        let key = String::from_str(id);
        let n = self.data.len();
        let mut i: usize = 0;
        while i < n
            invariant
                i <= n,
                n == self.data@.len(),
                key@ == id@,
                forall|j: int| #![trigger self.data@[j]] 0 <= j < i ==> self.data@[j].0@ != id@,
            decreases n - i,
        {
            if self.data[i].0 == key {
                return Some(i);
            }
            i += 1;
        }
        None
    }
}

impl Cache for MemoryCache {
    /// Pairwise distinct keys.
    open spec fn inv(&self) -> bool {
        self.wf()
    }

    /// The mapping the entry list holds.
    open spec fn cache_map(&self) -> Map<Seq<char>, Seq<u8>> {
        assoc_map(self.data@)
    }

    fn has(&self, id: &str) -> (r: bool) {
        match self.find(id) {
            Some(i) => {
                proof {
                    lemma_assoc_first(self.data@, id@, i as int);
                }
                true
            },
            None => {
                proof {
                    lemma_assoc_none(self.data@, id@);
                }
                false
            },
        }
    }

    fn save(&mut self, id: &str, data: Vec<u8>) {
        let key = String::from_str(id);
        let ghost s = self.data@;
        match self.find(id) {
            Some(i) => {
                proof {
                    assert forall|j: int|
                        #![trigger s[j]]
                        0 <= j < i as int implies s[j].0@ != key@ by {}
                    lemma_assoc_update(s, i as int, (key, data));
                }
                self.data.set(i, (key, data));
                proof {
                    assert forall|a: int, b: int|
                        #![trigger self.data@[a], self.data@[b]]
                        0 <= a < b < self.data@.len() implies self.data@[a].0@
                        != self.data@[b].0@ by {
                        assert(s[a].0@ != s[b].0@);
                        if a == i as int {
                            assert(self.data@[b] == s[b]);
                        } else if b == i as int {
                            assert(self.data@[a] == s[a]);
                        }
                    }
                }
            },
            None => {
                proof {
                    lemma_assoc_push(s, (key, data));
                }
                self.data.push((key, data));
                proof {
                    assert forall|a: int, b: int|
                        #![trigger self.data@[a], self.data@[b]]
                        0 <= a < b < self.data@.len() implies self.data@[a].0@
                        != self.data@[b].0@ by {
                        if b < s.len() {
                            assert(s[a].0@ != s[b].0@);
                        } else {
                            assert(self.data@[a] == s[a]);
                            assert(s[a].0@ != id@);
                        }
                    }
                }
            },
        }
    }

    fn get(&self, id: &str) -> (r: Option<&Vec<u8>>) {
        match self.find(id) {
            Some(i) => {
                proof {
                    lemma_assoc_first(self.data@, id@, i as int);
                }
                Some(&self.data[i].1)
            },
            None => {
                proof {
                    lemma_assoc_none(self.data@, id@);
                }
                None
            },
        }
    }

    fn delete(&mut self, id: &str) {
        match self.find(id) {
            Some(i) => {
                let ghost s = self.data@;
                proof {
                    assert forall|j: int|
                        #![trigger s[j]]
                        (i as int) < j < s.len() implies s[j].0@ != s[i as int].0@ by {
                        assert(s[i as int].0@ != s[j].0@);
                    }
                    lemma_assoc_remove(s, i as int);
                }
                let removed = self.data.remove(i);
                proof {
                    assert forall|a: int, b: int|
                        #![trigger self.data@[a], self.data@[b]]
                        0 <= a < b < self.data@.len() implies self.data@[a].0@
                        != self.data@[b].0@ by {
                        let sa: int = if a < i as int { a } else { a + 1 };
                        let sb: int = if b < i as int { b } else { b + 1 };
                        assert(self.data@[a] == s[sa]);
                        assert(self.data@[b] == s[sb]);
                        assert(s[sa].0@ != s[sb].0@);
                    }
                }
            },
            None => {
                proof {
                    lemma_assoc_none(self.data@, id@);
                    assert(assoc_map(self.data@).remove(id@) =~= assoc_map(self.data@));
                }
            },
        }
    }
}

} // verus!
