//! A string-keyed map backed by a vector of pairs.
//!
//! The library needs a few small maps whose contents its contracts can speak
//! about: envelope metadata, the in-memory journal and snapshot tables, and
//! the in-memory view store. `StringMap` keeps its entries in insertion
//! order, holds each key at most once, and is abstracted in specifications by
//! `Map<Seq<char>, V>` (through `@`) and by its ordered entry sequence
//! (through `entries`).

use vstd::prelude::*;

verus! {

/// The mathematical content of an entry sequence: later entries win.
pub open spec fn map_of<V>(s: Seq<(String, V)>) -> Map<Seq<char>, V>
    decreases s.len(),
{
    if s.len() == 0 {
        Map::empty()
    } else {
        map_of(s.drop_last()).insert(s.last().0@, s.last().1)
    }
}

/// Each key occurs at most once.
pub open spec fn unique_keys<V>(s: Seq<(String, V)>) -> bool {
    forall|i: int, j: int| 0 <= i < j < s.len() ==> s[i].0@ != s[j].0@
}

#[derive(Debug)]
pub struct StringMap<V> {
    pairs: Vec<(String, V)>,
}

/// A key occurs in the map iff some entry holds it.
pub proof fn lemma_map_of_dom<V>(s: Seq<(String, V)>, k: Seq<char>)
    ensures
        map_of(s).dom().contains(k) <==> exists|i: int| 0 <= i < s.len() && s[i].0@ == k,
    decreases s.len(),
{
    if s.len() > 0 {
        lemma_map_of_dom(s.drop_last(), k);
        if s.last().0@ != k && map_of(s).dom().contains(k) {
            let i = choose|i: int| 0 <= i < s.drop_last().len() && s.drop_last()[i].0@ == k;
            assert(s[i].0@ == k);
        }
        if exists|i: int| 0 <= i < s.len() && s[i].0@ == k {
            let i = choose|i: int| 0 <= i < s.len() && s[i].0@ == k;
            if i < s.len() - 1 {
                assert(s.drop_last()[i].0@ == k);
            }
        }
    }
}

/// With unique keys, the entry holding a key gives the map's value at it.
pub proof fn lemma_map_of_index<V>(s: Seq<(String, V)>, i: int)
    requires
        unique_keys(s),
        0 <= i < s.len(),
    ensures
        map_of(s).dom().contains(s[i].0@),
        map_of(s)[s[i].0@] == s[i].1,
    decreases s.len(),
{
    if i == s.len() - 1 {
    } else {
        lemma_map_of_index(s.drop_last(), i);
        assert(s.drop_last()[i] == s[i]);
        assert(s.last().0@ != s[i].0@);
    }
}

impl<V> StringMap<V> {
    /// Entries in insertion order; the key of each is unique.
    pub closed spec fn entries(&self) -> Seq<(String, V)> {
        self.pairs@
    }

    pub open spec fn view(&self) -> Map<Seq<char>, V> {
        map_of(self.entries())
    }

    /// Keys are unique; constructors establish it and methods keep it.
    pub open spec fn wf(&self) -> bool {
        unique_keys(self.entries())
    }

    pub fn new() -> (r: Self)
        ensures
            r.wf(),
            r@ == Map::<Seq<char>, V>::empty(),
            r.entries() == Seq::<(String, V)>::empty(),
    {
        StringMap { pairs: Vec::new() }
    }

    pub fn len(&self) -> (r: usize)
        ensures
            r == self.entries().len(),
    {
        self.pairs.len()
    }

    pub fn is_empty(&self) -> (r: bool)
        ensures
            r == (self.entries().len() == 0),
    {
        self.pairs.len() == 0
    }

    pub fn entry_at(&self, i: usize) -> (r: (&String, &V))
        requires
            i < self.entries().len(),
        ensures
            *r.0 == self.entries()[i as int].0,
            *r.1 == self.entries()[i as int].1,
    {
        let p = &self.pairs[i];
        (&p.0, &p.1)
    }

    pub fn contains_key(&self, k: &String) -> (r: bool)
        requires
            self.wf(),
        ensures
            r == self@.dom().contains(k@),
    {
        let n = self.pairs.len();
        let mut i: usize = 0;
        while i < n
            invariant
                n == self.pairs@.len(),
                0 <= i <= n,
                forall|j: int| 0 <= j < i ==> self.pairs@[j].0@ != k@,
            decreases n - i,
        {
            let p = &self.pairs[i];
            if p.0 == *k {
                proof {
                    lemma_map_of_dom(self.entries(), k@);
                }
                return true;
            }
            i = i + 1;
        }
        proof {
            lemma_map_of_dom(self.entries(), k@);
        }
        false
    }

    pub fn get(&self, k: &String) -> (r: Option<&V>)
        requires
            self.wf(),
        ensures
            match r {
                Some(v) => self@.dom().contains(k@) && *v == self@[k@],
                None => !self@.dom().contains(k@),
            },
    {
        let n = self.pairs.len();
        let mut i: usize = 0;
        while i < n
            invariant
                n == self.pairs@.len(),
                0 <= i <= n,
                self.wf(),
                forall|j: int| 0 <= j < i ==> self.pairs@[j].0@ != k@,
            decreases n - i,
        {
            let p = &self.pairs[i];
            if p.0 == *k {
                proof {
                    lemma_map_of_index(self.entries(), i as int);
                }
                return Some(&p.1);
            }
            i = i + 1;
        }
        proof {
            lemma_map_of_dom(self.entries(), k@);
        }
        None
    }

    /// Upsert: a held key is overwritten in place, a new key is appended.
    pub fn insert(&mut self, k: String, v: V)
        requires
            old(self).wf(),
        ensures
            final(self).wf(),
            final(self)@ == old(self)@.insert(k@, v),
            old(self)@.dom().contains(k@) ==> {
                exists|i: int|
                    0 <= i < old(self).entries().len() && old(self).entries()[i].0@ == k@
                        && final(self).entries() == old(self).entries().update(i, (k, v))
            },
            !old(self)@.dom().contains(k@) ==> final(self).entries() == old(self).entries().push(
                (k, v),
            ),
    {
        let n = self.pairs.len();
        let mut i: usize = 0;
        while i < n
            invariant
                *self == *old(self),
                n == self.pairs@.len(),
                0 <= i <= n,
                self.wf(),
                forall|j: int| 0 <= j < i ==> self.pairs@[j].0@ != k@,
            decreases n - i,
        {
            let found = {
                let p = &self.pairs[i];
                p.0 == k
            };
            if found {
                proof {
                    lemma_map_of_update(self.entries(), i as int, k@, v);
                    lemma_map_of_dom(self.entries(), k@);
                }
                let e = &mut self.pairs[i];
                *e = (k, v);
                proof {
                    let oi = i as int;
                    assert(old(self).entries()[oi].0@ == k@);
                    assert(self.entries() == old(self).entries().update(oi, (k, v)));
                    assert(unique_keys(self.pairs@)) by {
                        assert(forall|a: int, b: int|
                            0 <= a < b < self.pairs@.len() ==> self.pairs@[a].0@
                                != self.pairs@[b].0@);
                    }
                }
                return ;
            }
            i = i + 1;
        }
        proof {
            lemma_map_of_dom(self.entries(), k@);
        }
        self.pairs.push((k, v));
        proof {
            assert(self.pairs@.drop_last() =~= old(self).pairs@);
        }
    }

    pub fn clear(&mut self)
        ensures
            final(self).wf(),
            final(self)@ == Map::<Seq<char>, V>::empty(),
            final(self).entries() == Seq::<(String, V)>::empty(),
    {
        self.pairs = Vec::new();
    }
}

/// Replacing the entry that holds a key updates the map at that key alone.
proof fn lemma_map_of_update<V>(s: Seq<(String, V)>, i: int, k: Seq<char>, v: V)
    requires
        unique_keys(s),
        0 <= i < s.len(),
        s[i].0@ == k,
    ensures
        forall|kk: String, vv: V|
            kk@ == k ==> map_of(s.update(i, (kk, vv))) == map_of(s).insert(k, vv),
    decreases s.len(),
{
    assert forall|kk: String, vv: V| kk@ == k implies map_of(s.update(i, (kk, vv))) == map_of(
        s,
    ).insert(k, vv) by {
        let t = s.update(i, (kk, vv));
        if i == s.len() - 1 {
            assert(t.drop_last() =~= s.drop_last());
            assert(map_of(t) == map_of(s.drop_last()).insert(k, vv));
            assert(map_of(s).insert(k, vv) =~= map_of(s.drop_last()).insert(k, vv));
        } else {
            lemma_map_of_update(s.drop_last(), i, k, v);
            assert(t.drop_last() =~= s.drop_last().update(i, (kk, vv)));
            assert(t.last() == s.last());
            assert(map_of(t) == map_of(s.drop_last().update(i, (kk, vv))).insert(
                s.last().0@,
                s.last().1,
            ));
            assert(map_of(s.drop_last().update(i, (kk, vv))) == map_of(s.drop_last()).insert(
                k,
                vv,
            ));
            assert(s.last().0@ != k);
            assert(map_of(s.drop_last()).insert(k, vv).insert(s.last().0@, s.last().1)
                =~= map_of(s.drop_last()).insert(s.last().0@, s.last().1).insert(k, vv));
        }
    }
}

impl StringMap<String> {
    /// A value-equal copy.
    pub fn duplicate(&self) -> (r: Self)
        ensures
            r.entries() == self.entries(),
            r@ == self@,
            r.wf() == self.wf(),
    {
        let n = self.pairs.len();
        let mut pairs: Vec<(String, String)> = Vec::new();
        let mut i: usize = 0;
        while i < n
            invariant
                n == self.pairs@.len(),
                0 <= i <= n,
                pairs@ == self.pairs@.take(i as int),
            decreases n - i,
        {
            let p = &self.pairs[i];
            pairs.push((p.0.clone(), p.1.clone()));
            proof {
                assert(pairs@ =~= self.pairs@.take(i + 1));
            }
            i = i + 1;
        }
        proof {
            assert(pairs@ =~= self.pairs@);
        }
        StringMap { pairs }
    }

    /// The merge the engine applies to metadata: `overrides` wins on a key
    /// held by both maps, `defaults` fills the rest.
    pub fn merged(defaults: &StringMap<String>, overrides: &StringMap<String>) -> (r: StringMap<
        String,
    >)
        requires
            defaults.wf(),
            overrides.wf(),
        ensures
            r.wf(),
            r@ == defaults@.union_prefer_right(overrides@),
    {
        let mut r = defaults.duplicate();
        let n = overrides.pairs.len();
        let mut i: usize = 0;
        while i < n
            invariant
                n == overrides.pairs@.len(),
                0 <= i <= n,
                r.wf(),
                r@ == defaults@.union_prefer_right(map_of(overrides.pairs@.take(i as int))),
                unique_keys(overrides.pairs@),
            decreases n - i,
        {
            let p = &overrides.pairs[i];
            r.insert(p.0.clone(), p.1.clone());
            proof {
                let t0 = overrides.pairs@.take(i as int);
                let t1 = overrides.pairs@.take(i + 1);
                assert(t1.drop_last() =~= t0);
                assert(map_of(t1) == map_of(t0).insert(overrides.pairs@[i as int].0@,
                    overrides.pairs@[i as int].1));
                assert(defaults@.union_prefer_right(map_of(t0)).insert(
                    overrides.pairs@[i as int].0@,
                    overrides.pairs@[i as int].1,
                ) =~= defaults@.union_prefer_right(map_of(t1)));
            }
            i = i + 1;
        }
        proof {
            assert(overrides.pairs@.take(n as int) =~= overrides.pairs@);
        }
        r
    }
}

} // verus!
