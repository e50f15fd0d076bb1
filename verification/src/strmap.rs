//! An ordered string-keyed map, the store behind header maps, query and
//! path parameters, and the per-request context. Entries keep insertion
//! order, which fixes the order in which headers are serialized; lookup
//! finds the first entry with the key, and insertion replaces it in place.

use vstd::prelude::*;

verus! {

/// The first index whose entry has key `k`, or -1 when no entry does.
pub open spec fn find_key(es: Seq<(Seq<char>, Seq<char>)>, k: Seq<char>) -> int
    decreases es.len(),
{
    if es.len() == 0 {
        -1
    } else if es[0].0 == k {
        0
    } else {
        let r = find_key(es.drop_first(), k);
        if r < 0 {
            -1
        } else {
            r + 1
        }
    }
}

/// The mapping an entry sequence denotes: the first entry with a key wins.
pub open spec fn assoc_map(es: Seq<(Seq<char>, Seq<char>)>) -> Map<Seq<char>, Seq<char>>
    decreases es.len(),
{
    if es.len() == 0 {
        Map::empty()
    } else {
        assoc_map(es.drop_first()).insert(es[0].0, es[0].1)
    }
}

/// What insertion does to the entry sequence: replace the first entry with
/// the key in place, or append a new entry.
pub open spec fn spec_insert(
    es: Seq<(Seq<char>, Seq<char>)>,
    k: Seq<char>,
    v: Seq<char>,
) -> Seq<(Seq<char>, Seq<char>)> {
    let i = find_key(es, k);
    if i < 0 {
        es.push((k, v))
    } else {
        es.update(i, (k, v))
    }
}

pub broadcast proof fn lemma_find_key_lookup(es: Seq<(Seq<char>, Seq<char>)>, k: Seq<char>)
    ensures
        #![trigger find_key(es, k)]
        find_key(es, k) < 0 ==> !assoc_map(es).contains_key(k),
        find_key(es, k) >= 0 ==> {
            &&& find_key(es, k) < es.len()
            &&& es[find_key(es, k)].0 == k
            &&& assoc_map(es).contains_key(k)
            &&& assoc_map(es)[k] == es[find_key(es, k)].1
        },
        find_key(es, k) >= 0 ==> forall|j: int| 0 <= j < find_key(es, k) ==> es[j].0 != k,
    decreases es.len(),
{
    if es.len() > 0 {
        lemma_find_key_lookup(es.drop_first(), k);
        let r = find_key(es, k);
        if es[0].0 != k && r >= 0 {
            assert forall|j: int| 0 <= j < r implies es[j].0 != k by {
                if j > 0 {
                    assert(es[j] == es.drop_first()[j - 1]);
                }
            }
        }
    }
}

pub proof fn lemma_insert_assoc(es: Seq<(Seq<char>, Seq<char>)>, k: Seq<char>, v: Seq<char>)
    ensures
        assoc_map(spec_insert(es, k, v)) == assoc_map(es).insert(k, v),
    decreases es.len(),
{
    lemma_find_key_lookup(es, k);
    let i = find_key(es, k);
    if es.len() == 0 {
        let one = es.push((k, v));
        assert(spec_insert(es, k, v) == one);
        assert(one.drop_first() =~= Seq::<(Seq<char>, Seq<char>)>::empty());
        assert(assoc_map(one) == assoc_map(one.drop_first()).insert(k, v));
        assert(assoc_map(spec_insert(es, k, v)) =~= assoc_map(es).insert(k, v));
    } else if es[0].0 == k {
        assert(i == 0);
        let up = es.update(0, (k, v));
        assert(spec_insert(es, k, v) == up);
        assert(up.drop_first() =~= es.drop_first());
        assert(up[0] == (k, v));
        assert(assoc_map(up) == assoc_map(es.drop_first()).insert(k, v));
        assert(assoc_map(es) == assoc_map(es.drop_first()).insert(k, es[0].1));
        assert(assoc_map(spec_insert(es, k, v)) =~= assoc_map(es).insert(k, v));
    } else {
        lemma_insert_assoc(es.drop_first(), k, v);
        if i < 0 {
            assert(find_key(es.drop_first(), k) < 0);
            let pu = es.push((k, v));
            assert(spec_insert(es, k, v) == pu);
            assert(pu.drop_first() =~= es.drop_first().push((k, v)));
            assert(pu[0] == es[0]);
            assert(spec_insert(es.drop_first(), k, v) == es.drop_first().push((k, v)));
            assert(assoc_map(pu) == assoc_map(es.drop_first().push((k, v))).insert(
                es[0].0,
                es[0].1,
            ));
            assert(assoc_map(pu) == assoc_map(es.drop_first()).insert(k, v).insert(
                es[0].0,
                es[0].1,
            ));
            assert(assoc_map(spec_insert(es, k, v)) =~= assoc_map(es).insert(k, v));
        } else {
            assert(find_key(es.drop_first(), k) == i - 1);
            assert(0 <= i < es.len());
            let up = es.update(i, (k, v));
            assert(spec_insert(es, k, v) == up);
            assert(up.drop_first() =~= es.drop_first().update(i - 1, (k, v)));
            assert(up[0] == es[0]);
            assert(spec_insert(es.drop_first(), k, v) == es.drop_first().update(i - 1, (k, v)));
            assert(assoc_map(up) == assoc_map(es.drop_first().update(i - 1, (k, v))).insert(
                es[0].0,
                es[0].1,
            ));
            assert(assoc_map(up) == assoc_map(es.drop_first()).insert(k, v).insert(
                es[0].0,
                es[0].1,
            ));
            assert(assoc_map(spec_insert(es, k, v)) =~= assoc_map(es).insert(k, v));
        }
    }
}

/// An ordered map from strings to strings.
#[derive(Debug)]
pub struct StrMap {
    entries: Vec<(String, String)>,
}

impl View for StrMap {
    type V = Seq<(Seq<char>, Seq<char>)>;

    closed spec fn view(&self) -> Seq<(Seq<char>, Seq<char>)> {
        Seq::new(self.entries.len() as nat, |i: int| (self.entries[i].0@, self.entries[i].1@))
    }
}

impl StrMap {
    /// The mapping this map denotes.
    pub open spec fn as_map(&self) -> Map<Seq<char>, Seq<char>> {
        assoc_map(self@)
    }

    /// Creates an empty map.
    pub fn new() -> (r: StrMap)
        ensures
            r@ == Seq::<(Seq<char>, Seq<char>)>::empty(),
            r.as_map() == Map::<Seq<char>, Seq<char>>::empty(),
    {
        let r = StrMap { entries: Vec::new() };
        assert(r@ =~= Seq::<(Seq<char>, Seq<char>)>::empty());
        r
    }

    /// The number of entries.
    pub fn len(&self) -> (r: usize)
        ensures
            r == self@.len(),
    {
        self.entries.len()
    }

    /// The entry at an index, in insertion order.
    pub fn entry_at(&self, i: usize) -> (r: (&String, &String))
        requires
            i < self@.len(),
        ensures
            r.0@ == self@[i as int].0,
            r.1@ == self@[i as int].1,
    {
        (&self.entries[i].0, &self.entries[i].1)
    }

    /// Looks a key up; the first entry with the key decides.
    #[verifier::loop_isolation(false)]
    pub fn get(&self, k: &str) -> (r: Option<&String>)
        ensures
            match r {
                Some(v) => self.as_map().contains_key(k@) && v@ == self.as_map()[k@],
                None => !self.as_map().contains_key(k@),
            },
    {
        broadcast use lemma_find_key_lookup;

        let n = self.entries.len();
        let mut i: usize = 0;
        while i < n
            invariant
                n == self@.len(),
                n == self.entries.len(),
                0 <= i <= n,
                forall|j: int| 0 <= j < i ==> self@[j].0 != k@,
            decreases n - i,
        {
            if crate::text::str_eq(self.entries[i].0.as_str(), k) {
                proof {
                    lemma_find_key_ge(self@, k@, i as int);
                    lemma_find_key_lookup(self@, k@);
                }
                return Some(&self.entries[i].1);
            }
            i += 1;
        }
        proof {
            lemma_find_key_none(self@, k@);
        }
        None
    }

    /// Whether the map has an entry for the key.
    pub fn contains(&self, k: &str) -> (r: bool)
        ensures
            r == self.as_map().contains_key(k@),
    {
        match self.get(k) {
            Some(_) => true,
            None => false,
        }
    }

    /// Inserts a value for a key, replacing the first entry with that key in
    /// place, or appending a new entry.
    #[verifier::loop_isolation(false)]
    pub fn insert(&mut self, k: String, v: String)
        ensures
            final(self)@ == spec_insert(old(self)@, k@, v@),
            final(self).as_map() == old(self).as_map().insert(k@, v@),
    {
        broadcast use lemma_find_key_lookup;

        proof {
            lemma_insert_assoc(old(self)@, k@, v@);
        }
        let n = self.entries.len();
        let mut i: usize = 0;
        while i < n
            invariant
                n == self@.len(),
                n == self.entries.len(),
                self@ == old(self)@,
                self.entries == old(self).entries,
                0 <= i <= n,
                forall|j: int| 0 <= j < i ==> self@[j].0 != k@,
            decreases n - i,
        {
            if crate::text::str_eq(self.entries[i].0.as_str(), k.as_str()) {
                proof {
                    lemma_find_key_ge(self@, k@, i as int);
                }
                self.entries[i] = (k, v);
                assert(self@ =~= spec_insert(old(self)@, k@, v@));
                assert(assoc_map(self@) == assoc_map(old(self)@).insert(k@, v@));
                return ;
            }
            i += 1;
        }
        proof {
            lemma_find_key_none(self@, k@);
        }
        self.entries.push((k, v));
        assert(self@ =~= spec_insert(old(self)@, k@, v@));
    }
}

proof fn lemma_find_key_ge(es: Seq<(Seq<char>, Seq<char>)>, k: Seq<char>, i: int)
    requires
        0 <= i < es.len(),
        es[i].0 == k,
        forall|j: int| 0 <= j < i ==> es[j].0 != k,
    ensures
        find_key(es, k) == i,
    decreases es.len(),
{
    if i > 0 {
        lemma_find_key_ge(es.drop_first(), k, i - 1);
    }
}

proof fn lemma_find_key_none(es: Seq<(Seq<char>, Seq<char>)>, k: Seq<char>)
    requires
        forall|j: int| 0 <= j < es.len() ==> es[j].0 != k,
    ensures
        find_key(es, k) < 0,
        !assoc_map(es).contains_key(k),
    decreases es.len(),
{
    if es.len() > 0 {
        lemma_find_key_none(es.drop_first(), k);
    }
}

} // verus!
