//! A small string-keyed map with `Map<Seq<char>, Seq<char>>` as its view,
//! used for route parameters, cookies and query strings. Inserting an existing
//! key replaces its binding, as a hash map would: the newest entry wins.

use vstd::prelude::*;

verus! {

struct Entry {
    key: String,
    value: String,
}

pub struct StringMap {
    entries: Vec<Entry>,
}

spec fn map_of(es: Seq<Entry>) -> Map<Seq<char>, Seq<char>>
    decreases es.len(),
{
    if es.len() == 0 {
        Map::empty()
    } else {
        map_of(es.drop_last()).insert(es.last().key@, es.last().value@)
    }
}

proof fn lemma_map_of_contains(es: Seq<Entry>, k: Seq<char>)
    ensures
        map_of(es).contains_key(k) <==> exists|i: int|
            0 <= i < es.len() && #[trigger] es[i].key@ == k,
    decreases es.len(),
{
    if es.len() > 0 {
        lemma_map_of_contains(es.drop_last(), k);
        if map_of(es).contains_key(k) {
            if es.last().key@ == k {
                assert(es[es.len() - 1].key@ == k);
            } else {
                let prefix = es.drop_last();
                let i = choose|i: int| 0 <= i < prefix.len() && #[trigger] prefix[i].key@ == k;
                assert(es[i].key@ == k);
            }
        }
        if exists|i: int| 0 <= i < es.len() && #[trigger] es[i].key@ == k {
            let i = choose|i: int| 0 <= i < es.len() && #[trigger] es[i].key@ == k;
            if i < es.len() - 1 {
                assert(es.drop_last()[i].key@ == k);
            }
        }
    }
}

/// The value of a key is the one of its newest entry.
proof fn lemma_map_of_newest(es: Seq<Entry>, k: Seq<char>, i: int)
    requires
        0 <= i < es.len(),
        es[i].key@ == k,
        forall|j: int| i < j < es.len() ==> es[j].key@ != k,
    ensures
        map_of(es).contains_key(k),
        map_of(es)[k] == es[i].value@,
    decreases es.len(),
{
    if i == es.len() - 1 {
    } else {
        assert(es.drop_last()[i] == es[i]);
        lemma_map_of_newest(es.drop_last(), k, i);
        assert(es.last().key@ != k);
    }
}

impl StringMap {
    pub closed spec fn view(&self) -> Map<Seq<char>, Seq<char>> {
        map_of(self.entries@)
    }

    pub fn new() -> (m: StringMap)
        ensures
            m@ == Map::<Seq<char>, Seq<char>>::empty(),
    {
        StringMap { entries: Vec::new() }
    }

    pub fn clear(&mut self)
        ensures
            final(self)@ == Map::<Seq<char>, Seq<char>>::empty(),
    {
        self.entries = Vec::new();
    }

    pub fn get(&self, k: &str) -> (r: Option<&String>)
        ensures
            r is Some <==> self@.contains_key(k@),
            r is Some ==> r.unwrap()@ == self@[k@],
    {
        let n = self.entries.len();
        let mut i: usize = n;
        while i > 0
            invariant
                0 <= i <= n,
                n == self.entries@.len(),
                forall|j: int| i <= j < n ==> self.entries@[j].key@ != k@,
            decreases i,
        {
            i = i - 1;
            if crate::text::str_eq(self.entries[i].key.as_str(), k) {
                proof {
                    lemma_map_of_newest(self.entries@, k@, i as int);
                }
                return Some(&self.entries[i].value);
            }
        }
        proof {
            lemma_map_of_contains(self.entries@, k@);
        }
        None
    }

    pub fn insert(&mut self, k: String, v: String)
        ensures
            final(self)@ == old(self)@.insert(k@, v@),
    {
        let ghost pre = self.entries@;
        self.entries.push(Entry { key: k, value: v });
        proof {
            assert(self.entries@.drop_last() =~= pre);
        }
    }
}

} // verus!
