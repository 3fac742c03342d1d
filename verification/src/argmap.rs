//! The collected argument values: a mapping from argument key to validated
//! value, backed by a vector of entries and viewed as a `Map` over character
//! sequences. Lookups are by key; insertion order does not matter to readers.

use vstd::prelude::*;

verus! {

/// The mapping an association list denotes; an earlier entry shadows a later
/// one with the same key.
pub closed spec fn spec_assoc(es: Seq<(String, String)>) -> Map<Seq<char>, Seq<char>>
    decreases es.len(),
{
    if es.len() == 0 {
        Map::empty()
    } else {
        spec_assoc(es.skip(1)).insert(es[0].0@, es[0].1@)
    }
}

proof fn lemma_assoc_skip(es: Seq<(String, String)>, k: Seq<char>, i: int)
    requires
        0 <= i <= es.len(),
        forall|j: int| 0 <= j < i ==> es[j].0@ != k,
    ensures
        spec_assoc(es).contains_key(k) == spec_assoc(es.skip(i)).contains_key(k),
        spec_assoc(es).contains_key(k) ==> spec_assoc(es)[k] == spec_assoc(es.skip(i))[k],
    decreases i,
{
    if i > 0 {
        lemma_assoc_skip(es.skip(1), k, i - 1);
        assert(es.skip(1).skip(i - 1) =~= es.skip(i));
    } else {
        assert(es.skip(0) =~= es);
    }
}

/// The map of collected argument values.
pub struct ArgMap {
    entries: Vec<(String, String)>,
}

impl View for ArgMap {
    type V = Map<Seq<char>, Seq<char>>;

    closed spec fn view(&self) -> Map<Seq<char>, Seq<char>> {
        spec_assoc(self.entries@)
    }
}

impl ArgMap {
    /// An empty value map.
    pub fn new() -> (r: ArgMap)
        ensures
            r@ == Map::<Seq<char>, Seq<char>>::empty(),
    {
        ArgMap { entries: Vec::new() }
    }

    /// Binds `key` to `value`, replacing any earlier binding of `key`.
    pub fn insert(&mut self, key: String, value: String)
        ensures
            final (self)@ == old(self)@.insert(key@, value@),
    {
        let ghost prior = self.entries@;
        self.entries.insert(0, (key, value));
        proof {
            assert(self.entries@.skip(1) =~= prior);
        }
    }

    /// Whether `key` is bound.
    pub fn contains_key(&self, key: &str) -> (r: bool)
        ensures
            r == self@.contains_key(key@),
    {
        let mut i: usize = 0;
        while i < self.entries.len()
            invariant
                i <= self.entries@.len(),
                forall|j: int| 0 <= j < i ==> self.entries@[j].0@ != key@,
            decreases self.entries@.len() - i,
        {
            if crate::strutil::str_eq(self.entries[i].0.as_str(), key) {
                proof {
                    lemma_assoc_skip(self.entries@, key@, i as int);
                }
                return true;
            }
            i = i + 1;
        }
        proof {
            lemma_assoc_skip(self.entries@, key@, self.entries@.len() as int);
            assert(self.entries@.skip(self.entries@.len() as int) =~= Seq::empty());
        }
        false
    }

    /// The value bound to `key`, if any, owned.
    pub fn get(&self, key: &str) -> (r: Option<String>)
        ensures
            match r {
                Some(v) => self@.contains_key(key@) && v@ == self@[key@],
                None => !self@.contains_key(key@),
            },
    {
        let mut i: usize = 0;
        while i < self.entries.len()
            invariant
                i <= self.entries@.len(),
                forall|j: int| 0 <= j < i ==> self.entries@[j].0@ != key@,
            decreases self.entries@.len() - i,
        {
            if crate::strutil::str_eq(self.entries[i].0.as_str(), key) {
                proof {
                    lemma_assoc_skip(self.entries@, key@, i as int);
                }
                let v = self.entries[i].1.clone();
                return Some(v);
            }
            i = i + 1;
        }
        proof {
            lemma_assoc_skip(self.entries@, key@, self.entries@.len() as int);
            assert(self.entries@.skip(self.entries@.len() as int) =~= Seq::empty());
        }
        None
    }
}

} // verus!
