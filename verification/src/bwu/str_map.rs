//! A map from strings, kept as a list of entries with distinct keys.

use vstd::prelude::*;

use crate::text;

verus! {

/// A map from strings to values.
pub struct StrMap<V> {
    entries: Vec<(String, V)>,
    map: Ghost<Map<Seq<char>, V>>,
}

impl<V> View for StrMap<V> {
    type V = Map<Seq<char>, V>;

    closed spec fn view(&self) -> Map<Seq<char>, V> {
        self.map@
    }
}

/// What a map of values stands for.
pub open spec fn map_view<V: View>(m: Map<Seq<char>, V>) -> Map<Seq<char>, V::V> {
    Map::new(|k: Seq<char>| m.contains_key(k), |k: Seq<char>| m[k]@)
}

pub broadcast proof fn lemma_map_view_insert<V: View>(m: Map<Seq<char>, V>, k: Seq<char>, v: V)
    ensures
        #[trigger] map_view(m.insert(k, v)) == map_view(m).insert(k, v@),
{
    assert(map_view(m.insert(k, v)) =~= map_view(m).insert(k, v@));
}

pub broadcast proof fn lemma_map_view_remove<V: View>(m: Map<Seq<char>, V>, k: Seq<char>)
    ensures
        #[trigger] map_view(m.remove(k)) == map_view(m).remove(k),
{
    assert(map_view(m.remove(k)) =~= map_view(m).remove(k));
}

/// The entries list each key of the map once, with its value.
spec fn lists<V>(entries: Seq<(String, V)>, map: Map<Seq<char>, V>) -> bool {
    &&& forall|i: int, j: int|
        0 <= i < j < entries.len() ==> (#[trigger] entries[i]).0@ != (#[trigger] entries[j]).0@
    &&& forall|i: int|
        0 <= i < entries.len() ==> map.contains_key((#[trigger] entries[i]).0@)
            && map[entries[i].0@] == entries[i].1
    &&& forall|k: Seq<char>| #[trigger]
        map.contains_key(k) ==> exists|i: int| 0 <= i < entries.len() && (#[trigger] entries[i]).0@ == k
    &&& map.dom().finite()
    &&& map.dom().len() == entries.len()
}

proof fn lemma_push<V>(entries: Seq<(String, V)>, map: Map<Seq<char>, V>, key: String, value: V)
    requires
        lists(entries, map),
        !map.contains_key(key@),
    ensures
        lists(entries.push((key, value)), map.insert(key@, value)),
{
    let more = entries.push((key, value));
    let bigger = map.insert(key@, value);
    assert forall|i: int, j: int| 0 <= i < j < more.len() implies (#[trigger] more[i]).0@ != (
    #[trigger] more[j]).0@ by {
        if j == entries.len() {
            assert(map.contains_key(entries[i].0@));
        } else {
            assert(more[i] == entries[i] && more[j] == entries[j]);
        }
    }
    assert forall|i: int| 0 <= i < more.len() implies bigger.contains_key((#[trigger] more[i]).0@)
        && bigger[more[i].0@] == more[i].1 by {
        if i < entries.len() {
            assert(more[i] == entries[i]);
        }
    }
    assert forall|k: Seq<char>| #[trigger] bigger.contains_key(k) implies exists|i: int|
        0 <= i < more.len() && (#[trigger] more[i]).0@ == k by {
        if k == key@ {
            assert(more[entries.len() as int].0@ == k);
        } else {
            assert(map.contains_key(k));
            let i = choose|i: int| 0 <= i < entries.len() && (#[trigger] entries[i]).0@ == k;
            assert(more[i].0@ == k);
        }
    }
}

proof fn lemma_remove<V>(entries: Seq<(String, V)>, map: Map<Seq<char>, V>, at: int)
    requires
        lists(entries, map),
        0 <= at < entries.len(),
    ensures
        lists(entries.remove(at), map.remove(entries[at].0@)),
{
    let fewer = entries.remove(at);
    let key = entries[at].0@;
    let smaller = map.remove(key);
    assert(map.contains_key(key));
    assert forall|i: int, j: int| 0 <= i < j < fewer.len() implies (#[trigger] fewer[i]).0@ != (
    #[trigger] fewer[j]).0@ by {
        let a = if i < at {
            i
        } else {
            i + 1
        };
        let b = if j < at {
            j
        } else {
            j + 1
        };
        assert(fewer[i] == entries[a] && fewer[j] == entries[b]);
    }
    assert forall|i: int| 0 <= i < fewer.len() implies smaller.contains_key(
        (#[trigger] fewer[i]).0@,
    ) && smaller[fewer[i].0@] == fewer[i].1 by {
        let a = if i < at {
            i
        } else {
            i + 1
        };
        assert(fewer[i] == entries[a]);
        assert(entries[a].0@ != entries[at].0@);
    }
    assert forall|k: Seq<char>| #[trigger] smaller.contains_key(k) implies exists|i: int|
        0 <= i < fewer.len() && (#[trigger] fewer[i]).0@ == k by {
        assert(map.contains_key(k));
        let a = choose|i: int| 0 <= i < entries.len() && (#[trigger] entries[i]).0@ == k;
        if a < at {
            assert(fewer[a].0@ == k);
        } else {
            assert(fewer[a - 1].0@ == k);
        }
    }
}

impl<V> StrMap<V> {
    #[verifier::type_invariant]
    spec fn inv(&self) -> bool {
        lists(self.entries@, self.map@)
    }

    /// The keys, in the order in which the map is walked.
    pub closed spec fn keys(&self) -> Seq<Seq<char>> {
        Seq::new(self.entries@.len(), |i: int| self.entries@[i].0@)
    }

    pub fn new() -> (r: StrMap<V>)
        ensures
            r@ == Map::<Seq<char>, V>::empty(),
    {
        StrMap { entries: Vec::new(), map: Ghost(Map::empty()) }
    }

    fn position(&self, key: &str) -> (r: Option<usize>)
        ensures
            match r {
                Some(i) => i < self.entries@.len() && self.entries@[i as int].0@ == key@,
                None => !self@.contains_key(key@),
            },
    {
        proof {
            use_type_invariant(self);
        }
        let mut i: usize = 0;
        while i < self.entries.len()
            invariant
                i <= self.entries@.len(),
                forall|j: int| 0 <= j < i ==> (#[trigger] self.entries@[j]).0@ != key@,
            decreases self.entries@.len() - i,
        {
            if text::same(self.entries[i].0.as_str(), key) {
                return Some(i);
            }
            i = i + 1;
        }
        None
    }

    pub fn contains_key(&self, key: &str) -> (r: bool)
        ensures
            r == self@.contains_key(key@),
    {
        proof {
            use_type_invariant(self);
        }
        match self.position(key) {
            Some(i) => {
                assert(self@.contains_key(self.entries@[i as int].0@));
                true
            },
            None => false,
        }
    }

    pub fn get(&self, key: &str) -> (r: Option<&V>)
        ensures
            match r {
                Some(v) => self@.contains_key(key@) && *v == self@[key@],
                None => !self@.contains_key(key@),
            },
    {
        proof {
            use_type_invariant(self);
        }
        match self.position(key) {
            Some(i) => {
                assert(self@.contains_key(self.entries@[i as int].0@));
                Some(&self.entries[i].1)
            },
            None => None,
        }
    }

    /// Takes a value out of the map.
    pub fn remove(&mut self, key: &str) -> (r: Option<V>)
        ensures
            final(self)@ == old(self)@.remove(key@),
            match r {
                Some(v) => old(self)@.contains_key(key@) && v == old(self)@[key@],
                None => !old(self)@.contains_key(key@),
            },
    {
        match self.position(key) {
            Some(i) => {
                let ghost map = self.map@;
                let mut whole: StrMap<V> = StrMap::new();
                proof {
                    use_type_invariant(&*self);
                    assert(map.contains_key(self.entries@[i as int].0@));
                    lemma_remove(self.entries@, map, i as int);
                }
                std::mem::swap(&mut whole, self);
                let mut entries = whole.entries;
                let (_, value) = entries.remove(i);
                *self = StrMap { entries, map: Ghost(map.remove(key@)) };
                Some(value)
            },
            None => {
                assert(self@.remove(key@) =~= self@);
                None
            },
        }
    }

    /// Puts a value into the map, and gives back the one that it replaces.
    pub fn insert(&mut self, key: &str, value: V) -> (r: Option<V>)
        ensures
            final(self)@ == old(self)@.insert(key@, value),
            match r {
                Some(v) => old(self)@.contains_key(key@) && v == old(self)@[key@],
                None => !old(self)@.contains_key(key@),
            },
    {
        let earlier = self.remove(key);
        let ghost map = self.map@;
        let owned = key.to_owned();
        let mut whole: StrMap<V> = StrMap::new();
        proof {
            use_type_invariant(&*self);
            lemma_push(self.entries@, map, owned, value);
            assert(old(self)@.remove(key@).insert(key@, value) =~= old(self)@.insert(key@, value));
        }
        std::mem::swap(&mut whole, self);
        let mut entries = whole.entries;
        entries.push((owned, value));
        *self = StrMap { entries, map: Ghost(map.insert(key@, value)) };
        earlier
    }

    /// How many entries there are. The keys are walked each once.
    pub fn len(&self) -> (r: usize)
        ensures
            self@.dom().finite(),
            r == self@.dom().len(),
            r == self.keys().len(),
            self.keys().no_duplicates(),
            forall|k: Seq<char>| #[trigger] self@.contains_key(k) <==> self.keys().contains(k),
    {
        proof {
            use_type_invariant(self);
            let keys = self.keys();
            assert forall|k: Seq<char>| #[trigger] self@.contains_key(k) implies keys.contains(
                k,
            ) by {
                let i = choose|i: int|
                    0 <= i < self.entries@.len() && (#[trigger] self.entries@[i]).0@ == k;
                assert(keys[i] == k);
            }
            assert forall|k: Seq<char>| keys.contains(k) implies #[trigger] self@.contains_key(
                k,
            ) by {
                let i = choose|i: int| 0 <= i < keys.len() && keys[i] == k;
                assert(self.entries@[i].0@ == k);
            }
            assert forall|i: int, j: int| 0 <= i < keys.len() && 0 <= j < keys.len() && i
                != j implies keys[i] != keys[j] by {
                if i < j {
                    assert(self.entries@[i].0@ != self.entries@[j].0@);
                } else {
                    assert(self.entries@[j].0@ != self.entries@[i].0@);
                }
            }
        }
        self.entries.len()
    }

    pub fn clear(&mut self)
        ensures
            final(self)@ == Map::<Seq<char>, V>::empty(),
    {
        *self = StrMap::new();
    }

    /// Takes all values out of the map, in the order in which it is walked.
    pub fn take_all(&mut self) -> (r: Vec<V>)
        ensures
            final(self)@ == Map::<Seq<char>, V>::empty(),
            old(self).keys().no_duplicates(),
            forall|k: Seq<char>| #[trigger]
                old(self)@.contains_key(k) <==> old(self).keys().contains(k),
            r@ == Seq::new(
                old(self).keys().len(),
                |i: int| old(self)@[old(self).keys()[i]],
            ),
    {
        let n: usize = self.len();
        let ghost before = *self;
        proof {
            use_type_invariant(&*self);
        }
        let mut whole: StrMap<V> = StrMap::new();
        std::mem::swap(&mut whole, self);
        let mut entries = whole.entries;
        let mut r: Vec<V> = Vec::new();
        let mut i: usize = 0;
        while i < n
            invariant
                i <= n,
                n == before.entries@.len(),
                entries@ == before.entries@.skip(i as int),
                r@.len() == i,
                forall|j: int| 0 <= j < i ==> #[trigger] r@[j] == before.entries@[j].1,
            decreases n - i,
        {
            let (_, value) = entries.remove(0);
            r.push(value);
            i = i + 1;
            assert(entries@ =~= before.entries@.skip(i as int));
        }
        assert forall|j: int| 0 <= j < n implies r@[j] == #[trigger] before@[before.keys()[j]] by {
            assert(before.map@[before.entries@[j].0@] == before.entries@[j].1);
        }
        assert(r@ =~= Seq::new(before.keys().len(), |j: int| before@[before.keys()[j]]));
        r
    }

    pub fn key_at(&self, i: usize) -> (r: &str)
        requires
            i < self.keys().len(),
        ensures
            r@ == self.keys()[i as int],
    {
        self.entries[i].0.as_str()
    }

    pub fn value_at(&self, i: usize) -> (r: &V)
        requires
            i < self.keys().len(),
        ensures
            self@.contains_key(self.keys()[i as int]),
            *r == self@[self.keys()[i as int]],
    {
        proof {
            use_type_invariant(self);
        }
        assert(self@.contains_key(self.entries@[i as int].0@));
        &self.entries[i].1
    }
}

} // verus!
