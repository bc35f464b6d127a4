//! A small map keyed by text, kept as a list of pairs.

use vstd::prelude::*;
use vstd::string::*;

verus! {

/// A map from text keys to values. Of two pairs with the same key the later
/// one counts; `insert` overwrites in place, so a key is stored once.
#[derive(Debug)]
pub struct TextMap<V> {
    pub entries: Vec<(String, V)>,
}

/// The map that a list of pairs stands for.
pub open spec fn map_of<V: View>(e: Seq<(String, V)>) -> Map<Seq<char>, V::V>
    decreases e.len(),
{
    if e.len() == 0 {
        Map::empty()
    } else {
        map_of(e.drop_last()).insert(e.last().0@, e.last().1@)
    }
}

impl<V: View> View for TextMap<V> {
    type V = Map<Seq<char>, V::V>;

    open spec fn view(&self) -> Map<Seq<char>, V::V> {
        map_of(self.entries@)
    }
}

/// Whether no pair of `e` at or after index `from` has the key `k`.
pub open spec fn absent_from<V>(e: Seq<(String, V)>, k: Seq<char>, from: int) -> bool {
    forall|j: int| from <= j < e.len() ==> (#[trigger] e[j]).0@ != k
}

/// A key that no pair holds is not in the map.
pub proof fn lemma_absent<V: View>(e: Seq<(String, V)>, k: Seq<char>)
    requires
        absent_from(e, k, 0),
    ensures
        !map_of(e).contains_key(k),
    decreases e.len(),
{
    if e.len() > 0 {
        assert(e.last() == e[e.len() - 1]);
        assert(absent_from(e.drop_last(), k, 0)) by {
            assert forall|j: int| 0 <= j < e.drop_last().len() implies (#[trigger] e.drop_last()[j]).0@ != k by {
                assert(e.drop_last()[j] == e[j]);
            }
        }
        lemma_absent(e.drop_last(), k);
    }
}

/// The last pair with a given key decides the key's value.
pub proof fn lemma_last_wins<V: View>(e: Seq<(String, V)>, k: Seq<char>, i: int)
    requires
        0 <= i < e.len(),
        e[i].0@ == k,
        absent_from(e, k, i + 1),
    ensures
        map_of(e).contains_key(k),
        map_of(e)[k] == e[i].1@,
    decreases e.len(),
{
    assert(e.last() == e[e.len() - 1]);
    if i < e.len() - 1 {
        assert(e.drop_last()[i] == e[i]);
        assert(absent_from(e.drop_last(), k, i + 1)) by {
            assert forall|j: int| i + 1 <= j < e.drop_last().len() implies (#[trigger] e.drop_last()[j]).0@ != k by {
                assert(e.drop_last()[j] == e[j]);
            }
        }
        lemma_last_wins(e.drop_last(), k, i);
    }
}

/// Replacing the value of the last pair with a given key is an insertion.
pub proof fn lemma_overwrite<V: View>(e: Seq<(String, V)>, i: int, p: (String, V))
    requires
        0 <= i < e.len(),
        e[i].0@ == p.0@,
        absent_from(e, p.0@, i + 1),
    ensures
        map_of(e.update(i, p)) == map_of(e).insert(p.0@, p.1@),
    decreases e.len(),
{
    let u = e.update(i, p);
    assert(e.last() == e[e.len() - 1]);
    assert(u.last() == u[u.len() - 1]);
    if i == e.len() - 1 {
        assert(u.drop_last() =~= e.drop_last());
        assert(map_of(u) =~= map_of(e).insert(p.0@, p.1@));
    } else {
        assert(e.drop_last()[i] == e[i]);
        assert(absent_from(e.drop_last(), p.0@, i + 1)) by {
            assert forall|j: int| i + 1 <= j < e.drop_last().len() implies (#[trigger] e.drop_last()[j]).0@ != p.0@ by {
                assert(e.drop_last()[j] == e[j]);
            }
        }
        lemma_overwrite(e.drop_last(), i, p);
        assert(u.drop_last() =~= e.drop_last().update(i, p));
        assert(u.last() == e.last());
        assert(e.last().0@ != p.0@);
        assert(map_of(u) =~= map_of(e).insert(p.0@, p.1@));
    }
}

impl<V: View> TextMap<V> {
    /// The empty map.
    pub fn new() -> (m: Self)
        ensures
            m@ == Map::<Seq<char>, V::V>::empty(),
    {
        TextMap { entries: Vec::new() }
    }

    /// The index of the last pair whose key is `key`.
    pub fn position(&self, key: &str) -> (r: Option<usize>)
        ensures
            match r {
                Some(i) => i < self.entries@.len() && self.entries@[i as int].0@ == key@
                    && absent_from(self.entries@, key@, i + 1),
                None => absent_from(self.entries@, key@, 0),
            },
    {
        let wanted = String::from_str(key);
        let mut i: usize = self.entries.len();
        while i > 0
            invariant
                i <= self.entries@.len(),
                wanted@ == key@,
                absent_from(self.entries@, key@, i as int),
            decreases i,
        {
            i = i - 1;
            if self.entries[i].0 == wanted {
                return Some(i);
            }
        }
        None
    }

    /// Whether `key` has a value.
    pub fn contains_key(&self, key: &str) -> (b: bool)
        ensures
            b == self@.contains_key(key@),
    {
        match self.position(key) {
            Some(i) => {
                proof {
                    lemma_last_wins(self.entries@, key@, i as int);
                }
                true
            },
            None => {
                proof {
                    lemma_absent(self.entries@, key@);
                }
                false
            },
        }
    }

    /// The value of `key`, if it has one.
    pub fn get(&self, key: &str) -> (r: Option<&V>)
        ensures
            match r {
                Some(v) => self@.contains_key(key@) && self@[key@] == v@,
                None => !self@.contains_key(key@),
            },
    {
        match self.position(key) {
            Some(i) => {
                proof {
                    lemma_last_wins(self.entries@, key@, i as int);
                }
                Some(&self.entries[i].1)
            },
            None => {
                proof {
                    lemma_absent(self.entries@, key@);
                }
                None
            },
        }
    }

    /// Gives `key` the value `value`, in place of any it had.
    pub fn insert(&mut self, key: String, value: V)
        ensures
            final(self)@ == old(self)@.insert(key@, value@),
    {
        match self.position(key.as_str()) {
            Some(i) => {
                proof {
                    lemma_overwrite(self.entries@, i as int, (key, value));
                }
                self.entries.set(i, (key, value));
            },
            None => {
                let ghost before = self.entries@;
                self.entries.push((key, value));
                assert(self.entries@.drop_last() =~= before);
            },
        }
    }
}

impl TextMap<String> {
    /// A copy of the map.
    pub fn duplicate(&self) -> (r: Self)
        ensures
            r@ == self@,
    {
        let mut out: Vec<(String, String)> = Vec::new();
        let mut i: usize = 0;
        while i < self.entries.len()
            invariant
                i <= self.entries@.len(),
                map_of(out@) == map_of(self.entries@.subrange(0, i as int)),
            decreases self.entries@.len() - i,
        {
            let ghost before = out@;
            let ghost upto = self.entries@.subrange(0, i + 1);
            out.push((self.entries[i].0.clone(), self.entries[i].1.clone()));
            assert(out@.drop_last() =~= before);
            assert(upto.drop_last() =~= self.entries@.subrange(0, i as int));
            i = i + 1;
        }
        assert(self.entries@.subrange(0, i as int) =~= self.entries@);
        TextMap { entries: out }
    }
}

} // verus!
