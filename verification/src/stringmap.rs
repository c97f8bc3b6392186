//! A map from strings to strings, kept as a list of distinct keys.

use vstd::prelude::*;
use crate::text::owned;

verus! {

/// Entries with pairwise distinct keys.
pub open spec fn keys_distinct(s: Seq<(String, String)>) -> bool {
    forall|i: int, j: int| 0 <= i < j < s.len() ==> (#[trigger] s[i]).0@ != (#[trigger] s[j]).0@
}

/// The map that a list of entries denotes (a later entry wins over an earlier
/// one with the same key).
pub open spec fn entries_map(s: Seq<(String, String)>) -> Map<Seq<char>, Seq<char>>
    decreases s.len(),
{
    if s.len() == 0 {
        Map::empty()
    } else {
        entries_map(s.drop_last()).insert(s.last().0@, s.last().1@)
    }
}

/// A map from strings to strings.
#[derive(Clone, Debug)]
pub struct StringMap {
    entries: Vec<(String, String)>,
}

impl View for StringMap {
    type V = Map<Seq<char>, Seq<char>>;

    closed spec fn view(&self) -> Map<Seq<char>, Seq<char>> {
        entries_map(self.entries@)
    }
}

pub proof fn lemma_entries_map_has(s: Seq<(String, String)>, i: int)
    requires
        keys_distinct(s),
        0 <= i < s.len(),
    ensures
        entries_map(s).contains_key(s[i].0@),
        entries_map(s)[s[i].0@] == s[i].1@,
    decreases s.len(),
{
    if i < s.len() - 1 {
        lemma_entries_map_has(s.drop_last(), i);
        assert(s.drop_last()[i] == s[i]);
        assert(s[i].0@ != s[s.len() - 1].0@);
    }
}

pub proof fn lemma_entries_map_lacks(s: Seq<(String, String)>, k: Seq<char>)
    requires
        forall|i: int| 0 <= i < s.len() ==> (#[trigger] s[i]).0@ != k,
    ensures
        !entries_map(s).contains_key(k),
    decreases s.len(),
{
    if s.len() > 0 {
        assert forall|i: int| 0 <= i < s.drop_last().len() implies (#[trigger] s.drop_last()[i]).0@ != k by {
            assert(s.drop_last()[i] == s[i]);
        }
        lemma_entries_map_lacks(s.drop_last(), k);
        assert(s.last() == s[s.len() - 1]);
    }
}

pub proof fn lemma_entries_map_len(s: Seq<(String, String)>)
    requires
        keys_distinct(s),
    ensures
        entries_map(s).dom().finite(),
        entries_map(s).len() == s.len(),
    decreases s.len(),
{
    if s.len() > 0 {
        let t = s.drop_last();
        assert(keys_distinct(t)) by {
            assert forall|i: int, j: int| 0 <= i < j < t.len() implies (#[trigger] t[i]).0@ != (#[trigger] t[j]).0@ by {
                assert(t[i] == s[i] && t[j] == s[j]);
            }
        }
        lemma_entries_map_len(t);
        assert forall|i: int| 0 <= i < t.len() implies (#[trigger] t[i]).0@ != s.last().0@ by {
            assert(t[i] == s[i]);
            assert(s.last() == s[s.len() - 1]);
        }
        lemma_entries_map_lacks(t, s.last().0@);
        assert(entries_map(s).dom() =~= entries_map(t).dom().insert(s.last().0@));
    }
}

proof fn lemma_entries_map_remove(s: Seq<(String, String)>, i: int)
    requires
        keys_distinct(s),
        0 <= i < s.len(),
    ensures
        entries_map(s.remove(i)) == entries_map(s).remove(s[i].0@),
        keys_distinct(s.remove(i)),
    decreases s.len(),
{
    let k = s[i].0@;
    let t = s.drop_last();
    assert(keys_distinct(t)) by {
        assert forall|a: int, b: int| 0 <= a < b < t.len() implies (#[trigger] t[a]).0@ != (#[trigger] t[b]).0@ by {
            assert(t[a] == s[a] && t[b] == s[b]);
        }
    }
    assert(keys_distinct(s.remove(i))) by {
        assert forall|a: int, b: int| 0 <= a < b < s.remove(i).len() implies (#[trigger] s.remove(i)[a]).0@
            != (#[trigger] s.remove(i)[b]).0@ by {
            let a2 = if a < i { a } else { a + 1 };
            let b2 = if b < i { b } else { b + 1 };
            assert(s.remove(i)[a] == s[a2] && s.remove(i)[b] == s[b2]);
        }
    }
    if i == s.len() - 1 {
        assert(s.remove(i) =~= t);
        assert forall|j: int| 0 <= j < t.len() implies (#[trigger] t[j]).0@ != k by {
            assert(t[j] == s[j]);
        }
        lemma_entries_map_lacks(t, k);
        assert(entries_map(s).remove(k) =~= entries_map(t));
    } else {
        lemma_entries_map_remove(t, i);
        assert(t[i] == s[i]);
        let last = s.last();
        assert(last == s[s.len() - 1]);
        assert(s.remove(i) =~= t.remove(i).push(last));
        assert(s.remove(i).drop_last() =~= t.remove(i));
        assert(last.0@ != k);
        assert(entries_map(s.remove(i)) =~= entries_map(s).remove(k));
    }
}

impl StringMap {
    /// The entries have distinct keys.
    pub closed spec fn wf(&self) -> bool {
        keys_distinct(self.entries@)
    }

    /// An empty map.
    pub fn new() -> (m: StringMap)
        ensures
            m.wf(),
            m@ == Map::<Seq<char>, Seq<char>>::empty(),
    {
        StringMap { entries: Vec::new() }
    }

    fn position(&self, key: &str) -> (r: Option<usize>)
        requires
            self.wf(),
        ensures
            match r {
                Some(i) => i < self.entries@.len() && self.entries@[i as int].0@ == key@,
                None => forall|j: int| 0 <= j < self.entries@.len() ==> (#[trigger] self.entries@[j]).0@ != key@,
            },
    {
        let wanted = owned(key);
        let mut i: usize = 0;
        while i < self.entries.len()
            invariant
                i <= self.entries@.len(),
                wanted@ == key@,
                forall|j: int| 0 <= j < i ==> (#[trigger] self.entries@[j]).0@ != key@,
            decreases self.entries@.len() - i,
        {
            if self.entries[i].0 == wanted {
                return Some(i);
            }
            i = i + 1;
        }
        None
    }

    /// The value of `key`, if present.
    pub fn get(&self, key: &str) -> (r: Option<&String>)
        requires
            self.wf(),
        ensures
            match r {
                Some(v) => self@.contains_key(key@) && v@ == self@[key@],
                None => !self@.contains_key(key@),
            },
    {
        match self.position(key) {
            Some(i) => {
                proof { lemma_entries_map_has(self.entries@, i as int); }
                Some(&self.entries[i].1)
            },
            None => {
                proof { lemma_entries_map_lacks(self.entries@, key@); }
                None
            },
        }
    }

    /// Whether `key` is present.
    pub fn contains_key(&self, key: &str) -> (r: bool)
        requires
            self.wf(),
        ensures
            r == self@.contains_key(key@),
    {
        self.get(key).is_some()
    }

    /// Removes `key`, if present.
    pub fn remove(&mut self, key: &str)
        requires
            old(self).wf(),
        ensures
            final(self).wf(),
            final(self)@ == old(self)@.remove(key@),
    {
        match self.position(key) {
            Some(i) => {
                proof { lemma_entries_map_remove(self.entries@, i as int); }
                let _ = self.entries.remove(i);
            },
            None => {
                proof { lemma_entries_map_lacks(self.entries@, key@); }
                assert(self@ =~= self@.remove(key@));
            },
        }
    }

    /// Sets `key` to `value`, replacing any earlier value.
    pub fn insert(&mut self, key: String, value: String)
        requires
            old(self).wf(),
        ensures
            final(self).wf(),
            final(self)@ == old(self)@.insert(key@, value@),
    {
        self.remove(key.as_str());
        let ghost before = self.entries@;
        self.entries.push((key, value));
        proof {
            assert(self.entries@.drop_last() =~= before);
            assert forall|i: int, j: int| 0 <= i < j < self.entries@.len() implies (#[trigger] self.entries@[i]).0@
                != (#[trigger] self.entries@[j]).0@ by {
                if j == self.entries@.len() - 1 {
                    assert(self.entries@[i] == before[i]);
                    if before[i].0@ == key@ {
                        lemma_entries_map_has(before, i);
                    }
                } else {
                    assert(self.entries@[i] == before[i] && self.entries@[j] == before[j]);
                }
            }
        }
        assert(self@ =~= old(self)@.insert(key@, value@));
    }

    /// Removes every entry.
    pub fn clear(&mut self)
        ensures
            final(self).wf(),
            final(self)@ == Map::<Seq<char>, Seq<char>>::empty(),
    {
        self.entries.clear();
    }

    /// The number of keys.
    pub fn len(&self) -> (n: usize)
        requires
            self.wf(),
        ensures
            n == self@.len(),
    {
        proof { lemma_entries_map_len(self.entries@); }
        self.entries.len()
    }

    /// The entries, each key once, in no particular order.
    pub fn entries(&self) -> (r: &Vec<(String, String)>)
        requires
            self.wf(),
        ensures
            keys_distinct(r@),
            entries_map(r@) == self@,
    {
        &self.entries
    }
}


/// A well-formed map has finitely many keys.
pub proof fn lemma_view_finite(m: &StringMap)
    requires
        m.wf(),
    ensures
        m@.dom().finite(),
{
    lemma_entries_map_len(m.entries@);
}

} // verus!
