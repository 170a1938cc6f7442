//! A string-keyed store of strings with unique keys, viewed as a
//! mathematical map. It backs the response cache and the bookmark store.

use vstd::prelude::*;

verus! {

/// The mathematical map an entry sequence denotes.
pub open spec fn entries_map(entries: Seq<(Seq<char>, Seq<char>)>) -> Map<Seq<char>, Seq<char>>
    decreases entries.len(),
{
    if entries.len() == 0 {
        Map::empty()
    } else {
        entries_map(entries.drop_last()).insert(entries.last().0, entries.last().1)
    }
}

/// No key occurs twice among the entries.
pub open spec fn unique_keys(entries: Seq<(Seq<char>, Seq<char>)>) -> bool {
    forall|i: int, j: int| 0 <= i < j < entries.len() ==> entries[i].0 != entries[j].0
}

/// A key is in the denoted map exactly when some entry holds it.
proof fn lemma_entries_map_dom(entries: Seq<(Seq<char>, Seq<char>)>, k: Seq<char>)
    ensures
        entries_map(entries).contains_key(k) <==> exists|i: int|
            0 <= i < entries.len() && entries[i].0 == k,
    decreases entries.len(),
{
    if entries.len() > 0 {
        lemma_entries_map_dom(entries.drop_last(), k);
        if entries.last().0 == k {
            assert(entries[entries.len() - 1].0 == k);
        } else if entries_map(entries).contains_key(k) {
            let i = choose|i: int| 0 <= i < entries.drop_last().len() && entries.drop_last()[i].0
                == k;
            assert(entries[i].0 == k);
        } else if exists|i: int| 0 <= i < entries.len() && entries[i].0 == k {
            let i = choose|i: int| 0 <= i < entries.len() && entries[i].0 == k;
            assert(entries.drop_last()[i].0 == k);
        }
    }
}

/// With unique keys, the entry holding a key gives the denoted map's
/// value at that key.
proof fn lemma_entries_map_at(entries: Seq<(Seq<char>, Seq<char>)>, i: int)
    requires
        unique_keys(entries),
        0 <= i < entries.len(),
    ensures
        entries_map(entries).contains_key(entries[i].0),
        entries_map(entries)[entries[i].0] == entries[i].1,
    decreases entries.len(),
{
    if i == entries.len() - 1 {
    } else {
        assert(entries.drop_last()[i] == entries[i]);
        assert(unique_keys(entries.drop_last())) by {
            assert(forall|a: int, b: int|
                0 <= a < b < entries.drop_last().len() ==> entries.drop_last()[a]
                    == entries[a] && entries.drop_last()[b] == entries[b]);
        }
        lemma_entries_map_at(entries.drop_last(), i);
        assert(entries.last().0 != entries[i].0);
    }
}

/// With unique keys, removing the entry holding a key removes exactly
/// that key from the denoted map.
proof fn lemma_entries_map_remove(entries: Seq<(Seq<char>, Seq<char>)>, i: int)
    requires
        unique_keys(entries),
        0 <= i < entries.len(),
    ensures
        entries_map(entries.remove(i)) == entries_map(entries).remove(entries[i].0),
    decreases entries.len(),
{
    let k = entries[i].0;
    if i == entries.len() - 1 {
        assert(entries.remove(i) =~= entries.drop_last());
        lemma_entries_map_dom(entries.drop_last(), k);
        assert(!entries_map(entries.drop_last()).contains_key(k)) by {
            if exists|a: int| 0 <= a < entries.drop_last().len() && entries.drop_last()[a].0
                == k {
                let a = choose|a: int|
                    0 <= a < entries.drop_last().len() && entries.drop_last()[a].0 == k;
                assert(entries[a].0 == entries[i].0);
            }
        }
        assert(entries_map(entries.drop_last()) =~= entries_map(entries).remove(k));
    } else {
        assert(unique_keys(entries.drop_last())) by {
            assert(forall|a: int, b: int|
                0 <= a < b < entries.drop_last().len() ==> entries.drop_last()[a]
                    == entries[a] && entries.drop_last()[b] == entries[b]);
        }
        assert(entries.drop_last()[i] == entries[i]);
        lemma_entries_map_remove(entries.drop_last(), i);
        assert(entries.remove(i).drop_last() =~= entries.drop_last().remove(i));
        assert(entries.remove(i).last() == entries.last());
        assert(entries.last().0 != k);
        assert(entries_map(entries.drop_last()).remove(k).insert(
            entries.last().0,
            entries.last().1,
        ) =~= entries_map(entries).remove(k));
    }
}

/// Appending an entry inserts its pair into the denoted map.
proof fn lemma_entries_map_push(entries: Seq<(Seq<char>, Seq<char>)>, k: Seq<char>, v: Seq<char>)
    ensures
        entries_map(entries.push((k, v))) == entries_map(entries).insert(k, v),
{
    assert(entries.push((k, v)).drop_last() =~= entries);
}

/// A mapping from strings to strings: a sequence of key/value entries
/// with unique keys, denoting a mathematical map.
pub struct StrMap {
    entries: Vec<(String, String)>,
}

impl View for StrMap {
    type V = Map<Seq<char>, Seq<char>>;

    closed spec fn view(&self) -> Map<Seq<char>, Seq<char>> {
        entries_map(self.entries.deep_view())
    }
}

impl StrMap {
    /// The store's invariant: no key occurs twice.
    pub closed spec fn wf(&self) -> bool {
        unique_keys(self.entries.deep_view())
    }

    /// The entries, newest insertion last.
    spec fn entry_seq(&self) -> Seq<(Seq<char>, Seq<char>)> {
        self.entries.deep_view()
    }

    /// An empty store.
    pub fn new() -> (m: StrMap)
        ensures
            m.wf(),
            m@ == Map::<Seq<char>, Seq<char>>::empty(),
    {
        let m = StrMap { entries: Vec::new() };
        proof {
            assert(m.entries.deep_view() =~= Seq::<(Seq<char>, Seq<char>)>::empty());
        }
        m
    }

    /// Index of the entry holding `key`, or the entry count when none
    /// does.
    fn index_of(&self, key: &str) -> (r: usize)
        ensures
            r <= self.entry_seq().len(),
            r < self.entry_seq().len() ==> self.entry_seq()[r as int].0 == key@,
            r == self.entry_seq().len() ==> forall|i: int|
                0 <= i < self.entry_seq().len() ==> self.entry_seq()[i].0 != key@,
    {
        let k = String::from_str(key);
        let n: usize = self.entries.len();
        let mut i: usize = 0;
        while i < n
            invariant
                i <= n,
                n == self.entries@.len(),
                k@ == key@,
                forall|j: int| 0 <= j < i ==> self.entries.deep_view()[j].0 != key@,
            decreases n - i,
        {
            if self.entries[i].0 == k {
                proof {
                    assert(self.entries.deep_view()[i as int].0 == self.entries@[i as int].0@);
                }
                return i;
            }
            proof {
                assert(self.entries.deep_view()[i as int].0 == self.entries@[i as int].0@);
            }
            i = i + 1;
        }
        n
    }

    /// Look a key up.
    pub fn get(&self, key: &str) -> (r: Option<String>)
        requires
            self.wf(),
        ensures
            r is Some <==> self@.contains_key(key@),
            r matches Some(v) ==> self@[key@] == v@,
    {
        let i = self.index_of(key);
        let n: usize = self.entries.len();
        if i < n {
            proof {
                lemma_entries_map_at(self.entries.deep_view(), i as int);
                assert(self.entries.deep_view()[i as int].1 == self.entries@[i as int].1@);
            }
            Some(self.entries[i].1.clone())
        } else {
            proof {
                lemma_entries_map_dom(self.entries.deep_view(), key@);
            }
            None
        }
    }

    /// Bind `key` to `value`, replacing any earlier binding.
    pub fn set(&mut self, key: &str, value: String)
        requires
            old(self).wf(),
        ensures
            final(self).wf(),
            final(self)@ == old(self)@.insert(key@, value@),
    {
        let ghost orig = self.entries.deep_view();
        let i = self.index_of(key);
        let n: usize = self.entries.len();
        if i < n {
            proof {
                lemma_entries_map_remove(orig, i as int);
            }
            let _ = self.entries.remove(i);
            proof {
                orig.remove_ensures(i as int);
                assert(self.entries.deep_view() =~= orig.remove(i as int));
                assert(unique_keys(self.entries.deep_view()));
                assert forall|a: int|
                    0 <= a < self.entries.deep_view().len() implies self.entries.deep_view()[a].0
                    != key@ by {
                    if a < i {
                        assert(self.entries.deep_view()[a] == orig[a]);
                    } else {
                        assert(self.entries.deep_view()[a] == orig[a + 1]);
                    }
                }
            }
        }
        let ghost mid = self.entries.deep_view();
        let k = String::from_str(key);
        self.entries.push((k, value));
        proof {
            assert(self.entries.deep_view() =~= mid.push((key@, value@)));
            lemma_entries_map_push(mid, key@, value@);
            assert(unique_keys(self.entries.deep_view()));
            assert(self@ =~= old(self)@.insert(key@, value@));
        }
    }

    /// Drop any binding of `key`; a store without one is unchanged.
    pub fn remove(&mut self, key: &str)
        requires
            old(self).wf(),
        ensures
            final(self).wf(),
            final(self)@ == old(self)@.remove(key@),
    {
        let ghost orig = self.entries.deep_view();
        let i = self.index_of(key);
        let n: usize = self.entries.len();
        if i < n {
            proof {
                lemma_entries_map_remove(orig, i as int);
            }
            let _ = self.entries.remove(i);
            proof {
                orig.remove_ensures(i as int);
                assert(self.entries.deep_view() =~= orig.remove(i as int));
                assert(unique_keys(self.entries.deep_view()));
            }
        } else {
            proof {
                lemma_entries_map_dom(orig, key@);
                assert(old(self)@.remove(key@) =~= old(self)@);
            }
        }
    }

    /// Drop every binding.
    pub fn clear(&mut self)
        ensures
            final(self).wf(),
            final(self)@ == Map::<Seq<char>, Seq<char>>::empty(),
    {
        self.entries.clear();
        proof {
            assert(self.entries.deep_view() =~= Seq::<(Seq<char>, Seq<char>)>::empty());
        }
    }
}

} // verus!
