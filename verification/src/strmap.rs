use vstd::prelude::*;

verus! {

/// True when no two entries carry the same key.
pub open spec fn entry_keys_distinct<V>(entries: Seq<(String, V)>) -> bool {
    forall|i: int, j: int| 0 <= i < j < entries.len() ==> entries[i].0@ != entries[j].0@
}

/// True when some entry carries key `k`.
pub open spec fn has_entry_key<V>(entries: Seq<(String, V)>, k: Seq<char>) -> bool {
    exists|i: int| 0 <= i < entries.len() && entries[i].0@ == k
}

/// An index of an entry carrying key `k`, when one exists.
pub open spec fn entry_index<V>(entries: Seq<(String, V)>, k: Seq<char>) -> int {
    choose|i: int| 0 <= i < entries.len() && entries[i].0@ == k
}

/// The mapping that a list of keyed entries represents.
pub open spec fn map_of_entries<V>(entries: Seq<(String, V)>) -> Map<Seq<char>, V> {
    Map::new(
        |k: Seq<char>| has_entry_key(entries, k),
        |k: Seq<char>| entries[entry_index(entries, k)].1,
    )
}

/// A string-keyed map backed by a vector of entries with distinct keys: an
/// explicitly owned store that callers receive by reference, in place of any
/// process-wide registry.
pub struct StrMap<V> {
    entries: Vec<(String, V)>,
}

impl<V> View for StrMap<V> {
    type V = Map<Seq<char>, V>;

    closed spec fn view(&self) -> Map<Seq<char>, V> {
        map_of_entries(self.entries@)
    }
}

/// Under distinct keys, the entry at any index is the one the represented
/// map associates with that entry's key.
proof fn lemma_map_of_entries_at<V>(s: Seq<(String, V)>, x: int)
    requires
        entry_keys_distinct(s),
        0 <= x < s.len(),
    ensures
        map_of_entries(s).contains_key(s[x].0@),
        map_of_entries(s)[s[x].0@] == s[x].1,
{
    assert(has_entry_key(s, s[x].0@));
    let j = entry_index(s, s[x].0@);
    assert(0 <= j < s.len() && s[j].0@ == s[x].0@);
    if j < x {
        assert(s[j].0@ != s[x].0@);
    } else if x < j {
        assert(s[x].0@ != s[j].0@);
    }
}

/// Removing the entry at index `i` removes exactly its key from the
/// represented map.
proof fn lemma_remove_entry<V>(s: Seq<(String, V)>, i: int)
    requires
        entry_keys_distinct(s),
        0 <= i < s.len(),
    ensures
        entry_keys_distinct(s.remove(i)),
        !has_entry_key(s.remove(i), s[i].0@),
        map_of_entries(s.remove(i)) == map_of_entries(s).remove(s[i].0@),
{
    let t = s.remove(i);
    let k0 = s[i].0@;
    assert(t.len() == s.len() - 1);
    assert forall|a: int, b: int| 0 <= a < b < t.len() implies t[a].0@ != t[b].0@ by {
        let a2: int = if a < i {
            a
        } else {
            a + 1
        };
        let b2: int = if b < i {
            b
        } else {
            b + 1
        };
        assert(t[a] == s[a2]);
        assert(t[b] == s[b2]);
        assert(a2 < b2);
    }
    assert forall|x: int| 0 <= x < t.len() implies t[x].0@ != k0 by {
        let x2: int = if x < i {
            x
        } else {
            x + 1
        };
        assert(t[x] == s[x2]);
        if x2 < i {
            assert(s[x2].0@ != s[i].0@);
        } else {
            assert(s[i].0@ != s[x2].0@);
        }
    }
    assert forall|k: Seq<char>| k != k0 implies (has_entry_key(t, k) <==> has_entry_key(
        s,
        k,
    )) by {
        if has_entry_key(t, k) {
            let x = entry_index(t, k);
            if x < i {
                assert(t[x] == s[x]);
            } else {
                assert(t[x] == s[x + 1]);
            }
        }
        if has_entry_key(s, k) {
            let y = entry_index(s, k);
            assert(0 <= y < s.len() && s[y].0@ == k);
            if y < i {
                assert(t[y] == s[y]);
            } else {
                assert(t[y - 1] == s[y]);
            }
        }
    }
    assert forall|k: Seq<char>|
        k != k0 && has_entry_key(s, k) implies map_of_entries(t)[k] == map_of_entries(
        s,
    )[k] by {
        let y = entry_index(s, k);
        assert(0 <= y < s.len() && s[y].0@ == k);
        let x: int = if y < i {
            y
        } else {
            y - 1
        };
        assert(t[x] == s[y]);
        lemma_map_of_entries_at(t, x);
        lemma_map_of_entries_at(s, y);
    }
    assert(map_of_entries(t) =~= map_of_entries(s).remove(k0));
}

/// Appending an entry under a key the entries do not yet hold inserts that
/// key into the represented map.
proof fn lemma_push_entry<V>(s: Seq<(String, V)>, e: (String, V))
    requires
        entry_keys_distinct(s),
        !has_entry_key(s, e.0@),
    ensures
        entry_keys_distinct(s.push(e)),
        map_of_entries(s.push(e)) == map_of_entries(s).insert(e.0@, e.1),
{
    let t = s.push(e);
    assert forall|a: int, b: int| 0 <= a < b < t.len() implies t[a].0@ != t[b].0@ by {
        if b < s.len() {
            assert(t[a] == s[a] && t[b] == s[b]);
        } else {
            assert(t[b] == e);
            assert(t[a] == s[a]);
            if s[a].0@ == e.0@ {
                assert(has_entry_key(s, e.0@));
            }
        }
    }
    assert forall|k: Seq<char>| has_entry_key(t, k) implies (k == e.0@ || has_entry_key(
        s,
        k,
    )) by {
        let x = entry_index(t, k);
        assert(0 <= x < t.len() && t[x].0@ == k);
        if x < s.len() {
            assert(t[x] == s[x]);
        }
    }
    assert(t[s.len() as int] == e);
    lemma_map_of_entries_at(t, s.len() as int);
    assert forall|k: Seq<char>|
        k != e.0@ && has_entry_key(s, k) implies has_entry_key(t, k) && map_of_entries(
        t,
    )[k] == map_of_entries(s)[k] by {
        let y = entry_index(s, k);
        assert(0 <= y < s.len() && s[y].0@ == k);
        assert(t[y] == s[y]);
        lemma_map_of_entries_at(t, y);
        lemma_map_of_entries_at(s, y);
    }
    assert(map_of_entries(t) =~= map_of_entries(s).insert(e.0@, e.1));
}

impl<V> StrMap<V> {
    /// The backing entries hold each key at most once.
    pub closed spec fn wf(self) -> bool {
        entry_keys_distinct(self.entries@)
    }

    /// Creates an empty map.
    pub fn new() -> (m: StrMap<V>)
        ensures
            m.wf(),
            m@ == Map::<Seq<char>, V>::empty(),
    {
        let m = StrMap { entries: Vec::new() };
        proof {
            assert(m@ =~= Map::<Seq<char>, V>::empty());
        }
        m
    }

    /// The position of `key` among the entries, if it is present.
    fn index_of(&self, key: &str) -> (r: Option<usize>)
        ensures
            r matches Some(i) ==> 0 <= i < self.entries@.len() && self.entries@[i as int].0@
                == key@,
            r is None ==> forall|j: int|
                0 <= j < self.entries@.len() ==> self.entries@[j].0@ != key@,
    {
        let needle: String = key.to_owned();
        let n = self.entries.len();
        let mut i: usize = 0;
        while i < n
            invariant
                n == self.entries@.len(),
                i <= n,
                needle@ == key@,
                forall|j: int| 0 <= j < i ==> self.entries@[j].0@ != key@,
            decreases n - i,
        {
            if self.entries[i].0 == needle {
                return Some(i);
            }
            i = i + 1;
        }
        None
    }

    /// Looks `key` up, returning a reference to its value when the map
    /// holds one.
    pub fn get(&self, key: &str) -> (r: Option<&V>)
        requires
            self.wf(),
        ensures
            r is Some <==> self@.contains_key(key@),
            r matches Some(v) ==> self@.contains_key(key@) && *v == self@[key@],
    {
        match self.index_of(key) {
            Some(i) => {
                proof {
                    lemma_map_of_entries_at(self.entries@, i as int);
                }
                Some(&self.entries[i].1)
            },
            None => {
                proof {
                    assert(!has_entry_key(self.entries@, key@));
                }
                None
            },
        }
    }

    /// Inserts `value` under `key`, replacing any value the key already had.
    pub fn insert(&mut self, key: String, value: V)
        requires
            old(self).wf(),
        ensures
            final(self).wf(),
            final(self)@ == old(self)@.insert(key@, value),
    {
        let ghost old_entries = self.entries@;
        let ghost k = key@;
        match self.index_of(key.as_str()) {
            Some(i) => {
                proof {
                    lemma_remove_entry(self.entries@, i as int);
                }
                self.entries.remove(i);
            },
            None => {},
        }
        let ghost mid_entries = self.entries@;
        proof {
            assert(entry_keys_distinct(mid_entries));
            assert(!has_entry_key(mid_entries, k));
            assert(map_of_entries(mid_entries).insert(k, value) =~= map_of_entries(
                old_entries,
            ).insert(k, value));
        }
        let ghost e: (String, V) = (key, value);
        self.entries.push((key, value));
        proof {
            lemma_push_entry(mid_entries, e);
            assert(self.entries@ == mid_entries.push(e));
        }
    }
}

} // verus!
