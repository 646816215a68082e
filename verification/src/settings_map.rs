//! A map from text keys to settings values, held as a vector of entries in which
//! no key occurs twice (the shape of the settings file's tables).

use vstd::prelude::*;

verus! {

/// The map that a sequence of entries stands for; a later entry for a key wins.
pub open spec fn entries_map<V>(s: Seq<(String, V)>) -> Map<Seq<char>, V>
    decreases s.len(),
{
    if s.len() == 0 {
        Map::empty()
    } else {
        entries_map(s.drop_last()).insert(s.last().0@, s.last().1)
    }
}

/// No key occurs twice among the entries.
pub open spec fn keys_distinct<V>(s: Seq<(String, V)>) -> bool {
    forall|i: int, j: int| 0 <= i < s.len() && 0 <= j < s.len() && i != j ==> s[i].0@ != s[j].0@
}

/// The key `k` is held by the entry at `i`.
pub open spec fn key_at<V>(s: Seq<(String, V)>, i: int, k: Seq<char>) -> bool {
    0 <= i < s.len() && s[i].0@ == k
}

/// With distinct keys, the map holds exactly the entries' keys, each with its entry's value.
pub proof fn lemma_entries_map<V>(s: Seq<(String, V)>)
    requires
        keys_distinct(s),
    ensures
        forall|k: Seq<char>| #[trigger] entries_map(s).contains_key(k) <==> exists|i: int| key_at(s, i, k),
        forall|i: int| 0 <= i < s.len() ==> #[trigger] entries_map(s)[s[i].0@] == s[i].1,
        entries_map(s).dom().finite(),
    decreases s.len(),
{
    if s.len() > 0 {
        let t = s.drop_last();
        assert(keys_distinct(t));
        lemma_entries_map(t);
        let n = s.len() - 1;
        assert forall|k: Seq<char>| #[trigger] entries_map(s).contains_key(k) <==> exists|i: int| key_at(s, i, k) by {
            if entries_map(s).contains_key(k) {
                if k == s.last().0@ {
                    assert(key_at(s, n, k));
                } else {
                    let i = choose|i: int| key_at(t, i, k);
                    assert(key_at(s, i, k));
                }
            }
            if exists|i: int| key_at(s, i, k) {
                let i = choose|i: int| key_at(s, i, k);
                if i < n {
                    assert(key_at(t, i, k));
                }
            }
        }
        assert forall|i: int| 0 <= i < s.len() implies #[trigger] entries_map(s)[s[i].0@] == s[i].1 by {
            if i < n {
                assert(t[i] == s[i]);
                assert(s[i].0@ != s[n].0@);
            }
        }
    }
}

/// A settings table keyed by text.
pub struct SettingsMap<V> {
    entries: Vec<(String, V)>,
}

impl<V: Copy> SettingsMap<V> {
    /// The table as a map from key to value.
    pub closed spec fn view(&self) -> Map<Seq<char>, V> {
        entries_map(self.entries@)
    }

    /// No key occurs twice.
    pub closed spec fn wf(&self) -> bool {
        keys_distinct(self.entries@)
    }

    /// An empty table.
    pub fn new() -> (res: Self)
        ensures
            res.wf(),
            res.view() == Map::<Seq<char>, V>::empty(),
    {
        SettingsMap { entries: Vec::new() }
    }

    /// The number of keys.
    pub fn len(&self) -> (res: usize)
        requires
            self.wf(),
        ensures
            res == self.view().len(),
    {
        proof {
            lemma_len_entries(self.entries@);
        }
        self.entries.len()
    }

    /// The position of the entry for `key`, if any.
    fn position(&self, key: &String) -> (res: Option<usize>)
        requires
            self.wf(),
        ensures
            match res {
                Some(i) => key_at(self.entries@, i as int, key@),
                None => !self.view().contains_key(key@),
            },
    {
        proof {
            lemma_entries_map(self.entries@);
        }
        let mut i: usize = 0;
        while i < self.entries.len()
            invariant
                i <= self.entries@.len(),
                forall|j: int| 0 <= j < i ==> self.entries@[j].0@ != key@,
            decreases self.entries@.len() - i,
        {
            if self.entries[i].0 == *key {
                return Some(i);
            }
            i = i + 1;
        }
        proof {
            if self.view().contains_key(key@) {
                let j = choose|j: int| key_at(self.entries@, j, key@);
                assert(self.entries@[j].0@ != key@);
            }
        }
        None
    }

    /// The value stored for `key`.
    pub fn get(&self, key: &String) -> (res: Option<V>)
        requires
            self.wf(),
        ensures
            res == (if self.view().contains_key(key@) { Some(self.view()[key@]) } else { None::<V> }),
    {
        proof {
            lemma_entries_map(self.entries@);
        }
        match self.position(key) {
            Some(i) => Some(self.entries[i].1),
            None => None,
        }
    }

    /// Stores `value` for `key`, replacing what was there.
    pub fn insert(&mut self, key: String, value: V)
        requires
            old(self).wf(),
        ensures
            final(self).wf(),
            final(self).view() == old(self).view().insert(key@, value),
    {
        proof {
            lemma_entries_map(self.entries@);
        }
        match self.position(&key) {
            Some(i) => {
                let ghost old_entries = self.entries@;
                let k = self.entries[i].0.clone();
                self.entries.set(i, (k, value));
                proof {
                    lemma_update_entry(old_entries, i as int, value);
                }
            },
            None => {
                let ghost old_entries = self.entries@;
                self.entries.push((key, value));
                proof {
                    assert(self.entries@.drop_last() =~= old_entries);
                    assert forall|i: int, j: int|
                        0 <= i < self.entries@.len() && 0 <= j < self.entries@.len() && i != j
                        implies self.entries@[i].0@ != self.entries@[j].0@ by {
                        let n = old_entries.len() as int;
                        if i == n {
                            assert(!key_at(old_entries, j, key@));
                        } else if j == n {
                            assert(!key_at(old_entries, i, key@));
                        }
                    }
                }
            },
        }
    }

    /// Removes the entry for `key`, if there is one.
    pub fn remove(&mut self, key: &String)
        requires
            old(self).wf(),
        ensures
            final(self).wf(),
            final(self).view() == old(self).view().remove(key@),
    {
        proof {
            lemma_entries_map(self.entries@);
        }
        match self.position(key) {
            Some(i) => {
                let ghost old_entries = self.entries@;
                self.entries.remove(i);
                proof {
                    lemma_remove_entry(old_entries, i as int);
                }
            },
            None => {
                assert(self.view() =~= self.view().remove(key@));
            },
        }
    }

    /// Replaces the value stored for `key` when there is one, and reports
    /// whether there was.
    pub fn replace(&mut self, key: &String, value: V) -> (found: bool)
        requires
            old(self).wf(),
        ensures
            final(self).wf(),
            found == old(self).view().contains_key(key@),
            final(self).view() == (if found { old(self).view().insert(key@, value) } else { old(self).view() }),
    {
        proof {
            lemma_entries_map(self.entries@);
        }
        match self.position(key) {
            Some(i) => {
                let ghost old_entries = self.entries@;
                let k = self.entries[i].0.clone();
                self.entries.set(i, (k, value));
                proof {
                    lemma_update_entry(old_entries, i as int, value);
                }
                true
            },
            None => false,
        }
    }
}

proof fn lemma_len_entries<V>(s: Seq<(String, V)>)
    requires
        keys_distinct(s),
    ensures
        s.len() == entries_map(s).len(),
    decreases s.len(),
{
    if s.len() > 0 {
        let t = s.drop_last();
        assert(keys_distinct(t));
        lemma_len_entries(t);
        lemma_entries_map(t);
        if entries_map(t).contains_key(s.last().0@) {
            let i = choose|i: int| key_at(t, i, s.last().0@);
            assert(s[i].0@ == s[s.len() - 1].0@);
        }
    }
}

/// Writing a new value into the entry at `i` stores it for that entry's key.
proof fn lemma_update_entry<V>(s: Seq<(String, V)>, i: int, value: V)
    requires
        keys_distinct(s),
        0 <= i < s.len(),
    ensures
        keys_distinct(s.update(i, (s[i].0, value))),
        entries_map(s.update(i, (s[i].0, value))) == entries_map(s).insert(s[i].0@, value),
{
    let u = s.update(i, (s[i].0, value));
    assert(keys_distinct(u)) by {
        assert forall|a: int, b: int| 0 <= a < u.len() && 0 <= b < u.len() && a != b implies u[a].0@ != u[b].0@ by {
            assert(u[a].0 == s[a].0);
            assert(u[b].0 == s[b].0);
        }
    }
    lemma_entries_map(s);
    lemma_entries_map(u);
    let m = entries_map(s).insert(s[i].0@, value);
    assert forall|k: Seq<char>| #[trigger] entries_map(u).contains_key(k) <==> m.contains_key(k) by {
        if exists|j: int| key_at(u, j, k) {
            let j = choose|j: int| key_at(u, j, k);
            assert(key_at(s, j, k));
        }
        if exists|j: int| key_at(s, j, k) {
            let j = choose|j: int| key_at(s, j, k);
            assert(key_at(u, j, k));
        }
        if k == s[i].0@ {
            assert(key_at(u, i, k));
        }
    }
    assert forall|k: Seq<char>| entries_map(u).contains_key(k) implies entries_map(u)[k] == m[k] by {
        let j = choose|j: int| key_at(u, j, k);
        assert(entries_map(u)[u[j].0@] == u[j].1);
        if j != i {
            assert(entries_map(s)[s[j].0@] == s[j].1);
        }
    }
    assert(entries_map(u) =~= m);
}

/// Removing the entry at `i` removes that entry's key from the map.
proof fn lemma_remove_entry<V>(s: Seq<(String, V)>, i: int)
    requires
        keys_distinct(s),
        0 <= i < s.len(),
    ensures
        keys_distinct(s.remove(i)),
        entries_map(s.remove(i)) == entries_map(s).remove(s[i].0@),
{
    let u = s.remove(i);
    assert(keys_distinct(u)) by {
        assert forall|a: int, b: int| 0 <= a < u.len() && 0 <= b < u.len() && a != b implies u[a].0@ != u[b].0@ by {
            let a2 = if a < i { a } else { a + 1 };
            let b2 = if b < i { b } else { b + 1 };
            assert(u[a] == s[a2]);
            assert(u[b] == s[b2]);
        }
    }
    lemma_entries_map(s);
    lemma_entries_map(u);
    let m = entries_map(s).remove(s[i].0@);
    assert forall|k: Seq<char>| #[trigger] entries_map(u).contains_key(k) <==> m.contains_key(k) by {
        if exists|j: int| key_at(u, j, k) {
            let j = choose|j: int| key_at(u, j, k);
            let j2 = if j < i { j } else { j + 1 };
            assert(u[j] == s[j2]);
            assert(key_at(s, j2, k));
            assert(j2 != i);
        }
        if m.contains_key(k) {
            let j = choose|j: int| key_at(s, j, k);
            assert(j != i);
            let j2 = if j < i { j } else { j - 1 };
            assert(u[j2] == s[j]);
            assert(key_at(u, j2, k));
        }
    }
    assert forall|k: Seq<char>| entries_map(u).contains_key(k) implies entries_map(u)[k] == m[k] by {
        let j = choose|j: int| key_at(u, j, k);
        let j2 = if j < i { j } else { j + 1 };
        assert(u[j] == s[j2]);
        assert(entries_map(u)[u[j].0@] == u[j].1);
        assert(entries_map(s)[s[j2].0@] == s[j2].1);
    }
    assert(entries_map(u) =~= m);
}

} // verus!
