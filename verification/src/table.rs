//! A table of values by name, as the program keeps its users by nickname and
//! its channels by server and channel name.
use vstd::prelude::*;
use crate::text::str_eq;

verus! {

type Entries<V> = Seq<(String, V)>;

spec fn key_at<V>(s: Entries<V>, i: int) -> Seq<char> {
    s[i].0@
}

spec fn has_key<V>(s: Entries<V>, k: Seq<char>) -> bool {
    exists|i: int| 0 <= i < s.len() && key_at(s, i) == k
}

spec fn keys_distinct<V>(s: Entries<V>) -> bool {
    forall|i: int, j: int| 0 <= i < s.len() && 0 <= j < s.len() && i != j ==> key_at(s, i) != key_at(s, j)
}

spec fn entries_map<V>(s: Entries<V>) -> Map<Seq<char>, V> {
    Map::new(
        |k: Seq<char>| has_key(s, k),
        |k: Seq<char>| s[choose|i: int| 0 <= i < s.len() && key_at(s, i) == k].1,
    )
}

proof fn lemma_entry<V>(s: Entries<V>, i: int)
    requires
        keys_distinct(s),
        0 <= i < s.len(),
    ensures
        entries_map(s).contains_key(key_at(s, i)),
        entries_map(s)[key_at(s, i)] == s[i].1,
{
    let k = key_at(s, i);
    assert(has_key(s, k));
    let j = choose|j: int| 0 <= j < s.len() && key_at(s, j) == k;
    assert(j == i);
}

/// Replacing the entry at `i` by one with the same key.
proof fn lemma_replace<V>(s: Entries<V>, i: int, e: (String, V))
    requires
        keys_distinct(s),
        0 <= i < s.len(),
        e.0@ == key_at(s, i),
    ensures
        keys_distinct(s.update(i, e)),
        entries_map(s.update(i, e)) == entries_map(s).insert(e.0@, e.1),
{
    let t = s.update(i, e);
    let k = e.0@;
    assert forall|a: int, b: int| 0 <= a < t.len() && 0 <= b < t.len() && a != b implies key_at(t, a)
        != key_at(t, b) by {
        assert(key_at(t, a) == key_at(s, a));
        assert(key_at(t, b) == key_at(s, b));
    }
    assert forall|q: Seq<char>| #![auto] has_key(t, q) <==> has_key(s, q) by {
        if has_key(t, q) {
            let j = choose|j: int| 0 <= j < t.len() && key_at(t, j) == q;
            assert(key_at(s, j) == q);
        }
        if has_key(s, q) {
            let j = choose|j: int| 0 <= j < s.len() && key_at(s, j) == q;
            assert(key_at(t, j) == q);
        }
    }
    assert forall|q: Seq<char>| has_key(t, q) implies #[trigger] entries_map(t)[q] == (if q == k {
        e.1
    } else {
        entries_map(s)[q]
    }) by {
        let j = choose|j: int| 0 <= j < t.len() && key_at(t, j) == q;
        lemma_entry(t, j);
        if q != k {
            assert(key_at(s, j) == q);
            lemma_entry(s, j);
        }
    }
    assert(entries_map(t) =~= entries_map(s).insert(k, e.1));
}

/// Appending an entry with a new key.
proof fn lemma_push<V>(s: Entries<V>, e: (String, V))
    requires
        keys_distinct(s),
        !has_key(s, e.0@),
    ensures
        keys_distinct(s.push(e)),
        entries_map(s.push(e)) == entries_map(s).insert(e.0@, e.1),
{
    let t = s.push(e);
    let k = e.0@;
    let n = s.len() as int;
    assert forall|a: int, b: int| 0 <= a < t.len() && 0 <= b < t.len() && a != b implies key_at(t, a)
        != key_at(t, b) by {
        if a != n && b != n {
            assert(key_at(t, a) == key_at(s, a));
            assert(key_at(t, b) == key_at(s, b));
        } else if a == n {
            assert(key_at(t, b) == key_at(s, b));
        } else {
            assert(key_at(t, a) == key_at(s, a));
        }
    }
    assert forall|q: Seq<char>| #![auto] has_key(t, q) <==> (has_key(s, q) || q == k) by {
        if has_key(t, q) && q != k {
            let j = choose|j: int| 0 <= j < t.len() && key_at(t, j) == q;
            assert(key_at(s, j) == q);
        }
        if has_key(s, q) {
            let j = choose|j: int| 0 <= j < s.len() && key_at(s, j) == q;
            assert(key_at(t, j) == q);
        }
        if q == k {
            assert(key_at(t, n) == q);
        }
    }
    assert forall|q: Seq<char>| has_key(t, q) implies #[trigger] entries_map(t)[q] == (if q == k {
        e.1
    } else {
        entries_map(s)[q]
    }) by {
        let j = choose|j: int| 0 <= j < t.len() && key_at(t, j) == q;
        lemma_entry(t, j);
        if q != k {
            assert(j != n);
            assert(key_at(s, j) == q);
            lemma_entry(s, j);
        } else {
            assert(key_at(t, n) == k);
            assert(j == n);
        }
    }
    assert(entries_map(t) =~= entries_map(s).insert(k, e.1));
}

/// Removing the entry at `i`.
proof fn lemma_remove<V>(s: Entries<V>, i: int)
    requires
        keys_distinct(s),
        0 <= i < s.len(),
    ensures
        keys_distinct(s.remove(i)),
        entries_map(s.remove(i)) == entries_map(s).remove(key_at(s, i)),
{
    let t = s.remove(i);
    let k = key_at(s, i);
    assert forall|a: int| 0 <= a < t.len() implies #[trigger] key_at(t, a) == key_at(
        s,
        if a < i {
            a
        } else {
            a + 1
        },
    ) by {}
    assert forall|a: int, b: int| 0 <= a < t.len() && 0 <= b < t.len() && a != b implies key_at(t, a)
        != key_at(t, b) by {
        let a2 = if a < i {
            a
        } else {
            a + 1
        };
        let b2 = if b < i {
            b
        } else {
            b + 1
        };
        assert(key_at(s, a2) != key_at(s, b2));
    }
    assert forall|q: Seq<char>| #![auto] has_key(t, q) <==> (has_key(s, q) && q != k) by {
        if has_key(t, q) {
            let j = choose|j: int| 0 <= j < t.len() && key_at(t, j) == q;
            let j2 = if j < i {
                j
            } else {
                j + 1
            };
            assert(key_at(s, j2) == q);
            assert(j2 != i);
        }
        if has_key(s, q) && q != k {
            let j = choose|j: int| 0 <= j < s.len() && key_at(s, j) == q;
            assert(j != i);
            let j1 = if j < i {
                j
            } else {
                j - 1
            };
            assert(key_at(t, j1) == q);
        }
    }
    assert forall|q: Seq<char>| has_key(t, q) implies #[trigger] entries_map(t)[q] == entries_map(
        s,
    )[q] by {
        let j = choose|j: int| 0 <= j < t.len() && key_at(t, j) == q;
        lemma_entry(t, j);
        let j2 = if j < i {
            j
        } else {
            j + 1
        };
        assert(key_at(s, j2) == q);
        lemma_entry(s, j2);
    }
    assert(entries_map(t) =~= entries_map(s).remove(k));
}

/// A table of values by name.
#[verifier::reject_recursive_types(V)]
pub struct NamedTable<V> {
    entries: Vec<(String, V)>,
}

impl<V> NamedTable<V> {
    #[verifier::type_invariant]
    spec fn well_formed(self) -> bool {
        keys_distinct(self.entries@)
    }
}

impl<V> View for NamedTable<V> {
    type V = Map<Seq<char>, V>;

    closed spec fn view(&self) -> Map<Seq<char>, V> {
        entries_map(self.entries@)
    }
}

impl<V> NamedTable<V> {
    /// An empty table.
    pub fn new() -> (res: Self)
        ensures
            res@ == Map::<Seq<char>, V>::empty(),
    {
        let res = NamedTable { entries: Vec::new() };
        assert(res@ =~= Map::<Seq<char>, V>::empty());
        res
    }

    /// The position of `name` in the entries.
    fn find(&self, name: &str) -> (res: Option<usize>)
        ensures
            match res {
                Some(i) => i < self.entries@.len() && key_at(self.entries@, i as int) == name@,
                None => !has_key(self.entries@, name@),
            },
    {
        let mut i: usize = 0;
        while i < self.entries.len()
            invariant
                i <= self.entries@.len(),
                forall|j: int| 0 <= j < i ==> key_at(self.entries@, j) != name@,
            decreases self.entries@.len() - i,
        {
            if str_eq(self.entries[i].0.as_str(), name) {
                return Some(i);
            }
            i = i + 1;
        }
        None
    }

    /// The value of `name`, if the table knows it.
    pub fn get(&self, name: &str) -> (res: Option<&V>)
        ensures
            match res {
                Some(v) => self@.contains_key(name@) && *v == self@[name@],
                None => !self@.contains_key(name@),
            },
    {
        proof {
            use_type_invariant(self);
        }
        match self.find(name) {
            Some(i) => {
                proof {
                    lemma_entry(self.entries@, i as int);
                }
                Some(&self.entries[i].1)
            },
            None => None,
        }
    }

    /// Whether the table knows `name`.
    pub fn contains(&self, name: &str) -> (res: bool)
        ensures
            res == self@.contains_key(name@),
    {
        self.get(name).is_some()
    }

    /// Records `value` under `name`, in place of any value that was there.
    pub fn insert(&mut self, name: String, value: V)
        ensures
            final(self)@ == old(self)@.insert(name@, value),
    {
        proof {
            use_type_invariant(&*self);
        }
        let found = self.find(name.as_str());
        let mut entries: Vec<(String, V)> = Vec::new();
        std::mem::swap(&mut entries, &mut self.entries);
        let ghost before = entries@;
        match found {
            Some(i) => {
                proof {
                    lemma_replace(before, i as int, (name, value));
                }
                entries.set(i, (name, value));
            },
            None => {
                proof {
                    lemma_push(before, (name, value));
                }
                entries.push((name, value));
            },
        }
        self.entries = entries;
    }

    /// Takes `name` out of the table, with the value that it had.
    pub fn remove(&mut self, name: &str) -> (res: Option<V>)
        ensures
            res == (if old(self)@.contains_key(name@) {
                Some(old(self)@[name@])
            } else {
                None
            }),
            final(self)@ == old(self)@.remove(name@),
    {
        proof {
            use_type_invariant(&*self);
        }
        match self.find(name) {
            Some(i) => {
                let mut entries: Vec<(String, V)> = Vec::new();
                std::mem::swap(&mut entries, &mut self.entries);
                proof {
                    lemma_entry(entries@, i as int);
                    lemma_remove(entries@, i as int);
                }
                let (_, value) = entries.remove(i);
                self.entries = entries;
                Some(value)
            },
            None => {
                assert(self@ =~= self@.remove(name@));
                None
            },
        }
    }
}

} // verus!
