use vstd::prelude::*;

verus! {

/// A table of named values, against which expressions are evaluated.
/// Each name occurs at most once.
pub struct Variables<T> {
    entries: Vec<(String, T)>,
}

/// The names in `s` are pairwise distinct
pub open spec fn distinct_names<T>(s: Seq<(String, T)>) -> bool {
    forall|i: int, j: int| 0 <= i < j < s.len() ==> s[i].0@ != s[j].0@
}

/// The index at which `name` occurs in `s`
pub open spec fn name_index<T>(s: Seq<(String, T)>, name: Seq<char>) -> int {
    choose|i: int| 0 <= i < s.len() && s[i].0@ == name
}

impl<T> Variables<T> {
    #[verifier::type_invariant]
    spec fn wf(self) -> bool {
        distinct_names(self.entries@)
    }

    /// The table as a map from names (by their characters) to values
    pub closed spec fn map(self) -> Map<Seq<char>, T> {
        Map::new(
            |k: Seq<char>| exists|i: int| 0 <= i < self.entries@.len() && self.entries@[i].0@ == k,
            |k: Seq<char>| self.entries@[name_index(self.entries@, k)].1,
        )
    }

    /// An empty table
    pub fn new() -> (res: Variables<T>)
        ensures
            res.map() == Map::<Seq<char>, T>::empty(),
    {
        let res = Variables { entries: Vec::new() };
        assert(res.map() =~= Map::<Seq<char>, T>::empty());
        res
    }

    /// Index of the entry named `name`
    fn position(&self, name: &String) -> (res: Option<usize>)
        ensures
            match res {
                Some(i) => i < self.entries@.len() && self.entries@[i as int].0@ == name@,
                None => forall|i: int|
                    0 <= i < self.entries@.len() ==> self.entries@[i].0@ != name@,
            },
    {
        let mut i: usize = 0;
        while i < self.entries.len()
            invariant
                i <= self.entries@.len(),
                forall|j: int| 0 <= j < i ==> self.entries@[j].0@ != name@,
            decreases self.entries.len() - i,
        {
            if self.entries[i].0 == *name {
                return Some(i);
            }
            i += 1;
        }
        None
    }

    /// Set `name` to `value`, replacing any earlier value
    pub fn insert(&mut self, name: String, value: T)
        ensures
            final(self).map() == old(self).map().insert(name@, value),
    {
        proof {
            use_type_invariant(&*self);
        }
        let ghost old_entries = self.entries@;
        let ghost key = name@;
        match self.position(&name) {
            Some(i) => {
                let mut entries: Vec<(String, T)> = Vec::new();
                std::mem::swap(&mut entries, &mut self.entries);
                entries.set(i, (name, value));
                self.entries = entries;
                proof {
                    assert forall|k: Seq<char>| #[trigger]
                        self.map().dom().contains(k) implies self.map()[k] == old(self).map().insert(
                        key,
                        value,
                    )[k] by {
                        let n = name_index(self.entries@, k);
                        let m = name_index(old_entries, k);
                        assert(0 <= n < self.entries@.len() && self.entries@[n].0@ == k);
                        if k != key {
                            assert(old_entries[n].0@ == k);
                            assert(0 <= m < old_entries.len() && old_entries[m].0@ == k);
                        }
                    }
                    assert forall|k: Seq<char>| #[trigger]
                        self.map().dom().contains(k) implies old(self).map().insert(
                        key,
                        value,
                    ).dom().contains(k) by {
                        let n = choose|n: int|
                            0 <= n < self.entries@.len() && self.entries@[n].0@ == k;
                        if n != i {
                            assert(old_entries[n].0@ == k);
                        }
                    }
                    assert forall|k: Seq<char>|
                        old(self).map().insert(key, value).dom().contains(k) implies #[trigger]
                        self.map().dom().contains(k) by {
                        if k == key {
                            assert(self.entries@[i as int].0@ == key);
                        } else {
                            let m = choose|m: int|
                                0 <= m < old_entries.len() && old_entries[m].0@ == k;
                            assert(self.entries@[m].0@ == k);
                        }
                    }
                    assert(self.map().dom() =~= old(self).map().insert(key, value).dom());
                    assert(self.map() =~= old(self).map().insert(key, value));
                }
            },
            None => {
                let mut entries: Vec<(String, T)> = Vec::new();
                std::mem::swap(&mut entries, &mut self.entries);
                entries.push((name, value));
                self.entries = entries;
                proof {
                    let len = old_entries.len();
                    assert(self.entries@[len as int].0@ == key);
                    assert forall|k: Seq<char>| #[trigger]
                        self.map().dom().contains(k) implies self.map()[k] == old(self).map().insert(
                        key,
                        value,
                    )[k] by {
                        let n = name_index(self.entries@, k);
                        assert(0 <= n < self.entries@.len() && self.entries@[n].0@ == k);
                        if k != key {
                            assert(n < len);
                            assert(old_entries[n].0@ == k);
                            let m = name_index(old_entries, k);
                            assert(0 <= m < old_entries.len() && old_entries[m].0@ == k);
                        } else {
                            assert(n == len);
                        }
                    }
                    assert forall|k: Seq<char>|
                        old(self).map().insert(key, value).dom().contains(k) implies #[trigger]
                        self.map().dom().contains(k) by {
                        if k != key {
                            let m = name_index(old_entries, k);
                            assert(self.entries@[m].0@ == k);
                        }
                    }
                    assert(self.map().dom() =~= old(self).map().insert(key, value).dom());
                    assert(self.map() =~= old(self).map().insert(key, value));
                }
            },
        }
    }

    /// Take `name` out of the table, giving back its value if it was set
    pub fn remove(&mut self, name: &String) -> (res: Option<T>)
        ensures
            final(self).map() == old(self).map().remove(name@),
            match res {
                Some(v) => old(self).map().contains_key(name@) && old(self).map()[name@] == v,
                None => !old(self).map().contains_key(name@),
            },
    {
        proof {
            use_type_invariant(&*self);
        }
        let ghost old_entries = self.entries@;
        let ghost key = name@;
        match self.position(name) {
            Some(i) => {
                let mut entries: Vec<(String, T)> = Vec::new();
                std::mem::swap(&mut entries, &mut self.entries);
                let (_, v) = entries.remove(i);
                proof {
                    assert forall|a: int, b: int| 0 <= a < b < entries@.len() implies entries@[a].0@
                        != entries@[b].0@ by {
                        let a0 = if a < i { a } else { a + 1 };
                        let b0 = if b < i { b } else { b + 1 };
                        assert(entries@[a] == old_entries[a0]);
                        assert(entries@[b] == old_entries[b0]);
                    }
                }
                self.entries = entries;
                proof {
                    lemma_name_index(old_entries, i as int);
                    let after = self.entries@;
                    assert forall|k: Seq<char>| #[trigger]
                        self.map().dom().contains(k) <==> old(self).map().remove(key).dom().contains(k) by {
                        if self.map().dom().contains(k) {
                            let n = choose|n: int| 0 <= n < after.len() && after[n].0@ == k;
                            let n0 = if n < i { n } else { n + 1 };
                            assert(old_entries[n0].0@ == k);
                        }
                        if old(self).map().remove(key).dom().contains(k) {
                            let m = choose|m: int| 0 <= m < old_entries.len() && old_entries[m].0@ == k;
                            assert(m != i);
                            let m1 = if m < i { m } else { m - 1 };
                            assert(after[m1].0@ == k);
                        }
                    }
                    assert forall|k: Seq<char>| #[trigger]
                        self.map().dom().contains(k) implies self.map()[k] == old(self).map()[k] by {
                        let n = choose|n: int| 0 <= n < after.len() && after[n].0@ == k;
                        let n0 = if n < i { n } else { n + 1 };
                        assert(after[n] == old_entries[n0]);
                        lemma_name_index(after, n);
                        lemma_name_index(old_entries, n0);
                    }
                    assert(self.map() =~= old(self).map().remove(key));
                }
                Some(v)
            },
            None => {
                proof {
                    assert(old(self).map().remove(key) =~= old(self).map());
                }
                None
            },
        }
    }

    /// The entries of the table, each name once
    pub fn into_entries(self) -> (res: Vec<(String, T)>)
        ensures
            distinct_names(res@),
            forall|k: Seq<char>|
                #[trigger] self.map().contains_key(k) <==> exists|i: int|
                    0 <= i < res@.len() && res@[i].0@ == k,
            forall|i: int|
                0 <= i < res@.len() ==> #[trigger] self.map()[res@[i].0@] == res@[i].1,
    {
        proof {
            use_type_invariant(&self);
            assert forall|i: int| 0 <= i < self.entries@.len() implies #[trigger] self.map()[self.entries@[i].0@]
                == self.entries@[i].1 by {
                lemma_name_index(self.entries@, i);
            }
        }
        let Variables { entries } = self;
        entries
    }

    /// The value of `name`, if it is set
    pub fn get(&self, name: &String) -> (res: Option<&T>)
        ensures
            match res {
                Some(v) => self.map().contains_key(name@) && self.map()[name@] == *v,
                None => !self.map().contains_key(name@),
            },
    {
        proof {
            use_type_invariant(&*self);
        }
        match self.position(name) {
            Some(i) => {
                proof {
                    let n = name_index(self.entries@, name@);
                    assert(0 <= n < self.entries@.len() && self.entries@[n].0@ == name@);
                }
                Some(&self.entries[i].1)
            },
            None => None,
        }
    }
}

/// In a table whose names are distinct, a name's index is where it occurs
proof fn lemma_name_index<T>(s: Seq<(String, T)>, i: int)
    requires
        distinct_names(s),
        0 <= i < s.len(),
    ensures
        name_index(s, s[i].0@) == i,
{
    let n = name_index(s, s[i].0@);
    assert(0 <= n < s.len() && s[n].0@ == s[i].0@);
}

/// A value written to a name is what a later read of that name gives back, and
/// writing one name leaves every other name as it was.
pub proof fn lemma_read_after_write<T>(
    before: Map<Seq<char>, T>,
    name: Seq<char>,
    value: T,
    other: Seq<char>,
)
    ensures
        before.insert(name, value).contains_key(name),
        before.insert(name, value)[name] == value,
        other != name ==> before.insert(name, value).contains_key(other) == before.contains_key(
            other,
        ),
        other != name && before.contains_key(other) ==> before.insert(name, value)[other]
            == before[other],
{
}

} // verus!
