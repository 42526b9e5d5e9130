use vstd::prelude::*;
use crate::keys::Key;

verus! {

/// The value that `name` is bound to in `s`, if any.
pub open spec fn lookup(s: Seq<(String, Key)>, name: Seq<char>) -> Option<Key>
    decreases s.len(),
{
    if s.len() == 0 {
        None
    } else if s.last().0@ == name {
        Some(s.last().1)
    } else {
        lookup(s.drop_last(), name)
    }
}

/// No name is bound twice.
pub open spec fn names_unique(s: Seq<(String, Key)>) -> bool {
    forall|i: int, j: int| 0 <= i < s.len() && 0 <= j < s.len() && i != j ==> s[i].0@ != s[j].0@
}

/// A mapping from names to keys, each name bound at most once.
pub struct NamedKeys {
    entries: Vec<(String, Key)>,
}

proof fn lemma_lookup_found(s: Seq<(String, Key)>, i: int)
    requires
        names_unique(s),
        0 <= i < s.len(),
    ensures
        lookup(s, s[i].0@) == Some(s[i].1),
    decreases s.len(),
{
    if i != s.len() - 1 {
        lemma_lookup_found(s.drop_last(), i);
    }
}

proof fn lemma_lookup_last(s: Seq<(String, Key)>, i: int, name: Seq<char>)
    requires
        0 <= i < s.len(),
        s[i].0@ == name,
        forall|j: int| i < j < s.len() ==> s[j].0@ != name,
    ensures
        lookup(s, name) == Some(s[i].1),
    decreases s.len(),
{
    if i != s.len() - 1 {
        lemma_lookup_last(s.drop_last(), i, name);
    }
}

proof fn lemma_lookup_absent(s: Seq<(String, Key)>, name: Seq<char>)
    requires
        forall|i: int| 0 <= i < s.len() ==> s[i].0@ != name,
    ensures
        lookup(s, name) is None,
    decreases s.len(),
{
    if s.len() > 0 {
        lemma_lookup_absent(s.drop_last(), name);
    }
}

impl NamedKeys {
    pub closed spec fn view(&self) -> Seq<(String, Key)> {
        self.entries@
    }

    pub closed spec fn wf(&self) -> bool {
        names_unique(self.entries@)
    }

    /// The key bound to `name` in this mapping.
    pub closed spec fn get_spec(&self, name: Seq<char>) -> Option<Key> {
        lookup(self.entries@, name)
    }

    pub fn new() -> (r: NamedKeys)
        ensures
            r.wf(),
            r.view().len() == 0,
            forall|n: Seq<char>| r.get_spec(n) is None,
    {
        NamedKeys { entries: Vec::new() }
    }

    pub fn len(&self) -> (r: usize)
        ensures
            r == self.view().len(),
    {
        self.entries.len()
    }

    /// The key at position `i`, in order of insertion.
    pub fn key_at(&self, i: usize) -> (r: Key)
        requires
            i < self.view().len(),
        ensures
            r == self.view()[i as int].1,
    {
        self.entries[i].1
    }

    fn position(&self, name: &String) -> (r: Option<usize>)
        requires
            self.wf(),
        ensures
            match r {
                Some(i) => i < self.entries@.len() && self.entries@[i as int].0@ == name@,
                None => forall|i: int| 0 <= i < self.entries@.len() ==> self.entries@[i].0@ != name@,
            },
    {
        let mut i: usize = 0;
        while i < self.entries.len()
            invariant
                i <= self.entries@.len(),
                forall|j: int| 0 <= j < i ==> self.entries@[j].0@ != name@,
            decreases self.entries@.len() - i,
        {
            if self.entries[i].0 == *name {
                return Some(i);
            }
            i = i + 1;
        }
        None
    }

    /// The key bound to `name`; of two bindings of one name, the later counts.
    pub fn get(&self, name: &String) -> (r: Option<Key>)
        ensures
            r == self.get_spec(name@),
    {
        let mut i: usize = self.entries.len();
        while i > 0
            invariant
                i <= self.entries@.len(),
                forall|j: int| i <= j < self.entries@.len() ==> self.entries@[j].0@ != name@,
            decreases i,
        {
            if self.entries[i - 1].0 == *name {
                proof { lemma_lookup_last(self.entries@, i - 1, name@); }
                return Some(self.entries[i - 1].1);
            }
            i = i - 1;
        }
        proof { lemma_lookup_absent(self.entries@, name@); }
        None
    }

    /// Binds `name` to `key`, replacing an earlier binding of that name.
    pub fn insert(&mut self, name: String, key: Key)
        requires
            old(self).wf(),
        ensures
            final(self).wf(),
            final(self).get_spec(name@) == Some(key),
            forall|n: Seq<char>| n != name@ ==> #[trigger] final(self).get_spec(n) == old(self).get_spec(n),
    {
        let ghost s0 = self.entries@;
        match self.position(&name) {
            Some(i) => {
                self.entries.set(i, (name, key));
                proof {
                    let s = self.entries@;
                    assert forall|n: Seq<char>| n != name@ implies #[trigger] lookup(s, n) == lookup(s0, n) by {
                        if exists|j: int| 0 <= j < s0.len() && s0[j].0@ == n {
                            let j = choose|j: int| 0 <= j < s0.len() && s0[j].0@ == n;
                            lemma_lookup_found(s0, j);
                            lemma_lookup_found(s, j);
                        } else {
                            lemma_lookup_absent(s0, n);
                            lemma_lookup_absent(s, n);
                        }
                    }
                    lemma_lookup_found(s, i as int);
                }
            },
            None => {
                self.entries.push((name, key));
                proof {
                    let s = self.entries@;
                    assert(s.drop_last() =~= s0);
                }
            },
        }
    }
}

} // verus!
