//! The label table: label names bound to instruction indices.
use vstd::prelude::*;

use crate::vm::ExecutionError;

verus! {

/// Entry `i` of `entries` binds the name `name`.
pub open spec fn binds(entries: Seq<(String, usize)>, name: Seq<char>, i: int) -> bool {
    0 <= i < entries.len() && entries[i].0@ == name
}

/// No name is bound by two entries.
pub open spec fn names_unique(entries: Seq<(String, usize)>) -> bool {
    forall|i: int, j: int|
        0 <= i < entries.len() && 0 <= j < entries.len() && entries[i].0@ == entries[j].0@
            ==> i == j
}

/// The bindings held by a list of entries.
pub open spec fn entries_map(entries: Seq<(String, usize)>) -> Map<Seq<char>, usize> {
    Map::new(
        |name: Seq<char>| exists|i: int| binds(entries, name, i),
        |name: Seq<char>| entries[choose|i: int| binds(entries, name, i)].1,
    )
}

proof fn lemma_entry(entries: Seq<(String, usize)>, name: Seq<char>, i: int)
    requires
        names_unique(entries),
        binds(entries, name, i),
    ensures
        entries_map(entries).contains_key(name),
        entries_map(entries)[name] == entries[i].1,
{
    let j = choose|j: int| binds(entries, name, j);
    assert(binds(entries, name, j));
}

/// A table from label name to instruction index; rebinding a name overwrites it.
pub struct Labels {
    entries: Vec<(String, usize)>,
}

impl View for Labels {
    type V = Map<Seq<char>, usize>;

    closed spec fn view(&self) -> Map<Seq<char>, usize> {
        entries_map(self.entries@)
    }
}

impl Labels {
    pub closed spec fn wf(&self) -> bool {
        names_unique(self.entries@)
    }

    /// An empty table.
    pub fn new() -> (r: Labels)
        ensures
            r.wf(),
            r@ == Map::<Seq<char>, usize>::empty(),
    {
        let r = Labels { entries: Vec::new() };
        assert(r@ =~= Map::<Seq<char>, usize>::empty());
        r
    }

    /// The entry that binds `name`, if any.
    fn find(&self, name: &String) -> (r: Option<usize>)
        requires
            self.wf(),
        ensures
            match r {
                Some(i) => binds(self.entries@, name@, i as int),
                None => forall|i: int| !binds(self.entries@, name@, i),
            },
    {
        let mut i: usize = 0;
        while i < self.entries.len()
            invariant
                i <= self.entries@.len(),
                forall|j: int| 0 <= j < i ==> !binds(self.entries@, name@, j),
            decreases self.entries@.len() - i,
        {
            if self.entries[i].0 == *name {
                return Some(i);
            }
            i = i + 1;
        }
        None
    }

    /// Binds `name` to `index`, replacing an earlier binding of the name.
    pub fn bind(&mut self, name: &String, index: usize)
        requires
            old(self).wf(),
        ensures
            final(self).wf(),
            final(self)@ == old(self)@.insert(name@, index),
    {
        let ghost before = self.entries@;
        match self.find(name) {
            Some(i) => {
                self.entries.set(i, (name.clone(), index));
                let ghost after = self.entries@;
                assert(names_unique(after)) by {
                    assert forall|a: int, b: int|
                        0 <= a < after.len() && 0 <= b < after.len() && after[a].0@ == after[b].0@
                        implies a == b by {
                        if a != i && b != i {
                            assert(before[a].0@ == before[b].0@);
                        } else if a == i && b != i {
                            assert(before[b].0@ == before[i as int].0@);
                        } else if a != i && b == i {
                            assert(before[a].0@ == before[i as int].0@);
                        }
                    }
                }
                let ghost want = entries_map(before).insert(name@, index);
                assert forall|k: Seq<char>|
                    #![trigger want.contains_key(k)]
                    #![trigger entries_map(after).contains_key(k)]
                    want.contains_key(k) || entries_map(after).contains_key(k)
                    implies entries_map(after).contains_key(k) && want.contains_key(k)
                        && entries_map(after)[k] == want[k] by {
                    if k == name@ {
                        lemma_entry(after, k, i as int);
                    } else if exists|j: int| binds(before, k, j) {
                        let j = choose|j: int| binds(before, k, j);
                        lemma_entry(before, k, j);
                        assert(j != i);
                        assert(binds(after, k, j));
                        lemma_entry(after, k, j);
                    } else {
                        assert forall|j: int| !binds(after, k, j) by {
                            if binds(after, k, j) {
                                assert(j != i);
                                assert(binds(before, k, j));
                            }
                        }
                    }
                }
                assert(entries_map(after) =~= want);
            },
            None => {
                self.entries.push((name.clone(), index));
                let ghost after = self.entries@;
                let ghost n = before.len() as int;
                assert(names_unique(after)) by {
                    assert forall|a: int, b: int|
                        0 <= a < after.len() && 0 <= b < after.len() && after[a].0@ == after[b].0@
                        implies a == b by {
                        if a != n && b != n {
                            assert(before[a].0@ == before[b].0@);
                        } else if a == n && b != n {
                            assert(!binds(before, name@, b));
                        } else if a != n && b == n {
                            assert(!binds(before, name@, a));
                        }
                    }
                }
                let ghost want = entries_map(before).insert(name@, index);
                assert forall|k: Seq<char>|
                    #![trigger want.contains_key(k)]
                    #![trigger entries_map(after).contains_key(k)]
                    want.contains_key(k) || entries_map(after).contains_key(k)
                    implies entries_map(after).contains_key(k) && want.contains_key(k)
                        && entries_map(after)[k] == want[k] by {
                    if k == name@ {
                        lemma_entry(after, k, n);
                    } else if exists|j: int| binds(before, k, j) {
                        let j = choose|j: int| binds(before, k, j);
                        lemma_entry(before, k, j);
                        assert(binds(after, k, j));
                        lemma_entry(after, k, j);
                    } else {
                        assert forall|j: int| !binds(after, k, j) by {
                            if binds(after, k, j) {
                                assert(j != n);
                                assert(binds(before, k, j));
                            }
                        }
                    }
                }
                assert(entries_map(after) =~= want);
            },
        }
    }

    /// The index that `name` is bound to, or `NoSuchMark`.
    pub fn resolve(&self, name: &String) -> (r: Result<usize, ExecutionError>)
        requires
            self.wf(),
        ensures
            self@.contains_key(name@) ==> r == Ok::<usize, ExecutionError>(self@[name@]),
            !self@.contains_key(name@) ==> r == Err::<usize, ExecutionError>(
                ExecutionError::NoSuchMark,
            ),
    {
        match self.find(name) {
            Some(i) => {
                proof {
                    lemma_entry(self.entries@, name@, i as int);
                }
                Ok(self.entries[i].1)
            },
            None => Err(ExecutionError::NoSuchMark),
        }
    }
}

} // verus!
