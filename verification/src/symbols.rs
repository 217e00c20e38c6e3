//! A table from names to bytes, as the assembler keeps labels and
//! `%DEFINE` constants: inserting a name that is present replaces its value.

use vstd::prelude::*;
use crate::text::chars_of;

verus! {

/// The names of `e`, as character sequences.
pub open spec fn names_of(e: Seq<(String, u8)>) -> Seq<Seq<char>> {
    e.map_values(|p: (String, u8)| p.0@)
}

/// The map that the entries `e` stand for (later entries win, though a
/// well-formed table never holds a name twice).
pub open spec fn entries_map(e: Seq<(String, u8)>) -> Map<Seq<char>, u8>
    decreases e.len(),
{
    if e.len() == 0 {
        Map::empty()
    } else {
        entries_map(e.drop_last()).insert(e.last().0@, e.last().1)
    }
}

/// A table of names and bytes, each name at most once.
pub struct SymbolTable {
    pub entries: Vec<(String, u8)>,
}

impl View for SymbolTable {
    type V = Map<Seq<char>, u8>;

    open spec fn view(&self) -> Map<Seq<char>, u8> {
        entries_map(self.entries@)
    }
}

proof fn lemma_entries_map_domain(e: Seq<(String, u8)>, k: Seq<char>)
    ensures
        entries_map(e).contains_key(k) <==> names_of(e).contains(k),
    decreases e.len(),
{
    if e.len() > 0 {
        lemma_entries_map_domain(e.drop_last(), k);
        assert(names_of(e.drop_last()) =~= names_of(e).drop_last());
        if names_of(e).contains(k) && k != e.last().0@ {
            let j = choose|j: int| 0 <= j < names_of(e).len() && names_of(e)[j] == k;
            assert(j < e.len() - 1);
            assert(names_of(e.drop_last())[j] == k);
        }
        if names_of(e.drop_last()).contains(k) {
            let j = choose|j: int| 0 <= j < names_of(e.drop_last()).len() && names_of(e.drop_last())[j] == k;
            assert(names_of(e)[j] == k);
        }
        if k == e.last().0@ {
            assert(names_of(e)[e.len() - 1] == k);
        }
    }
}

proof fn lemma_entries_map_at(e: Seq<(String, u8)>, j: int)
    requires
        0 <= j < e.len(),
        names_of(e).no_duplicates(),
    ensures
        entries_map(e).contains_key(e[j].0@),
        entries_map(e)[e[j].0@] == e[j].1,
    decreases e.len(),
{
    if j < e.len() - 1 {
        assert(names_of(e.drop_last()) =~= names_of(e).drop_last());
        assert(names_of(e)[j] != names_of(e)[e.len() - 1]);
        lemma_entries_map_at(e.drop_last(), j);
    }
}

proof fn lemma_entries_map_update(e: Seq<(String, u8)>, j: int, p: (String, u8))
    requires
        0 <= j < e.len(),
        names_of(e).no_duplicates(),
        p.0@ == e[j].0@,
    ensures
        entries_map(e.update(j, p)) == entries_map(e).insert(p.0@, p.1),
    decreases e.len(),
{
    let e2 = e.update(j, p);
    if j == e.len() - 1 {
        assert(e2.drop_last() =~= e.drop_last());
        assert(!names_of(e.drop_last()).contains(p.0@)) by {
            if names_of(e.drop_last()).contains(p.0@) {
                let i = choose|i: int| 0 <= i < names_of(e.drop_last()).len() && names_of(e.drop_last())[i] == p.0@;
                assert(names_of(e)[i] == names_of(e)[j]);
            }
        }
        lemma_entries_map_domain(e.drop_last(), p.0@);
        assert(entries_map(e2) =~= entries_map(e).insert(p.0@, p.1));
    } else {
        assert(names_of(e.drop_last()) =~= names_of(e).drop_last());
        assert(e2.drop_last() =~= e.drop_last().update(j, p));
        lemma_entries_map_update(e.drop_last(), j, p);
        assert(e.last().0@ != p.0@) by {
            assert(names_of(e)[j] != names_of(e)[e.len() - 1]);
        }
        assert(entries_map(e2) =~= entries_map(e).insert(p.0@, p.1));
    }
}

fn same_text(a: &[char], b: &[char]) -> (r: bool)
    ensures
        r == (a@ == b@),
{
    if a.len() != b.len() {
        return false;
    }
    let mut i: usize = 0;
    while i < a.len()
        invariant
            a@.len() == b@.len(),
            i <= a@.len(),
            a@.subrange(0, i as int) == b@.subrange(0, i as int),
        decreases a@.len() - i,
    {
        if a[i] != b[i] {
            assert(a@[i as int] != b@[i as int]);
            return false;
        }
        assert(a@.subrange(0, i + 1) =~= a@.subrange(0, i as int).push(a@[i as int]));
        assert(b@.subrange(0, i + 1) =~= b@.subrange(0, i as int).push(b@[i as int]));
        i = i + 1;
    }
    assert(a@ =~= a@.subrange(0, i as int));
    assert(b@ =~= b@.subrange(0, i as int));
    true
}

impl SymbolTable {
    /// Each name occurs once.
    pub open spec fn wf(&self) -> bool {
        names_of(self.entries@).no_duplicates()
    }

    /// An empty table.
    pub fn new() -> (t: SymbolTable)
        ensures
            t.wf(),
            t@ == Map::<Seq<char>, u8>::empty(),
    {
        SymbolTable { entries: Vec::new() }
    }

    /// Removes every entry.
    pub fn clear(&mut self)
        ensures
            final(self).wf(),
            final(self)@ == Map::<Seq<char>, u8>::empty(),
    {
        self.entries.clear();
        assert(names_of(self.entries@) =~= Seq::<Seq<char>>::empty());
    }

    /// The number of names in the table.
    pub fn len(&self) -> (n: usize)
        requires
            self.wf(),
        ensures
            n == self@.len(),
    {
        proof {
            self.lemma_len();
        }
        self.entries.len()
    }

    /// Tests whether the table is empty.
    pub fn is_empty(&self) -> (b: bool)
        requires
            self.wf(),
        ensures
            b == (self@.len() == 0),
    {
        proof {
            self.lemma_len();
        }
        self.entries.len() == 0
    }

    proof fn lemma_len(&self)
        requires
            self.wf(),
        ensures
            self@.dom().finite(),
            self@.len() == self.entries@.len(),
    {
        lemma_entries_map_len(self.entries@);
    }

    fn find(&self, name: &[char]) -> (r: Option<usize>)
        requires
            self.wf(),
        ensures
            r is Some ==> r->0 < self.entries@.len() && self.entries@[r->0 as int].0@ == name@,
            r is None ==> !self@.contains_key(name@),
    {
        let mut i: usize = 0;
        while i < self.entries.len()
            invariant
                i <= self.entries@.len(),
                forall|j: int| 0 <= j < i ==> self.entries@[j].0@ != name@,
            decreases self.entries@.len() - i,
        {
            let key = chars_of(self.entries[i].0.as_str());
            if same_text(&key, name) {
                return Some(i);
            }
            i = i + 1;
        }
        proof {
            lemma_entries_map_domain(self.entries@, name@);
            if names_of(self.entries@).contains(name@) {
                let j = choose|j: int| 0 <= j < names_of(self.entries@).len() && names_of(self.entries@)[j] == name@;
                assert(self.entries@[j].0@ == name@);
            }
        }
        None
    }

    /// The value under `name`, if there is one.
    pub fn get(&self, name: &[char]) -> (r: Option<u8>)
        requires
            self.wf(),
        ensures
            r == (if self@.contains_key(name@) {
                Some(self@[name@])
            } else {
                None::<u8>
            }),
    {
        match self.find(name) {
            Some(j) => {
                proof {
                    lemma_entries_map_at(self.entries@, j as int);
                }
                Some(self.entries[j].1)
            },
            None => None,
        }
    }

    /// Sets the value under `name`, replacing any value it had.
    pub fn insert(&mut self, name: &[char], value: u8)
        requires
            old(self).wf(),
        ensures
            final(self).wf(),
            final(self)@ == old(self)@.insert(name@, value),
    {
        let key = crate::text::string_of(name);
        match self.find(name) {
            Some(j) => {
                let ghost before = self.entries@;
                let p = (key, value);
                proof {
                    lemma_entries_map_update(before, j as int, p);
                }
                self.entries.set(j, p);
                assert(self.entries@ == before.update(j as int, p));
                assert(names_of(self.entries@) =~= names_of(before).update(j as int, name@));
                assert(names_of(self.entries@).no_duplicates()) by {
                    assert forall|a: int, b: int|
                        0 <= a < names_of(self.entries@).len() && 0 <= b < names_of(self.entries@).len()
                            && a != b implies names_of(self.entries@)[a] != names_of(self.entries@)[b] by {
                        assert(names_of(before)[a] != names_of(before)[b]);
                    }
                }
            },
            None => {
                let ghost before = self.entries@;
                proof {
                    lemma_entries_map_domain(before, name@);
                }
                self.entries.push((key, value));
                assert(self.entries@.drop_last() =~= before);
                assert(names_of(self.entries@) =~= names_of(before).push(name@));
                assert(names_of(self.entries@).no_duplicates()) by {
                    assert forall|a: int, b: int|
                        0 <= a < names_of(self.entries@).len() && 0 <= b < names_of(self.entries@).len()
                            && a != b implies names_of(self.entries@)[a] != names_of(self.entries@)[b] by {
                        if a < before.len() && b < before.len() {
                            assert(names_of(before)[a] != names_of(before)[b]);
                        } else if a < before.len() {
                            assert(names_of(before)[a] == names_of(self.entries@)[a]);
                        } else {
                            assert(names_of(before)[b] == names_of(self.entries@)[b]);
                        }
                    }
                }
            },
        }
    }
}

proof fn lemma_entries_map_len(e: Seq<(String, u8)>)
    requires
        names_of(e).no_duplicates(),
    ensures
        entries_map(e).dom().finite(),
        entries_map(e).len() == e.len(),
    decreases e.len(),
{
    if e.len() > 0 {
        assert(names_of(e.drop_last()) =~= names_of(e).drop_last());
        lemma_entries_map_len(e.drop_last());
        lemma_entries_map_domain(e.drop_last(), e.last().0@);
        if names_of(e.drop_last()).contains(e.last().0@) {
            let i = choose|i: int| 0 <= i < names_of(e.drop_last()).len() && names_of(e.drop_last())[i] == e.last().0@;
            assert(names_of(e)[i] == names_of(e)[e.len() - 1]);
        }
    }
}

} // verus!
