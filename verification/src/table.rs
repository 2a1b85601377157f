//! The table of the singletons found: a mapping from the name of a type to
//! the absolute address of the slot that holds its instance.

use vstd::prelude::*;

verus! {

/// One entry of the table.
#[derive(Clone, Debug, PartialEq, Eq)]
pub struct Entry {
    pub name: String,
    pub address: u64,
}

/// The mapping that a sequence of entries stands for: each entry is
/// inserted in turn, so the last entry of a name decides its address.
pub open spec fn map_of(entries: Seq<Entry>) -> Map<Seq<char>, u64>
    decreases entries.len(),
{
    if entries.len() == 0 {
        Map::empty()
    } else {
        map_of(entries.drop_last()).insert(entries.last().name@, entries.last().address)
    }
}

/// No name occurs in two entries.
pub open spec fn distinct_names(entries: Seq<Entry>) -> bool {
    forall|i: int, j: int|
        0 <= i < j < entries.len() ==> (#[trigger] entries[i]).name@ != (#[trigger] entries[j]).name@
}

/// No entry carries the name.
pub open spec fn absent(entries: Seq<Entry>, name: Seq<char>) -> bool {
    forall|i: int| 0 <= i < entries.len() ==> (#[trigger] entries[i]).name@ != name
}

proof fn lemma_absent_not_in_map(entries: Seq<Entry>, name: Seq<char>)
    requires
        absent(entries, name),
    ensures
        !map_of(entries).contains_key(name),
    decreases entries.len(),
{
    if entries.len() > 0 {
        let rest = entries.drop_last();
        assert forall|i: int| 0 <= i < rest.len() implies (#[trigger] rest[i]).name@ != name by {
            assert(rest[i] == entries[i]);
        }
        lemma_absent_not_in_map(rest, name);
        assert(entries[entries.len() - 1].name@ != name);
    }
}

proof fn lemma_entry_in_map(entries: Seq<Entry>, i: int)
    requires
        distinct_names(entries),
        0 <= i < entries.len(),
    ensures
        map_of(entries).contains_key(entries[i].name@),
        map_of(entries)[entries[i].name@] == entries[i].address,
    decreases entries.len(),
{
    let rest = entries.drop_last();
    let last = entries.len() - 1;
    if i < last {
        assert forall|a: int, b: int| 0 <= a < b < rest.len() implies (#[trigger] rest[a]).name@
            != (#[trigger] rest[b]).name@ by {
            assert(rest[a] == entries[a] && rest[b] == entries[b]);
        }
        lemma_entry_in_map(rest, i);
        assert(rest[i] == entries[i]);
        assert(entries[i].name@ != entries[last].name@);
    }
}

proof fn lemma_distinct_domain(entries: Seq<Entry>)
    requires
        distinct_names(entries),
    ensures
        map_of(entries).dom().finite(),
        map_of(entries).dom().len() == entries.len(),
    decreases entries.len(),
{
    if entries.len() > 0 {
        let rest = entries.drop_last();
        let last = entries.len() - 1;
        assert forall|a: int, b: int| 0 <= a < b < rest.len() implies (#[trigger] rest[a]).name@
            != (#[trigger] rest[b]).name@ by {
            assert(rest[a] == entries[a] && rest[b] == entries[b]);
        }
        lemma_distinct_domain(rest);
        assert forall|i: int| 0 <= i < rest.len() implies (#[trigger] rest[i]).name@
            != entries[last].name@ by {
            assert(rest[i] == entries[i]);
        }
        lemma_absent_not_in_map(rest, entries[last].name@);
        assert(map_of(entries).dom() =~= map_of(rest).dom().insert(entries[last].name@));
    }
}

proof fn lemma_replace(entries: Seq<Entry>, i: int, entry: Entry)
    requires
        distinct_names(entries),
        0 <= i < entries.len(),
        entry.name@ == entries[i].name@,
    ensures
        map_of(entries.update(i, entry)) == map_of(entries).insert(entry.name@, entry.address),
        distinct_names(entries.update(i, entry)),
    decreases entries.len(),
{
    let rest = entries.drop_last();
    let last = entries.len() - 1;
    let changed = entries.update(i, entry);
    assert forall|a: int, b: int| 0 <= a < b < changed.len() implies (#[trigger] changed[a]).name@
        != (#[trigger] changed[b]).name@ by {
        assert(changed[a].name@ == entries[a].name@);
        assert(changed[b].name@ == entries[b].name@);
    }
    if i == last {
        assert(changed.drop_last() =~= rest);
        assert(map_of(changed) =~= map_of(entries).insert(entry.name@, entry.address));
    } else {
        assert forall|a: int, b: int| 0 <= a < b < rest.len() implies (#[trigger] rest[a]).name@
            != (#[trigger] rest[b]).name@ by {
            assert(rest[a] == entries[a] && rest[b] == entries[b]);
        }
        assert(rest[i] == entries[i]);
        lemma_replace(rest, i, entry);
        assert(changed.drop_last() =~= rest.update(i, entry));
        assert(changed.last() == entries.last());
        assert(entries[i].name@ != entries[last].name@);
        assert(map_of(changed) =~= map_of(entries).insert(entry.name@, entry.address));
    }
}

/// The table of singletons. No name is held twice.
#[derive(Clone, Debug, PartialEq, Eq)]
pub struct SingletonMap {
    entries: Vec<Entry>,
}

impl View for SingletonMap {
    type V = Map<Seq<char>, u64>;

    closed spec fn view(&self) -> Map<Seq<char>, u64> {
        map_of(self.entries@)
    }
}

impl SingletonMap {
    /// No name is held twice.
    pub closed spec fn wf(&self) -> bool {
        distinct_names(self.entries@)
    }

    /// A table without entries.
    pub fn new() -> (table: SingletonMap)
        ensures
            table.wf(),
            table@ == Map::<Seq<char>, u64>::empty(),
    {
        SingletonMap { entries: Vec::new() }
    }

    /// The number of names in the table.
    pub fn len(&self) -> (n: usize)
        requires
            self.wf(),
        ensures
            self@.dom().finite(),
            n == self@.dom().len(),
    {
        proof {
            lemma_distinct_domain(self.entries@);
        }
        self.entries.len()
    }

    /// Tells whether the table holds no name.
    pub fn is_empty(&self) -> (empty: bool)
        requires
            self.wf(),
        ensures
            empty == (self@ == Map::<Seq<char>, u64>::empty()),
    {
        proof {
            lemma_distinct_domain(self.entries@);
            if self.entries@.len() > 0 {
                lemma_entry_in_map(self.entries@, 0);
            }
        }
        self.entries.len() == 0
    }

    fn position(&self, name: &String) -> (found: Option<usize>)
        ensures
            match found {
                Some(i) => i < self.entries@.len() && self.entries@[i as int].name@ == name@,
                None => absent(self.entries@, name@),
            },
    {
        let mut i: usize = 0;
        while i < self.entries.len()
            invariant
                0 <= i <= self.entries.len(),
                absent(self.entries@.take(i as int), name@),
            decreases self.entries.len() - i,
        {
            if self.entries[i].name == *name {
                return Some(i);
            }
            proof {
                let before = self.entries@.take(i as int);
                let after = self.entries@.take(i as int + 1);
                assert forall|j: int| 0 <= j < after.len() implies (#[trigger] after[j]).name@
                    != name@ by {
                    if j < i {
                        assert(before[j] == after[j]);
                    }
                }
            }
            i = i + 1;
        }
        proof {
            assert(self.entries@.take(self.entries.len() as int) =~= self.entries@);
        }
        None
    }

    /// The address held under a name, if the table holds the name.
    pub fn get(&self, name: &str) -> (address: Option<u64>)
        requires
            self.wf(),
        ensures
            address == (if self@.contains_key(name@) {
                Some(self@[name@])
            } else {
                None
            }),
    {
        let key = name.to_owned();
        match self.position(&key) {
            Some(i) => {
                proof {
                    lemma_entry_in_map(self.entries@, i as int);
                }
                Some(self.entries[i].address)
            },
            None => {
                proof {
                    lemma_absent_not_in_map(self.entries@, name@);
                }
                None
            },
        }
    }

    /// Puts an address under a name. An address that the name already had
    /// is overwritten.
    pub fn insert(&mut self, name: String, address: u64)
        requires
            old(self).wf(),
        ensures
            final(self).wf(),
            final(self)@ == old(self)@.insert(name@, address),
    {
        match self.position(&name) {
            Some(i) => {
                proof {
                    lemma_replace(self.entries@, i as int, Entry { name, address });
                }
                self.entries[i] = Entry { name, address };
            },
            None => {
                let ghost before = self.entries@;
                self.entries.push(Entry { name, address });
                proof {
                    assert(self.entries@.drop_last() =~= before);
                    assert forall|a: int, b: int|
                        0 <= a < b < self.entries@.len() implies (#[trigger] self.entries@[a]).name@
                        != (#[trigger] self.entries@[b]).name@ by {
                        if b < before.len() {
                            assert(before[a] == self.entries@[a] && before[b] == self.entries@[b]);
                        } else {
                            assert(before[a] == self.entries@[a]);
                        }
                    }
                }
            },
        }
    }

    /// The entries of the table, in the order in which their names first
    /// came in.
    pub fn entries(&self) -> (list: &Vec<Entry>)
        requires
            self.wf(),
        ensures
            distinct_names(list@),
            map_of(list@) == self@,
    {
        &self.entries
    }
}

} // verus!
