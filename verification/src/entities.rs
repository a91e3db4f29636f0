//! The table of named entities and their replacement texts.

use crate::text::same_text;
use vstd::prelude::*;

verus! {

/// The replacement text recorded for `name` by the first entry that bears it.
pub open spec fn lookup(entries: Seq<(String, String)>, name: Seq<char>) -> Option<Seq<char>>
    decreases entries.len(),
{
    if entries.len() == 0 {
        None
    } else if entries[0].0@ == name {
        Some(entries[0].1@)
    } else {
        lookup(entries.drop_first(), name)
    }
}

/// The mapping that a list of entries stands for.
pub open spec fn table_of(entries: Seq<(String, String)>) -> Map<Seq<char>, Seq<char>> {
    Map::new(
        |name: Seq<char>| lookup(entries, name) is Some,
        |name: Seq<char>| lookup(entries, name)->0,
    )
}

/// No two entries bear the same name.
pub open spec fn names_differ(entries: Seq<(String, String)>) -> bool {
    forall|i: int, j: int| 0 <= i < j < entries.len() ==> entries[i].0@ != entries[j].0@
}

/// A lookup that skips the first `k` entries, none of which bears `name`,
/// finds what the whole lookup finds.
proof fn lemma_lookup_skip(entries: Seq<(String, String)>, name: Seq<char>, k: int)
    requires
        0 <= k <= entries.len(),
        forall|i: int| 0 <= i < k ==> entries[i].0@ != name,
    ensures
        lookup(entries, name) == lookup(entries.subrange(k, entries.len() as int), name),
    decreases k,
{
    if k == 0 {
        assert(entries.subrange(0, entries.len() as int) =~= entries);
    } else {
        let rest = entries.drop_first();
        lemma_lookup_skip(rest, name, k - 1);
        assert(rest.subrange(k - 1, rest.len() as int) =~= entries.subrange(
            k,
            entries.len() as int,
        ));
    }
}

/// Replacing the entry at `at` changes what is found under its name and
/// nothing else, provided no earlier entry bears that name.
proof fn lemma_lookup_update(
    entries: Seq<(String, String)>,
    at: int,
    entry: (String, String),
    name: Seq<char>,
)
    requires
        0 <= at < entries.len(),
        entries[at].0@ == entry.0@,
        forall|i: int| 0 <= i < at ==> entries[i].0@ != entry.0@,
    ensures
        lookup(entries.update(at, entry), name) == if name == entry.0@ {
            Some(entry.1@)
        } else {
            lookup(entries, name)
        },
    decreases at,
{
    let changed = entries.update(at, entry);
    if at == 0 {
        assert(changed.drop_first() =~= entries.drop_first());
    } else {
        lemma_lookup_update(entries.drop_first(), at - 1, entry, name);
        assert(changed.drop_first() =~= entries.drop_first().update(at - 1, entry));
    }
}

/// Appending an entry whose name no entry bears adds it to what is found.
proof fn lemma_lookup_push(entries: Seq<(String, String)>, entry: (String, String), name: Seq<char>)
    requires
        lookup(entries, entry.0@) is None,
    ensures
        lookup(entries.push(entry), name) == if name == entry.0@ {
            Some(entry.1@)
        } else {
            lookup(entries, name)
        },
    decreases entries.len(),
{
    let grown = entries.push(entry);
    reveal_with_fuel(lookup, 2);
    if entries.len() == 0 {
        assert(grown.drop_first() =~= Seq::<(String, String)>::empty());
    } else {
        lemma_lookup_push(entries.drop_first(), entry, name);
        assert(grown.drop_first() =~= entries.drop_first().push(entry));
    }
}

/// Entity names with the text that replaces each. A name occurs once.
pub struct EntityTable {
    entries: Vec<(String, String)>,
}

impl View for EntityTable {
    type V = Map<Seq<char>, Seq<char>>;

    closed spec fn view(&self) -> Map<Seq<char>, Seq<char>> {
        table_of(self.entries@)
    }
}

impl EntityTable {
    #[verifier::type_invariant]
    spec fn well_formed(&self) -> bool {
        names_differ(self.entries@)
    }

    /// The table without entries.
    pub fn new() -> (table: EntityTable)
        ensures
            table@ == Map::<Seq<char>, Seq<char>>::empty(),
    {
        let table = EntityTable { entries: Vec::new() };
        assert(table@ =~= Map::<Seq<char>, Seq<char>>::empty());
        table
    }

    /// The index of the entry that bears `name`.
    fn position(&self, name: &str) -> (found: Option<usize>)
        ensures
            match found {
                Some(at) => {
                    &&& at < self.entries@.len()
                    &&& self.entries@[at as int].0@ == name@
                    &&& forall|i: int| 0 <= i < at ==> self.entries@[i].0@ != name@
                    &&& lookup(self.entries@, name@) == Some(self.entries@[at as int].1@)
                },
                None => lookup(self.entries@, name@) is None,
            },
    {
        let mut at: usize = 0;
        while at < self.entries.len()
            invariant
                at <= self.entries@.len(),
                forall|i: int| 0 <= i < at ==> self.entries@[i].0@ != name@,
            decreases self.entries@.len() - at,
        {
            if same_text(self.entries[at].0.as_str(), name) {
                proof {
                    lemma_lookup_skip(self.entries@, name@, at as int);
                }
                return Some(at);
            }
            at += 1;
        }
        proof {
            lemma_lookup_skip(self.entries@, name@, at as int);
        }
        None
    }

    /// The replacement text of the entity `name`, if the table has it.
    pub fn get(&self, name: &str) -> (found: Option<&String>)
        ensures
            match found {
                Some(value) => self@.contains_key(name@) && self@[name@] == value@,
                None => !self@.contains_key(name@),
            },
    {
        match self.position(name) {
            Some(at) => Some(&self.entries[at].1),
            None => None,
        }
    }

    /// Records `value` as the replacement text of `name`, in place of any
    /// text recorded for it before.
    pub fn insert(&mut self, name: &str, value: String)
        ensures
            final(self)@ == old(self)@.insert(name@, value@),
    {
        proof {
            use_type_invariant(&*self);
        }
        let ghost before = self.entries@;
        let entry = (name.to_owned(), value);
        let found = self.position(name);
        let mut entries: Vec<(String, String)> = Vec::new();
        core::mem::swap(&mut self.entries, &mut entries);
        match found {
            Some(at) => {
                entries[at] = entry;
                proof {
                    assert forall|k: Seq<char>| #[trigger]
                        lookup(entries@, k) == if k == name@ {
                            Some(value@)
                        } else {
                            lookup(before, k)
                        } by {
                        lemma_lookup_update(before, at as int, entry, k);
                    }
                }
            },
            None => {
                entries.push(entry);
                proof {
                    assert forall|k: Seq<char>| #[trigger]
                        lookup(entries@, k) == if k == name@ {
                            Some(value@)
                        } else {
                            lookup(before, k)
                        } by {
                        lemma_lookup_push(before, entry, k);
                    }
                    assert forall|i: int| 0 <= i < before.len() implies before[i].0@ != name@ by {
                        if before[i].0@ == name@ {
                            lemma_lookup_found(before, i);
                        }
                    }
                }
            },
        }
        core::mem::swap(&mut self.entries, &mut entries);
        assert(self@ =~= old(self)@.insert(name@, value@));
    }
}

/// A name that some entry bears is found.
proof fn lemma_lookup_found(entries: Seq<(String, String)>, at: int)
    requires
        0 <= at < entries.len(),
    ensures
        lookup(entries, entries[at].0@) is Some,
    decreases at,
{
    if at > 0 && entries[0].0@ != entries[at].0@ {
        lemma_lookup_found(entries.drop_first(), at - 1);
    }
}

impl Default for EntityTable {
    fn default() -> (table: EntityTable)
        ensures
            table@ == Map::<Seq<char>, Seq<char>>::empty(),
    {
        EntityTable::new()
    }
}

} // verus!
