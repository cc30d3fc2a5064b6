//! An ordered table from names to values, the runtime's stand-in for a
//! string-keyed hash map: member tables of objects and method tables of
//! types.
use vstd::prelude::*;
use crate::names::{
    first_position,
    lemma_distinct_position,
    lemma_distinct_push,
    lemma_position_from,
    lemma_position_push,
    lemma_position_unique,
    names_distinct,
};

verus! {

/// One binding of a table.
pub struct Entry<T> {
    pub name: String,
    pub value: T,
}

/// Bindings in insertion order.  A lookup takes the first entry with the
/// name; `insert` keeps at most one entry per name.
pub struct NameTable<T> {
    pub entries: Vec<Entry<T>>,
}

/// The names of a sequence of entries, in order.
pub open spec fn entry_names<T>(entries: Seq<Entry<T>>) -> Seq<Seq<char>> {
    Seq::new(entries.len(), |i: int| entries[i].name@)
}

/// The map that a sequence of entries stands for.
pub open spec fn entries_map<T>(entries: Seq<Entry<T>>) -> Map<Seq<char>, T> {
    Map::new(
        |name: Seq<char>| first_position(entry_names(entries), name) is Some,
        |name: Seq<char>| entries[first_position(entry_names(entries), name).unwrap()].value,
    )
}

/// Putting an entry in front of a sequence of entries binds its name to its
/// value and leaves the other names as they were.
pub proof fn lemma_entries_map_front<T>(entries: Seq<Entry<T>>, k: int)
    requires
        0 < k <= entries.len(),
    ensures
        entries_map(entries.subrange(k - 1, entries.len() as int)) == entries_map(
            entries.subrange(k, entries.len() as int),
        ).insert(entries[k - 1].name@, entries[k - 1].value),
{
    let longer = entries.subrange(k - 1, entries.len() as int);
    let shorter = entries.subrange(k, entries.len() as int);
    let front = entries[k - 1];
    let target = entries_map(shorter).insert(front.name@, front.value);
    let long_names = entry_names(longer);
    let short_names = entry_names(shorter);
    assert forall|key: Seq<char>|
        first_position(long_names, key) == if key == front.name@ {
            Some(0int)
        } else {
            match first_position(short_names, key) {
                Some(i) => Some(i + 1),
                None => None,
            }
        } by {
        lemma_position_from(short_names, key, 0);
        let expected = if key == front.name@ {
            Some(0int)
        } else {
            match first_position(short_names, key) {
                Some(i) => Some(i + 1),
                None => None,
            }
        };
        assert(long_names[0] == front.name@);
        assert(forall|j: int| 0 <= j < short_names.len() ==> long_names[j + 1] == short_names[j]);
        assert forall|j: int| 1 <= j < long_names.len() implies long_names[j] == short_names[j
            - 1] by {
            assert(long_names[(j - 1) + 1] == short_names[j - 1]);
        }
        lemma_position_unique(long_names, key, 0, expected);
    }
    assert forall|key: Seq<char>| #[trigger]
        entries_map(longer).dom().contains(key) implies entries_map(longer)[key] == target[key] by {
        lemma_position_from(short_names, key, 0);
    }
    assert(entries_map(longer).dom() =~= target.dom());
    assert(entries_map(longer) =~= target);
}

/// Putting an entry behind a sequence of entries binds its name to its
/// value where the name was not bound, and changes nothing where it was.
pub proof fn lemma_entries_map_back<T>(entries: Seq<Entry<T>>, k: int)
    requires
        0 <= k < entries.len(),
    ensures
        entries_map(entries.subrange(0, k + 1)) == if entries_map(
            entries.subrange(0, k),
        ).dom().contains(entries[k].name@) {
            entries_map(entries.subrange(0, k))
        } else {
            entries_map(entries.subrange(0, k)).insert(entries[k].name@, entries[k].value)
        },
{
    let shorter = entries.subrange(0, k);
    let longer = entries.subrange(0, k + 1);
    let back = entries[k];
    let target = if entries_map(shorter).dom().contains(back.name@) {
        entries_map(shorter)
    } else {
        entries_map(shorter).insert(back.name@, back.value)
    };
    assert(entry_names(longer) =~= entry_names(shorter).push(back.name@));
    assert forall|key: Seq<char>| #[trigger]
        entries_map(longer).dom().contains(key) == target.dom().contains(key) by {
        lemma_position_push(entry_names(shorter), back.name@, key);
    }
    assert forall|key: Seq<char>| #[trigger]
        entries_map(longer).dom().contains(key) implies entries_map(longer)[key] == target[key] by {
        lemma_position_push(entry_names(shorter), back.name@, key);
        lemma_position_from(entry_names(shorter), key, 0);
    }
    assert(entries_map(longer).dom() =~= target.dom());
    assert(entries_map(longer) =~= target);
}

impl<T> View for NameTable<T> {
    type V = Map<Seq<char>, T>;

    open spec fn view(&self) -> Map<Seq<char>, T> {
        entries_map(self.entries@)
    }
}

impl<T> NameTable<T> {
    /// The names of the table, in insertion order.
    pub open spec fn names(&self) -> Seq<Seq<char>> {
        entry_names(self.entries@)
    }

    /// Whether no name occurs twice in the table.  `new`, `insert` and
    /// `pop` keep it so; a table whose entries were put together by hand
    /// may hold a name twice, and then shows the first of its entries.
    pub open spec fn distinct(&self) -> bool {
        names_distinct(self.names())
    }

    /// In a table of distinct names every entry is bound in the view: the
    /// view shows exactly the values that the table holds.
    pub proof fn law_distinct_entries_are_bound(self, at: int)
        requires
            self.distinct(),
            0 <= at < self.entries@.len(),
        ensures
            self@.dom().contains(self.entries@[at].name@),
            self@[self.entries@[at].name@] == self.entries@[at].value,
    {
        lemma_distinct_position(self.names(), at);
    }

    /// An empty table.
    pub fn new() -> (table: Self)
        ensures
            table@ == Map::<Seq<char>, T>::empty(),
            table.entries@.len() == 0,
            table.distinct(),
    {
        let table = NameTable { entries: Vec::new() };
        assert(table@ =~= Map::<Seq<char>, T>::empty());
        table
    }

    /// The number of entries.
    pub fn len(&self) -> (n: usize)
        ensures
            n == self.entries@.len(),
    {
        self.entries.len()
    }

    /// The position of the first entry with this name.
    pub fn position(&self, name: &str) -> (at: Option<usize>)
        ensures
            match at {
                Some(i) => first_position(self.names(), name@) == Some(i as int) && i
                    < self.entries@.len(),
                None => first_position(self.names(), name@) is None,
            },
    {
        let mut i: usize = 0;
        while i < self.entries.len()
            invariant
                i <= self.entries@.len(),
                forall|j: int| 0 <= j < i ==> self.names()[j] != name@,
            decreases self.entries@.len() - i,
        {
            if name.eq(self.entries[i].name.as_str()) {
                proof {
                    lemma_position_unique(self.names(), name@, 0, Some(i as int));
                }
                return Some(i);
            }
            i = i + 1;
        }
        proof {
            lemma_position_unique(self.names(), name@, 0, None);
        }
        None
    }

    /// Whether the table binds this name.
    pub fn contains(&self, name: &str) -> (found: bool)
        ensures
            found == self@.dom().contains(name@),
    {
        self.position(name).is_some()
    }

    /// The value bound to this name.
    pub fn get(&self, name: &str) -> (value: Option<&T>)
        ensures
            value == if self@.dom().contains(name@) {
                Some(&self@[name@])
            } else {
                None
            },
    {
        match self.position(name) {
            Some(i) => Some(&self.entries[i].value),
            None => None,
        }
    }

    /// Binds `name` to `value` and hands back the value that it was bound
    /// to before.  An existing entry keeps its place; a new one goes last.
    pub fn insert(&mut self, name: String, value: T) -> (displaced: Option<T>)
        ensures
            final(self)@ == old(self)@.insert(name@, value),
            displaced == if old(self)@.dom().contains(name@) {
                Some(old(self)@[name@])
            } else {
                None
            },
            match first_position(old(self).names(), name@) {
                Some(i) => final(self).entries@ == old(self).entries@.update(
                    i,
                    Entry { name: old(self).entries@[i].name, value },
                ),
                None => final(self).entries@ == old(self).entries@.push(Entry { name, value }),
            },
            old(self).distinct() ==> final(self).distinct(),
            final(self).entries@.len() == old(self).entries@.len() + if old(self)@.dom().contains(
                name@,
            ) {
                0int
            } else {
                1int
            },
    {
        proof {
            if first_position(self.names(), name@) is None && self.distinct() {
                lemma_distinct_push(self.names(), name@);
            }
            lemma_position_from(self.names(), name@, 0);
        }
        match self.position(name.as_str()) {
            Some(i) => {
                let ghost given = value;
                let mut value = value;
                std::mem::swap(&mut self.entries[i].value, &mut value);
                proof {
                    let before = old(self).names();
                    let target = old(self)@.insert(name@, given);
                    assert(self.names() =~= before);
                    lemma_position_from(before, name@, 0);
                    assert forall|key: Seq<char>| #[trigger]
                        self@.dom().contains(key) implies self@[key] == target[key] by {
                        lemma_position_from(before, key, 0);
                    }
                    assert(self@.dom() =~= target.dom());
                    assert(self@ =~= target);
                }
                Some(value)
            },
            None => {
                let ghost given = value;
                let ghost label = name@;
                self.entries.push(Entry { name, value });
                proof {
                    let before = old(self).names();
                    let target = old(self)@.insert(label, given);
                    assert(self.names() =~= before.push(label));
                    assert forall|key: Seq<char>| #[trigger]
                        self@.dom().contains(key) == target.dom().contains(key) by {
                        lemma_position_push(before, label, key);
                    }
                    assert forall|key: Seq<char>| #[trigger]
                        self@.dom().contains(key) implies self@[key] == target[key] by {
                        lemma_position_push(before, label, key);
                        lemma_position_from(before, key, 0);
                    }
                    assert(self@.dom() =~= target.dom());
                    assert(self@ =~= target);
                }
                None
            },
        }
    }

    /// Takes the last entry out of the table.
    pub fn pop(&mut self) -> (entry: Option<Entry<T>>)
        ensures
            old(self).entries@.len() == 0 ==> entry is None && final(self).entries@
                == old(self).entries@,
            old(self).entries@.len() > 0 ==> entry == Some(old(self).entries@.last())
                && final(self).entries@ == old(self).entries@.drop_last(),
            old(self).distinct() ==> final(self).distinct(),
    {
        let entry = self.entries.pop();
        proof {
            if old(self).distinct() {
                assert(self.names() =~= old(self).names().subrange(
                    0,
                    self.entries@.len() as int,
                ));
            }
        }
        entry
    }
}

} // verus!
