//! Looking a name up in an ordered list of names: the first match wins.
use vstd::prelude::*;

verus! {

/// The first position at or after `from` at which `names` holds `name`.
pub open spec fn position_from(names: Seq<Seq<char>>, name: Seq<char>, from: int) -> Option<int>
    decreases names.len() - from,
{
    if from < 0 || from >= names.len() {
        None
    } else if names[from] == name {
        Some(from)
    } else {
        position_from(names, name, from + 1)
    }
}

/// The first position at which `names` holds `name`.
pub open spec fn first_position(names: Seq<Seq<char>>, name: Seq<char>) -> Option<int> {
    position_from(names, name, 0)
}

/// Whether `at` is the first position at or after `from` that holds `name`,
/// or, for `None`, whether no position from `from` on holds it.
pub open spec fn is_position_from(
    names: Seq<Seq<char>>,
    name: Seq<char>,
    from: int,
    at: Option<int>,
) -> bool {
    match at {
        Some(i) => from <= i < names.len() && names[i] == name && forall|j: int|
            from <= j < i ==> names[j] != name,
        None => forall|j: int| from <= j < names.len() ==> names[j] != name,
    }
}

/// `position_from` finds the first match, and finds nothing only where
/// there is no match.
pub proof fn lemma_position_from(names: Seq<Seq<char>>, name: Seq<char>, from: int)
    requires
        0 <= from,
    ensures
        is_position_from(names, name, from, position_from(names, name, from)),
    decreases names.len() - from,
{
    if from < names.len() && names[from] != name {
        lemma_position_from(names, name, from + 1);
    }
}

/// What is the first match is what `position_from` finds.
pub proof fn lemma_position_unique(
    names: Seq<Seq<char>>,
    name: Seq<char>,
    from: int,
    at: Option<int>,
)
    requires
        0 <= from,
        is_position_from(names, name, from, at),
    ensures
        position_from(names, name, from) == at,
{
    lemma_position_from(names, name, from);
    let found = position_from(names, name, from);
    if let Some(i) = found {
        if let Some(k) = at {
            assert(i == k) by {
                if i < k {
                    assert(names[i] != name);
                } else if k < i {
                    assert(names[k] != name);
                }
            }
        } else {
            assert(names[i] != name);
        }
    } else {
        if let Some(k) = at {
            assert(names[k] != name);
        }
    }
}

/// Appending a name changes no lookup that already had a match, and gives
/// the new last position to the appended name where it had none.
pub proof fn lemma_position_push(names: Seq<Seq<char>>, added: Seq<char>, name: Seq<char>)
    ensures
        first_position(names.push(added), name) == if first_position(names, name) is Some {
            first_position(names, name)
        } else if added == name {
            Some(names.len() as int)
        } else {
            None
        },
{
    lemma_position_from(names, name, 0);
    let expected = if first_position(names, name) is Some {
        first_position(names, name)
    } else if added == name {
        Some(names.len() as int)
    } else {
        None
    };
    let longer = names.push(added);
    assert(forall|j: int| 0 <= j < names.len() ==> longer[j] == names[j]);
    assert(is_position_from(longer, name, 0, expected));
    lemma_position_unique(longer, name, 0, expected);
}

/// Whether no name occurs twice in `names`.
pub open spec fn names_distinct(names: Seq<Seq<char>>) -> bool {
    forall|i: int, j: int| 0 <= i < j < names.len() ==> names[i] != names[j]
}

/// Among distinct names, each name is found at its own position.
pub proof fn lemma_distinct_position(names: Seq<Seq<char>>, at: int)
    requires
        names_distinct(names),
        0 <= at < names.len(),
    ensures
        first_position(names, names[at]) == Some(at),
{
    lemma_position_unique(names, names[at], 0, Some(at));
}

/// Distinct names with one more name that none of them is are distinct.
pub proof fn lemma_distinct_push(names: Seq<Seq<char>>, added: Seq<char>)
    requires
        names_distinct(names),
        first_position(names, added) is None,
    ensures
        names_distinct(names.push(added)),
{
    lemma_position_from(names, added, 0);
}

/// The names of a list of strings.
pub open spec fn names_of(names: Seq<String>) -> Seq<Seq<char>> {
    Seq::new(names.len(), |i: int| names[i]@)
}

/// The first position at which `names` holds `name`.
pub fn first_position_of(names: &Vec<String>, name: &str) -> (at: Option<usize>)
    ensures
        match at {
            Some(i) => first_position(names_of(names@), name@) == Some(i as int) && i
                < names@.len(),
            None => first_position(names_of(names@), name@) is None,
        },
{
    let mut i: usize = 0;
    while i < names.len()
        invariant
            i <= names@.len(),
            forall|j: int| 0 <= j < i ==> names_of(names@)[j] != name@,
        decreases names@.len() - i,
    {
        if name.eq(names[i].as_str()) {
            proof {
                lemma_position_unique(names_of(names@), name@, 0, Some(i as int));
            }
            return Some(i);
        }
        i = i + 1;
    }
    proof {
        lemma_position_unique(names_of(names@), name@, 0, None);
    }
    None
}

} // verus!
