//! First-match association lists keyed by name.
//!
//! The front end's small tables — scopes, symbol tables — are
//! name-keyed lists searched front to back; the first entry with the
//! key wins.

use vstd::prelude::*;

use crate::text::str_eq;

verus! {

/// The value of the first entry carrying `name`, if any.
pub open spec fn assoc_get<V>(entries: Seq<(String, V)>, name: Seq<char>) -> Option<V>
    decreases entries.len(),
{
    if entries.len() == 0 {
        None
    } else if entries[0].0@ == name {
        Some(entries[0].1)
    } else {
        assoc_get(entries.skip(1), name)
    }
}

/// If no entry among the first `i` carries the name, the search result
/// is decided by the rest.
pub proof fn lemma_assoc_get_skip<V>(entries: Seq<(String, V)>, name: Seq<char>, i: int)
    requires
        0 <= i <= entries.len(),
        forall|j: int| 0 <= j < i ==> (#[trigger] entries[j]).0@ != name,
    ensures
        assoc_get(entries, name) == assoc_get(entries.skip(i), name),
    decreases i,
{
    if i > 0 {
        assert(entries.len() > 0);
        assert(entries[0].0@ != name);
        assert forall|j: int| 0 <= j < i - 1 implies (#[trigger] entries.skip(1)[j]).0@ != name by {
            assert(entries[j + 1].0@ != name);
        }
        lemma_assoc_get_skip(entries.skip(1), name, i - 1);
        assert(entries.skip(1).skip(i - 1) =~= entries.skip(i));
    } else {
        assert(entries.skip(0) =~= entries);
    }
}

/// Appending an entry changes only searches for its own name, and only
/// when that name was absent.
pub proof fn lemma_assoc_get_push<V>(entries: Seq<(String, V)>, name: Seq<char>, e: (String, V))
    ensures
        e.0@ == name && assoc_get(entries, name) is None ==> assoc_get(entries.push(e), name)
            == Some(e.1),
        e.0@ != name ==> assoc_get(entries.push(e), name) == assoc_get(entries, name),
        assoc_get(entries, name) is Some ==> assoc_get(entries.push(e), name) == assoc_get(
            entries,
            name,
        ),
    decreases entries.len(),
{
    if entries.len() == 0 {
        assert(entries.push(e)[0] == e);
        assert(entries.push(e).skip(1) =~= Seq::<(String, V)>::empty());
        assert(assoc_get(Seq::<(String, V)>::empty(), name) is None);
    } else {
        lemma_assoc_get_push(entries.skip(1), name, e);
        assert(entries.push(e)[0] == entries[0]);
        assert(entries.push(e).skip(1) =~= entries.skip(1).push(e));
        assert(entries.push(e).len() > 0);
        if entries[0].0@ == name {
            assert(assoc_get(entries.push(e), name) == Some(entries[0].1));
        } else {
            assert(assoc_get(entries.push(e), name) == assoc_get(entries.skip(1).push(e), name));
            assert(assoc_get(entries, name) == assoc_get(entries.skip(1), name));
        }
    }
}

/// Replacing the first entry that carries a name keeps every other
/// search result and redirects that name to the new value.
pub proof fn lemma_assoc_get_update<V>(
    entries: Seq<(String, V)>,
    name: Seq<char>,
    i: int,
    e: (String, V),
)
    requires
        0 <= i < entries.len(),
        entries[i].0@ == name,
        e.0@ == name,
        forall|j: int| 0 <= j < i ==> (#[trigger] entries[j]).0@ != name,
    ensures
        assoc_get(entries.update(i, e), name) == Some(e.1),
        forall|n: Seq<char>|
            n != name ==> #[trigger] assoc_get(entries.update(i, e), n) == assoc_get(entries, n),
    decreases i,
{
    if i == 0 {
        assert(entries.update(0, e)[0] == e);
        assert forall|n: Seq<char>|
            n != name implies #[trigger] assoc_get(entries.update(0, e), n) == assoc_get(
            entries,
            n,
        ) by {
            assert(entries.update(0, e).skip(1) =~= entries.skip(1));
        }
    } else {
        assert forall|j: int| 0 <= j < i - 1 implies (#[trigger] entries.skip(1)[j]).0@ != name by {
            assert(entries[j + 1].0@ != name);
        }
        lemma_assoc_get_update(entries.skip(1), name, i - 1, e);
        assert(entries.update(i, e)[0] == entries[0]);
        assert(entries.update(i, e).skip(1) =~= entries.skip(1).update(i - 1, e));
        assert forall|n: Seq<char>|
            n != name implies #[trigger] assoc_get(entries.update(i, e), n) == assoc_get(
            entries,
            n,
        ) by {
            assert(assoc_get(entries.skip(1).update(i - 1, e), n) == assoc_get(entries.skip(1), n));
        }
    }
}

/// A fruitless search means no entry at all carries the name.
pub proof fn lemma_assoc_get_none<V>(entries: Seq<(String, V)>, name: Seq<char>)
    requires
        assoc_get(entries, name) is None,
    ensures
        forall|j: int| 0 <= j < entries.len() ==> (#[trigger] entries[j]).0@ != name,
    decreases entries.len(),
{
    if entries.len() > 0 {
        lemma_assoc_get_none(entries.skip(1), name);
        assert forall|j: int| 0 <= j < entries.len() implies (#[trigger] entries[j]).0@ != name by {
            if j > 0 {
                assert(entries.skip(1)[j - 1].0@ != name);
            }
        }
    }
}

/// Find the index of the first entry carrying `name`.
pub fn assoc_find<V>(entries: &Vec<(String, V)>, name: &str) -> (r: Option<usize>)
    ensures
        r matches Some(i) ==> i < entries@.len() && entries@[i as int].0@ == name@ && assoc_get(
            entries@,
            name@,
        ) == Some(entries@[i as int].1) && (forall|j: int|
            0 <= j < i ==> (#[trigger] entries@[j]).0@ != name@),
        r is None ==> assoc_get(entries@, name@) is None,
{
    let n = entries.len();
    let mut i: usize = 0;
    while i < n
        invariant
            i <= n,
            n == entries@.len(),
            forall|j: int| 0 <= j < i ==> (#[trigger] entries@[j]).0@ != name@,
        decreases n - i,
    {
        if str_eq(entries[i].0.as_str(), name) {
            proof {
                lemma_assoc_get_skip(entries@, name@, i as int);
                assert(entries@.skip(i as int)[0] == entries@[i as int]);
            }
            return Some(i);
        }
        i = i + 1;
    }
    proof {
        lemma_assoc_get_skip(entries@, name@, n as int);
        assert(entries@.skip(n as int) =~= Seq::<(String, V)>::empty());
    }
    None
}

} // verus!
