//! Lists of names kept in the order of a dictionary, each name once.

use crate::context::{assoc, lemma_name_pos, lemma_own_pos, name_pos, no_dups};
use crate::text::{
    lemma_precedes_irreflexive, lemma_precedes_total, lemma_precedes_transitive, precedes,
    str_eq, str_less, views,
};
use vstd::prelude::*;

verus! {

/// Every name comes before the names after it.
pub open spec fn rising(names: Seq<Seq<char>>) -> bool {
    forall|i: int, j: int| 0 <= i < j < names.len() ==> precedes(names[i], names[j])
}

/// A rising list holds no name twice.
pub proof fn lemma_rising_no_dups(names: Seq<Seq<char>>)
    requires
        rising(names),
    ensures
        no_dups(names),
{
    assert forall|i: int, j: int| 0 <= i < j < names.len() implies names[i] != names[j] by {
        assert(precedes(names[i], names[j]));
        lemma_precedes_irreflexive(names[i], 0);
    }
}

/// The place of `name` in a rising list: the number of names that come
/// before it.
pub open spec fn slot_of(names: Seq<Seq<char>>, name: Seq<char>, from: int) -> int
    decreases names.len() - from,
{
    if from < 0 || from >= names.len() || !precedes(names[from], name) {
        from
    } else {
        slot_of(names, name, from + 1)
    }
}

/// What stands at the place of a name, and before and after it.
pub proof fn lemma_slot_of(names: Seq<Seq<char>>, name: Seq<char>, from: int)
    requires
        rising(names),
        0 <= from <= names.len(),
        forall|i: int| 0 <= i < from ==> precedes(names[i], name),
    ensures
        from <= slot_of(names, name, from) <= names.len(),
        forall|i: int| 0 <= i < slot_of(names, name, from) ==> precedes(names[i], name),
        forall|i: int|
            slot_of(names, name, from) <= i < names.len() && names[i] != name ==> precedes(
                name,
                names[i],
            ),
        forall|i: int| 0 <= i < names.len() && i != slot_of(names, name, from) ==> names[i] != name,
    decreases names.len() - from,
{
    let p = slot_of(names, name, from);
    if from < names.len() && precedes(names[from], name) {
        lemma_slot_of(names, name, from + 1);
    } else {
        assert(p == from);
        assert forall|i: int| p <= i < names.len() && names[i] != name implies precedes(
            name,
            names[i],
        ) by {
            if i == p {
                if !precedes(name, names[i]) {
                    lemma_precedes_total(names[i], name, 0);
                }
            } else {
                assert(precedes(names[p], names[i]));
                if !precedes(name, names[p]) {
                    lemma_precedes_total(names[p], name, 0);
                } else {
                    lemma_precedes_transitive(name, names[p], names[i], 0);
                }
            }
        }
        assert forall|i: int| 0 <= i < names.len() && i != p implies names[i] != name by {
            if i < p {
                lemma_precedes_irreflexive(name, 0);
            } else if names[i] == name {
                assert(precedes(names[p], names[i]));
            }
        }
    }
}

/// The list stays rising when a name that it does not hold goes in at its
/// place.
pub proof fn lemma_rising_insert(names: Seq<Seq<char>>, name: Seq<char>)
    requires
        rising(names),
        slot_of(names, name, 0) >= names.len() || names[slot_of(names, name, 0)] != name,
    ensures
        rising(names.insert(slot_of(names, name, 0), name)),
        name_pos(names, name, 0) >= names.len(),
{
    let p = slot_of(names, name, 0);
    lemma_slot_of(names, name, 0);
    lemma_name_pos(names, name, 0);
    let after = names.insert(p, name);
    assert forall|i: int, j: int| 0 <= i < j < after.len() implies precedes(after[i], after[j]) by {
        if j < p {
        } else if j == p {
        } else if i == p {
            assert(after[j] == names[j - 1]);
        } else if i < p {
            assert(after[j] == names[j - 1]);
        } else {
            assert(after[i] == names[i - 1]);
            assert(after[j] == names[j - 1]);
        }
    }
}

/// What `lemma_assoc_insert` says, of one name.
proof fn lemma_assoc_insert_key<V>(
    names: Seq<Seq<char>>,
    vals: Seq<V>,
    p: int,
    x: Seq<char>,
    v: V,
    n: Seq<char>,
)
    requires
        names.len() == vals.len(),
        0 <= p <= names.len(),
        no_dups(names),
        no_dups(names.insert(p, x)),
    ensures
        assoc(names.insert(p, x), vals.insert(p, v)).contains_key(n) == assoc(names, vals).insert(
            x,
            v,
        ).contains_key(n),
        assoc(names.insert(p, x), vals.insert(p, v)).contains_key(n) ==> assoc(
            names.insert(p, x),
            vals.insert(p, v),
        )[n] == assoc(names, vals).insert(x, v)[n],
{
    let ns = names.insert(p, x);
    let vs = vals.insert(p, v);
    lemma_own_pos(ns, p);
    lemma_name_pos(ns, n, 0);
    lemma_name_pos(names, n, 0);
    let q = name_pos(names, n, 0);
    let r = name_pos(ns, n, 0);
    if n != x {
        if q < names.len() {
            let k = if q < p {
                q
            } else {
                q + 1
            };
            assert(ns[k] == n);
            lemma_own_pos(ns, k);
            assert(vs[k] == vals[q]);
        } else if r < ns.len() {
            if r < p {
                assert(names[r] == n);
            } else {
                assert(names[r - 1] == n);
            }
        }
    }
}

/// Putting a name that is not there yet into a list, with its value, inserts
/// it into the map that the list stands for.
pub proof fn lemma_assoc_insert<V>(
    names: Seq<Seq<char>>,
    vals: Seq<V>,
    p: int,
    x: Seq<char>,
    v: V,
)
    requires
        names.len() == vals.len(),
        0 <= p <= names.len(),
        no_dups(names),
        no_dups(names.insert(p, x)),
    ensures
        assoc(names.insert(p, x), vals.insert(p, v)) == assoc(names, vals).insert(x, v),
{
    let a = assoc(names.insert(p, x), vals.insert(p, v));
    let b = assoc(names, vals).insert(x, v);
    assert forall|n: Seq<char>| #[trigger] a.contains_key(n) == b.contains_key(n) by {
        lemma_assoc_insert_key(names, vals, p, x, v, n);
    }
    assert forall|n: Seq<char>| a.contains_key(n) implies a[n] == b[n] by {
        lemma_assoc_insert_key(names, vals, p, x, v, n);
    }
    assert(a =~= b);
}

/// The place of `name` in a rising list, and whether the list holds the name
/// there.
pub fn slot(names: &Vec<String>, name: &str) -> (r: (usize, bool))
    requires
        rising(views(names@)),
    ensures
        r.0 == slot_of(views(names@), name@, 0),
        r.0 <= names@.len(),
        r.1 == (r.0 < names@.len() && names@[r.0 as int]@ == name@),
        r.1 == (name_pos(views(names@), name@, 0) < names@.len()),
        r.1 ==> name_pos(views(names@), name@, 0) == r.0,
{
    let mut i: usize = 0;
    proof {
        lemma_slot_of(views(names@), name@, 0);
        lemma_name_pos(views(names@), name@, 0);
    }
    while i < names.len() && str_less(names[i].as_str(), name)
        invariant
            i <= names@.len(),
            slot_of(views(names@), name@, i as int) == slot_of(views(names@), name@, 0),
        decreases names@.len() - i,
    {
        i += 1;
    }
    let found = i < names.len() && str_eq(names[i].as_str(), name);
    proof {
        let ns = views(names@);
        if found {
            lemma_rising_no_dups(ns);
            lemma_own_pos(ns, i as int);
        }
    }
    (i, found)
}

/// Puts a name at its place in a rising list, unless the list holds it.
pub fn place_name(names: &mut Vec<String>, name: &str)
    requires
        rising(views(old(names)@)),
    ensures
        rising(views(final(names)@)),
        forall|n: Seq<char>| #[trigger]
            views(final(names)@).contains(n) <==> (views(old(names)@).contains(n) || n == name@),
{
    let (p, found) = slot(names, name);
    if !found {
        proof {
            lemma_rising_insert(views(names@), name@);
        }
        names.insert(p, name.to_owned());
        proof {
            let before = views(old(names)@);
            let after = views(names@);
            assert(after =~= before.insert(p as int, name@));
            assert forall|n: Seq<char>| after.contains(n) <==> (before.contains(n) || n
                == name@) by {
                if before.contains(n) {
                    let k = choose|k: int| 0 <= k < before.len() && before[k] == n;
                    if k < p {
                        assert(after[k] == n);
                    } else {
                        assert(after[k + 1] == n);
                    }
                }
                if n == name@ {
                    assert(after[p as int] == n);
                }
                if after.contains(n) {
                    let k = choose|k: int| 0 <= k < after.len() && after[k] == n;
                    if k < p {
                        assert(before[k] == n);
                    } else if k > p {
                        assert(before[k - 1] == n);
                    }
                }
            }
        }
    } else {
        proof {
            let before = views(old(names)@);
            assert(before[p as int] == name@);
        }
    }
}

} // verus!
