//! Completion of the name of a command: of the file names found on the search
//! path, those that the typed text starts, in the order of a dictionary.

use crate::text::{chars_of, lemma_precedes_transitive, precedes, str_less, views};
use vstd::prelude::*;

verus! {

/// Tells whether `name` starts with `line`.
pub open spec fn starts(name: Seq<char>, line: Seq<char>) -> bool {
    line.len() <= name.len() && name.subrange(0, line.len() as int) == line
}

/// Tells whether `name` starts with `line`.
pub fn starts_with(name: &str, line: &str) -> (r: bool)
    ensures
        r == starts(name@, line@),
{
    let x = chars_of(name);
    let y = chars_of(line);
    if y.len() > x.len() {
        return false;
    }
    let mut i: usize = 0;
    while i < y.len()
        invariant
            i <= y.len() <= x.len(),
            x@ == name@,
            y@ == line@,
            forall|k: int| 0 <= k < i ==> x@[k] == y@[k],
        decreases y.len() - i,
    {
        if x[i] != y[i] {
            assert(name@.subrange(0, line@.len() as int)[i as int] != line@[i as int]);
            return false;
        }
        i += 1;
    }
    assert(name@.subrange(0, line@.len() as int) =~= line@);
    true
}

/// Those of the names `entries[..upto]` that start with `line`, in their
/// order.
pub open spec fn matching(entries: Seq<Seq<char>>, line: Seq<char>, upto: int) -> Seq<Seq<char>>
    decreases upto,
{
    if upto <= 0 {
        Seq::empty()
    } else if starts(entries[upto - 1], line) {
        matching(entries, line, upto - 1).push(entries[upto - 1])
    } else {
        matching(entries, line, upto - 1)
    }
}

/// The candidates for a command that starts with `line`: those of the file
/// names `entries`, found in the directories of the search path, that start
/// with it, in their order.
pub fn command_complete(line: &str, entries: &Vec<String>) -> (r: Vec<String>)
    ensures
        views(r@) == matching(views(entries@), line@, entries@.len() as int),
{
    let mut found: Vec<String> = Vec::new();
    let mut i: usize = 0;
    assert(views(found@) =~= matching(views(entries@), line@, 0));
    while i < entries.len()
        invariant
            i <= entries@.len(),
            views(found@) == matching(views(entries@), line@, i as int),
        decreases entries@.len() - i,
    {
        if starts_with(entries[i].as_str(), line) {
            let ghost before = views(found@);
            found.push(entries[i].clone());
            assert(views(found@) =~= before.push(entries@[i as int]@));
        }
        i += 1;
    }
    found
}

/// No name comes before a name that stands before it.
pub open spec fn ordered(names: Seq<Seq<char>>) -> bool {
    forall|i: int, j: int| 0 <= i < j < names.len() ==> !precedes(names[j], names[i])
}

/// Puts a name into an ordered list, behind the names that do not come after
/// it.
fn insert_ordered(list: &mut Vec<String>, name: String)
    requires
        ordered(views(old(list)@)),
    ensures
        ordered(views(final(list)@)),
        views(final(list)@).to_multiset() == views(old(list)@).to_multiset().insert(name@),
{
    let mut p: usize = 0;
    while p < list.len() && !str_less(name.as_str(), list[p].as_str())
        invariant
            p <= list@.len(),
            list@ == old(list)@,
            forall|i: int| 0 <= i < p ==> !precedes(name@, #[trigger] views(list@)[i]),
        decreases list@.len() - p,
    {
        p += 1;
    }
    let ghost before = views(list@);
    let ghost text = name@;
    list.insert(p, name);
    proof {
        let after = views(list@);
        assert(after =~= before.insert(p as int, text));
        assert forall|i: int, j: int| 0 <= i < j < after.len() implies !precedes(
            after[j],
            after[i],
        ) by {
            if j < p {
                assert(after[i] == before[i] && after[j] == before[j]);
            } else if j == p {
                assert(after[i] == before[i]);
            } else if i == p {
                assert(after[j] == before[j - 1]);
                assert(precedes(text, before[p as int]));
                if j - 1 > p {
                    assert(!precedes(before[j - 1], before[p as int]));
                    if precedes(before[j - 1], text) {
                        lemma_precedes_transitive(before[j - 1], text, before[p as int], 0);
                    }
                } else {
                    if precedes(before[p as int], text) {
                        lemma_precedes_transitive(text, before[p as int], text, 0);
                        crate::text::lemma_precedes_irreflexive(text, 0);
                    }
                }
            } else if i < p {
                assert(after[i] == before[i] && after[j] == before[j - 1]);
            } else {
                assert(after[i] == before[i - 1] && after[j] == before[j - 1]);
            }
        }
        broadcast use vstd::seq_lib::group_to_multiset_ensures;

        assert(after.remove(p as int) =~= before);
        assert(after.remove(p as int).to_multiset() == after.to_multiset().remove(after[p as int]));
        assert(after.contains(text)) by {
            assert(after[p as int] == text);
        }
        assert(after.to_multiset() =~= before.to_multiset().insert(text));
    }
}

/// The names in the order of a dictionary.
pub fn sort_names(names: &Vec<String>) -> (r: Vec<String>)
    ensures
        ordered(views(r@)),
        views(r@).to_multiset() == views(names@).to_multiset(),
{
    let mut out: Vec<String> = Vec::new();
    let mut i: usize = 0;
    assert(views(out@) =~= views(names@).take(0));
    while i < names.len()
        invariant
            i <= names@.len(),
            ordered(views(out@)),
            views(out@).to_multiset() == views(names@).take(i as int).to_multiset(),
        decreases names@.len() - i,
    {
        proof {
            broadcast use vstd::seq_lib::group_to_multiset_ensures;

            assert(views(names@).take(i + 1) =~= views(names@).take(i as int).push(
                names@[i as int]@,
            ));
        }
        insert_ordered(&mut out, names[i].clone());
        i += 1;
    }
    assert(views(names@).take(names@.len() as int) =~= views(names@));
    out
}

/// Completes the names of commands.
pub struct PathCompleter;

impl PathCompleter {
    /// A completer.
    pub fn new() -> (r: PathCompleter) {
        PathCompleter
    }

    /// The place in the line from which a candidate replaces the text, which
    /// is the start, and the candidates for `line` among `entries`, in the
    /// order of a dictionary.
    pub fn complete_cmd(&self, line: &str, pos: usize, entries: &Vec<String>) -> (r: (
        usize,
        Vec<String>,
    ))
        ensures
            r.0 == 0,
            ordered(views(r.1@)),
            views(r.1@).to_multiset() == matching(
                views(entries@),
                line@,
                entries@.len() as int,
            ).to_multiset(),
    {
        let (start, found) = self.complete_cmd_unsorted(line, pos, entries);
        (start, sort_names(&found))
    }

    /// The place in the line from which a candidate replaces the text, which
    /// is the start, and the candidates for `line` among `entries`, in their
    /// order.
    pub fn complete_cmd_unsorted(&self, line: &str, pos: usize, entries: &Vec<String>) -> (r: (
        usize,
        Vec<String>,
    ))
        ensures
            r.0 == 0,
            views(r.1@) == matching(views(entries@), line@, entries@.len() as int),
    {
        (0, command_complete(line, entries))
    }
}

} // verus!
