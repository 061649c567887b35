use vstd::prelude::*;

use crate::engine::{submit_effect, Engine};

verus! {

/// The log is immutable under appends: after an append the line count grows
/// by exactly one, every line already stored reads back unchanged at its old
/// index, and the new line stands at the end. With `Engine::append_line`'s
/// contract this holds of every sequence of appends.
pub proof fn lemma_append_immutable(lines: Seq<Seq<char>>, line: Seq<char>)
    ensures
        lines.push(line).len() == lines.len() + 1,
        forall|i: int| 0 <= i < lines.len() ==> lines.push(line)[i] == lines[i],
        lines.push(line)[lines.len() as int] == line,
{
}

/// Versions are strictly increasing, by exactly one per query edit: across
/// any two consecutive edits each bump adds one, so the versions of a
/// sequence of edits are strictly increasing.
pub proof fn lemma_versions_strictly_increase(
    e0: Engine,
    e1: Engine,
    e2: Engine,
    t1: Seq<char>,
    t2: Seq<char>,
)
    requires
        submit_effect(e0, e1, t1),
        submit_effect(e1, e2, t2),
    ensures
        e1.version() == e0.version() + 1,
        e2.version() == e1.version() + 1,
        e0.version() < e1.version() < e2.version(),
{
}

/// No stale matches: in a well-formed engine every match in the merged list
/// carries the current criteria version. A version bump clears the list in
/// the same step, and the merge step discards every batch whose version is
/// not current, so a match from an older pattern can never be observed once
/// the bump that superseded it has taken effect.
pub proof fn lemma_no_stale_matches(e: Engine)
    requires
        e.wf(),
    ensures
        forall|i: int|
            0 <= i < e.matches_view().len() ==> (#[trigger] e.matches_view()[i]).version
                == e.version(),
{
    if e.matches_view().len() > 0 {
        assert(e.sorter_ver() == e.version());
    }
}

} // verus!
