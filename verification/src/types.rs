use vstd::prelude::*;

verus! {

/// A match found by a scan: the index of a log line together with the search
/// version whose pattern produced it.
#[derive(Clone, Copy, PartialEq, Eq, Structural, Debug)]
pub struct Match {
    pub lineno: usize,
    pub version: u64,
}

/// A half-open range `[start, end)` of log line indices to be scanned as one
/// job.
#[derive(Clone, Copy, PartialEq, Eq, Structural, Debug)]
pub struct ScanJob {
    pub start: usize,
    pub end: usize,
}

/// The match list is kept strictly ascending by line number, which makes it
/// both sorted and free of duplicates.
pub open spec fn matches_sorted(s: Seq<Match>) -> bool {
    forall|i: int, j: int| 0 <= i < j < s.len() ==> s[i].lineno < s[j].lineno
}

/// Every match in the sequence carries version `v`; a worker stamps a whole
/// batch with the single version it snapshotted.
pub open spec fn batch_version_uniform(s: Seq<Match>, v: u64) -> bool {
    forall|i: int| 0 <= i < s.len() ==> s[i].version == v
}

/// Whether some match in `s` covers line `l`.
pub open spec fn has_lineno(s: Seq<Match>, l: usize) -> bool {
    exists|i: int| 0 <= i < s.len() && s[i].lineno == l
}

/// A strictly sorted match list has no two entries for the same line.
pub proof fn lemma_sorted_no_duplicates(s: Seq<Match>)
    requires
        matches_sorted(s),
    ensures
        forall|i: int, j: int|
            0 <= i < s.len() && 0 <= j < s.len() && i != j ==> s[i].lineno != s[j].lineno,
{
}

/// A cursor position in the two view panes.
#[derive(Clone, Copy, PartialEq, Eq, Structural, Debug)]
pub struct Point {
    pub x: usize,
    pub y: usize,
}

impl Default for Point {
    fn default() -> (p: Point)
        ensures
            p.x == 0 && p.y == 0,
    {
        Point { x: 0, y: 0 }
    }
}

/// Which pane of the interface currently has focus.
#[derive(Clone, Copy, PartialEq, Eq, Structural, Debug)]
pub enum Panel {
    Search,
    Matches,
}

/// View state owned by the interface thread; never shared across threads.
pub struct UIState {
    pub log_offset: Point,
    pub log_max_width: usize,
    pub selected_panel: Panel,
    pub matches_selected: Option<usize>,
    pub matches_should_locate: bool,
    pub matches_offset: Point,
    pub search_query: String,
    pub following: bool,
}

impl Default for UIState {
    fn default() -> (ui: UIState)
        ensures
            ui.log_offset == (Point { x: 0, y: 0 }),
            ui.log_max_width == 0,
            ui.selected_panel is Search,
            ui.matches_selected is None,
            !ui.matches_should_locate,
            ui.matches_offset == (Point { x: 0, y: 0 }),
            ui.search_query@ == Seq::<char>::empty(),
            ui.following,
    {
        UIState {
            log_offset: Point { x: 0, y: 0 },
            log_max_width: 0,
            selected_panel: Panel::Search,
            matches_selected: None,
            matches_should_locate: false,
            matches_offset: Point { x: 0, y: 0 },
            search_query: String::new(),
            following: true,
        }
    }
}

} // verus!
