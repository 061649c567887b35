use vstd::prelude::*;

use crate::engine::Engine;
use crate::types::ScanJob;

verus! {

/// The sentinel line appended when the input stream ends.
pub open spec fn eof_sentinel() -> Seq<char> {
    " ** EOF REACHED ** "@
}

/// The sentinel line as a string.
pub fn eof_sentinel_line() -> (s: String)
    ensures
        s@ == eof_sentinel(),
{
    " ** EOF REACHED ** ".to_owned()
}

/// What one read from the input produced, as the ingestion step sees it.
pub enum ReadEvent {
    /// A complete line was read.
    Line(String),
    /// The input closed; no interactive input counts as an immediate close.
    Eof,
    /// A transient empty read that is not end of input.
    Transient,
    /// A hard read error.
    Failed,
}

/// What the ingestion loop should do after one step.
#[derive(Clone, Copy, PartialEq, Eq, Structural, Debug)]
pub enum IngestAction {
    Proceed,
    Retry,
    Halt,
}

/// One step of the ingestion loop's decisions: a read line is appended
/// together with its one-line scan job; end of input appends the sentinel
/// line the same way and stops ingestion; a transient empty read is retried;
/// a hard read error stops ingestion and changes nothing, so the rest of the
/// system keeps operating on what was already ingested.
pub fn ingest_step(app: &mut Engine, ev: ReadEvent) -> (act: IngestAction)
    requires
        old(app).wf(),
    ensures
        final(app).wf(),
        final(app).pattern_model() == old(app).pattern_model(),
        final(app).version() == old(app).version(),
        final(app).matches_view() == old(app).matches_view(),
        final(app).sorter_ver() == old(app).sorter_ver(),
        final(app).quitting() == old(app).quitting(),
        match ev {
            ReadEvent::Line(s) => ({
                &&& final(app).lines() == old(app).lines().push(s@)
                &&& final(app).jobs_view() == old(app).jobs_view().push(
                    ScanJob {
                        start: old(app).lines().len() as usize,
                        end: (old(app).lines().len() + 1) as usize,
                    },
                )
                &&& act is Proceed
            }),
            ReadEvent::Eof => ({
                &&& final(app).lines() == old(app).lines().push(eof_sentinel())
                &&& final(app).jobs_view() == old(app).jobs_view().push(
                    ScanJob {
                        start: old(app).lines().len() as usize,
                        end: (old(app).lines().len() + 1) as usize,
                    },
                )
                &&& act is Halt
            }),
            ReadEvent::Transient => final(app).lines() == old(app).lines()
                && final(app).jobs_view() == old(app).jobs_view() && act is Retry,
            ReadEvent::Failed => final(app).lines() == old(app).lines() && final(app).jobs_view()
                == old(app).jobs_view() && act is Halt,
        },
{
    match ev {
        ReadEvent::Line(s) => {
            let _ = app.push_line(s);
            IngestAction::Proceed
        },
        ReadEvent::Eof => {
            let _ = app.push_line(eof_sentinel_line());
            IngestAction::Halt
        },
        ReadEvent::Transient => IngestAction::Retry,
        ReadEvent::Failed => IngestAction::Halt,
    }
}

} // verus!
