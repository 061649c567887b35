use vstd::prelude::*;
use vstd::string::StrSliceExecFns;

use crate::logbuf::LogBuf;
use crate::search::{regex_compiles, regex_match, Pattern, SearchCriteria};
use crate::sorter::{
    find_slot, lemma_insert_at_slot, lemma_insert_match_props, lemma_merge_seq_snoc, merge_seq,
};
use crate::types::{batch_version_uniform, has_lineno, matches_sorted, Match, ScanJob};
use crate::{CHUNK_LINES, MIN_QUERY_LEN};

verus! {

/// The half-open range `[start, end)` cut into jobs of at most `CHUNK_LINES`
/// lines each, in ascending order.
pub open spec fn chunk_jobs(start: int, end: int) -> Seq<ScanJob>
    decreases end - start,
{
    if start >= end {
        Seq::empty()
    } else if end - start <= CHUNK_LINES as int {
        seq![ScanJob { start: start as usize, end: end as usize }]
    } else {
        seq![ScanJob { start: start as usize, end: (start + CHUNK_LINES) as usize }]
            + chunk_jobs(start + CHUNK_LINES as int, end)
    }
}

/// Every queued job is a non-empty range of lines that already exist.
pub open spec fn jobs_wf(jobs: Seq<ScanJob>, line_count: nat) -> bool {
    forall|i: int| 0 <= i < jobs.len() ==> (#[trigger] jobs[i]).start < jobs[i].end <= line_count
}

/// Every job cut from `[start, end)` is a non-empty subrange of it.
pub proof fn lemma_chunk_jobs_in_range(start: int, end: int)
    requires
        0 <= start,
        end <= usize::MAX as int,
    ensures
        forall|i: int|
            0 <= i < chunk_jobs(start, end).len() ==> start
                <= (#[trigger] chunk_jobs(start, end)[i]).start
                && chunk_jobs(start, end)[i].start < chunk_jobs(start, end)[i].end
                && chunk_jobs(start, end)[i].end <= end,
    decreases end - start,
{
    if start >= end {
    } else if end - start <= CHUNK_LINES as int {
    } else {
        lemma_chunk_jobs_in_range(start + CHUNK_LINES as int, end);
        let head = seq![ScanJob { start: start as usize, end: (start + CHUNK_LINES) as usize }];
        let rest = chunk_jobs(start + CHUNK_LINES as int, end);
        assert forall|i: int| 0 <= i < chunk_jobs(start, end).len() implies start <= (
        #[trigger] chunk_jobs(start, end)[i]).start && chunk_jobs(start, end)[i].start
            < chunk_jobs(start, end)[i].end && chunk_jobs(start, end)[i].end <= end by {
            if i > 0 {
                assert(chunk_jobs(start, end)[i] == rest[i - 1]);
            }
        }
    }
}

/// The jobs cut from `[start, end)` tile it exactly: when the range is not
/// empty, the first job starts at `start`, the last ends at `end`, and each
/// job ends where the next begins. With `lemma_chunk_jobs_in_range` this says
/// that every line index in the range is covered by exactly one job.
pub proof fn lemma_chunk_jobs_tile(start: int, end: int)
    requires
        0 <= start,
        end <= usize::MAX as int,
    ensures
        start >= end ==> chunk_jobs(start, end).len() == 0,
        start < end ==> chunk_jobs(start, end).len() > 0,
        start < end ==> chunk_jobs(start, end)[0].start == start,
        start < end ==> chunk_jobs(start, end).last().end == end,
        forall|i: int|
            0 <= i < chunk_jobs(start, end).len() - 1 ==> (#[trigger] chunk_jobs(start, end)[i]).end
                == chunk_jobs(start, end)[i + 1].start,
    decreases end - start,
{
    if start >= end {
    } else if end - start <= CHUNK_LINES as int {
    } else {
        lemma_chunk_jobs_tile(start + CHUNK_LINES as int, end);
        let head = seq![ScanJob { start: start as usize, end: (start + CHUNK_LINES) as usize }];
        let rest = chunk_jobs(start + CHUNK_LINES as int, end);
        assert(chunk_jobs(start, end) == head + rest);
        assert((head + rest).last() == rest.last());
        assert forall|i: int| 0 <= i < (head + rest).len() - 1 implies (#[trigger] (head
            + rest)[i]).end == (head + rest)[i + 1].start by {
            if i == 0 {
                assert((head + rest)[1] == rest[0]);
            } else {
                assert((head + rest)[i] == rest[i - 1]);
                assert((head + rest)[i + 1] == rest[i]);
            }
        }
    }
}

/// Every line index in `[start, end)` is covered by at least one of the jobs
/// cut from the range, and by no more than one: the dispatcher never skips a
/// line and never hands the same line to two jobs of one range.
pub proof fn lemma_chunk_jobs_cover(start: int, end: int, l: int)
    requires
        0 <= start <= l < end,
        end <= usize::MAX as int,
    ensures
        exists|i: int|
            0 <= i < chunk_jobs(start, end).len() && (#[trigger] chunk_jobs(start, end)[i]).start
                <= l < chunk_jobs(start, end)[i].end,
        forall|i: int, j: int|
            #![trigger chunk_jobs(start, end)[i], chunk_jobs(start, end)[j]]
            (0 <= i < chunk_jobs(start, end).len() && 0 <= j < chunk_jobs(start, end).len()
                && chunk_jobs(start, end)[i].start <= l < chunk_jobs(start, end)[i].end
                && chunk_jobs(start, end)[j].start <= l < chunk_jobs(start, end)[j].end) ==> i == j,
    decreases end - start,
{
    let jobs = chunk_jobs(start, end);
    if end - start <= CHUNK_LINES as int {
        assert(jobs[0].start <= l < jobs[0].end);
    } else {
        let rest = chunk_jobs(start + CHUNK_LINES as int, end);
        lemma_chunk_jobs_in_range(start + CHUNK_LINES as int, end);
        if l < start + CHUNK_LINES as int {
            assert(jobs[0].start <= l < jobs[0].end);
        } else {
            lemma_chunk_jobs_cover(start + CHUNK_LINES as int, end, l);
            let i = choose|i: int|
                0 <= i < rest.len() && (#[trigger] rest[i]).start <= l < rest[i].end;
            assert(jobs[i + 1] == rest[i]);
            assert(jobs[i + 1].start <= l < jobs[i + 1].end);
        }
        assert forall|i: int, j: int|
            #![trigger jobs[i], jobs[j]]
            (0 <= i < jobs.len() && 0 <= j < jobs.len() && jobs[i].start <= l < jobs[i].end
                && jobs[j].start <= l < jobs[j].end) implies i == j by {
            if i > 0 {
                assert(jobs[i] == rest[i - 1]);
            }
            if j > 0 {
                assert(jobs[j] == rest[j - 1]);
            }
        }
    }
}

/// What one query edit does to the engine: the version grows by exactly one,
/// the match list is cleared, the pattern becomes the compiled query (or
/// `None` when the query is shorter than `MIN_QUERY_LEN` characters or does
/// not compile), and a chunked rescan of the whole log is enqueued. The log,
/// the merge step's observed version and the quit flag stand as they were.
pub open spec fn submit_effect(pre: Engine, post: Engine, text: Seq<char>) -> bool {
    &&& post.version() == pre.version() + 1
    &&& post.matches_view() == Seq::<Match>::empty()
    &&& post.pattern_model() == (if text.len() < MIN_QUERY_LEN {
        Option::<Seq<char>>::None
    } else if regex_compiles(text) {
        Some(text)
    } else {
        Option::<Seq<char>>::None
    })
    &&& post.lines() == pre.lines()
    &&& post.sorter_ver() == pre.sorter_ver()
    &&& post.quitting() == pre.quitting()
    &&& post.jobs_view() == pre.jobs_view() + chunk_jobs(0, pre.lines().len() as int)
}

/// The engine's owned state: the append-only log, the versioned search
/// criteria, the queue of pending scan jobs, the merged match list with the
/// highest version the merge step has observed, and the quit flag.
pub struct Engine {
    log: LogBuf,
    criteria: SearchCriteria,
    jobs: Vec<ScanJob>,
    matches: Vec<Match>,
    sorter_version: u64,
    quit: bool,
}

impl Engine {
    /// The ingested lines, each as its sequence of characters.
    pub closed spec fn lines(self) -> Seq<Seq<char>> {
        self.log.lines_view()
    }

    /// The active pattern as a plain value: its text, or `None` when
    /// filtering is off.
    pub closed spec fn pattern_model(self) -> Option<Seq<char>> {
        self.criteria.pattern_model()
    }

    /// The current search version.
    pub closed spec fn version(self) -> u64 {
        self.criteria.version
    }

    /// The queue of scan jobs not yet picked up by a worker.
    pub closed spec fn jobs_view(self) -> Seq<ScanJob> {
        self.jobs@
    }

    /// The merged match list.
    pub closed spec fn matches_view(self) -> Seq<Match> {
        self.matches@
    }

    /// The highest version the merge step has observed so far.
    pub closed spec fn sorter_ver(self) -> u64 {
        self.sorter_version
    }

    /// Whether a cooperative shutdown was requested.
    pub closed spec fn quitting(self) -> bool {
        self.quit
    }

    /// The log store's own invariant.
    pub closed spec fn log_wf(self) -> bool {
        self.log.wf()
    }

    /// The engine's invariant: the match list is strictly sorted (hence
    /// duplicate-free) and uniformly stamped with the version the merge step
    /// last observed; that version never runs ahead of the criteria version;
    /// after a version bump and before the first merge under it, the match
    /// list is empty; an active pattern always compiled from a query of at
    /// least `MIN_QUERY_LEN` characters; and queued jobs cover only lines
    /// that exist.
    pub open spec fn wf(self) -> bool {
        &&& self.log_wf()
        &&& matches_sorted(self.matches_view())
        &&& batch_version_uniform(self.matches_view(), self.sorter_ver())
        &&& self.sorter_ver() <= self.version()
        &&& (self.sorter_ver() < self.version() ==> self.matches_view().len() == 0)
        &&& (self.pattern_model() is Some ==> regex_compiles(self.pattern_model()->Some_0)
            && self.pattern_model()->Some_0.len() >= MIN_QUERY_LEN)
        &&& jobs_wf(self.jobs_view(), self.lines().len())
    }

    /// A fresh engine: no lines, no filter, version 0, nothing queued.
    pub fn new() -> (e: Engine)
        ensures
            e.wf(),
            e.lines() == Seq::<Seq<char>>::empty(),
            e.pattern_model() is None,
            e.version() == 0,
            e.jobs_view() == Seq::<ScanJob>::empty(),
            e.matches_view() == Seq::<Match>::empty(),
            e.sorter_ver() == 0,
            !e.quitting(),
    {
        let e = Engine {
            log: LogBuf::new(),
            criteria: SearchCriteria { pattern: None, version: 0 },
            jobs: Vec::new(),
            matches: Vec::new(),
            sorter_version: 0,
            quit: false,
        };
        proof {
            assert(e.jobs_view() =~= Seq::<ScanJob>::empty());
            assert(e.matches_view() =~= Seq::<Match>::empty());
        }
        e
    }

    /// How many lines have been ingested. Monotonically non-decreasing.
    pub fn log_len(&self) -> (n: usize)
        ensures
            n == self.lines().len(),
    {
        self.log.len()
    }

    /// Appends one line to the log; every line already stored is unchanged.
    /// The new line's index is returned.
    pub fn append_line(&mut self, line: String) -> (idx: usize)
        requires
            old(self).wf(),
        ensures
            final(self).wf(),
            idx == old(self).lines().len(),
            final(self).lines() == old(self).lines().push(line@),
            final(self).pattern_model() == old(self).pattern_model(),
            final(self).version() == old(self).version(),
            final(self).jobs_view() == old(self).jobs_view(),
            final(self).matches_view() == old(self).matches_view(),
            final(self).sorter_ver() == old(self).sorter_ver(),
            final(self).quitting() == old(self).quitting(),
    {
        let idx = self.log.len();
        self.log.write(line);
        idx
    }

    /// Enqueues scan jobs covering the line range `[start, end)`, cut into
    /// chunks of at most `CHUNK_LINES` lines.
    pub fn notify_new_range(&mut self, start: usize, end: usize)
        requires
            old(self).wf(),
            end <= old(self).lines().len(),
        ensures
            final(self).wf(),
            final(self).jobs_view() == old(self).jobs_view() + chunk_jobs(
                start as int,
                end as int,
            ),
            final(self).lines() == old(self).lines(),
            final(self).pattern_model() == old(self).pattern_model(),
            final(self).version() == old(self).version(),
            final(self).matches_view() == old(self).matches_view(),
            final(self).sorter_ver() == old(self).sorter_ver(),
            final(self).quitting() == old(self).quitting(),
    {
        let ghost pre = *self;
        let ghost mut acc: Seq<ScanJob> = Seq::empty();
        proof {
            assert(pre.jobs_view() + acc =~= pre.jobs_view());
        }
        let mut i = start;
        while i < end
            invariant
                start <= i,
                i <= end || i == start,
                end <= pre.lines().len(),
                *self == (Engine { jobs: self.jobs, ..pre }),
                self.jobs@ == pre.jobs_view() + acc,
                chunk_jobs(start as int, end as int) == acc + chunk_jobs(i as int, end as int),
                jobs_wf(acc, pre.lines().len()),
            decreases end - i,
        {
            let next = if end - i <= CHUNK_LINES {
                end
            } else {
                i + CHUNK_LINES
            };
            let job = ScanJob { start: i, end: next };
            proof {
                assert(chunk_jobs(i as int, end as int) == seq![job] + chunk_jobs(
                    next as int,
                    end as int,
                ));
                assert(acc + chunk_jobs(i as int, end as int) =~= acc.push(job) + chunk_jobs(
                    next as int,
                    end as int,
                ));
                assert(pre.jobs_view() + acc.push(job) =~= (pre.jobs_view() + acc).push(job));
                acc = acc.push(job);
            }
            self.jobs.push(job);
            i = next;
        }
        proof {
            assert(chunk_jobs(i as int, end as int) =~= Seq::<ScanJob>::empty());
            assert(chunk_jobs(start as int, end as int) =~= acc);
        }
    }

    /// Appends one line and enqueues the one-line scan job covering it: the
    /// incremental path taken for each newly ingested line.
    pub fn push_line(&mut self, line: String) -> (idx: usize)
        requires
            old(self).wf(),
        ensures
            final(self).wf(),
            idx == old(self).lines().len(),
            final(self).lines() == old(self).lines().push(line@),
            final(self).jobs_view() == old(self).jobs_view().push(
                ScanJob { start: idx, end: (idx + 1) as usize },
            ),
            final(self).pattern_model() == old(self).pattern_model(),
            final(self).version() == old(self).version(),
            final(self).matches_view() == old(self).matches_view(),
            final(self).sorter_ver() == old(self).sorter_ver(),
            final(self).quitting() == old(self).quitting(),
    {
        let idx = self.append_line(line);
        let new_len = self.log.len();
        self.notify_new_range(idx, new_len);
        proof {
            assert(chunk_jobs(idx as int, new_len as int) =~= seq![
                ScanJob { start: idx, end: new_len },
            ]);
            assert(self.jobs_view() =~= old(self).jobs_view().push(
                ScanJob { start: idx, end: new_len },
            ));
        }
        idx
    }

    /// Takes the oldest pending scan job off the queue, if any.
    pub fn next_job(&mut self) -> (r: Option<ScanJob>)
        requires
            old(self).wf(),
        ensures
            final(self).wf(),
            old(self).jobs_view().len() == 0 ==> r is None && *final(self) == *old(self),
            old(self).jobs_view().len() > 0 ==> r == Some(old(self).jobs_view()[0])
                && final(self).jobs_view() == old(self).jobs_view().drop_first(),
            final(self).lines() == old(self).lines(),
            final(self).pattern_model() == old(self).pattern_model(),
            final(self).version() == old(self).version(),
            final(self).matches_view() == old(self).matches_view(),
            final(self).sorter_ver() == old(self).sorter_ver(),
            final(self).quitting() == old(self).quitting(),
    {
        if self.jobs.len() == 0 {
            None
        } else {
            let job = self.jobs.remove(0);
            proof {
                assert(self.jobs_view() =~= old(self).jobs_view().drop_first());
            }
            Some(job)
        }
    }

    /// How many scan jobs are pending.
    pub fn job_count(&self) -> (n: usize)
        ensures
            n == self.jobs_view().len(),
    {
        self.jobs.len()
    }

    /// A copy of the lines in `[start, end)`, with `end` clamped to the line
    /// count and `start` clamped to `end`.
    pub fn read_log_snapshot(&self, start: usize, end: usize) -> (r: Vec<String>)
        ensures
            ({
                let e = if end <= self.lines().len() {
                    end as int
                } else {
                    self.lines().len() as int
                };
                let s = if start as int <= e {
                    start as int
                } else {
                    e
                };
                &&& r@.len() == e - s
                &&& forall|i: int| 0 <= i < r@.len() ==> r@[i]@ == self.lines()[s + i]
            }),
    {
        self.log.get_range(start, end)
    }

    /// A copy of the merged match list, ascending by line number.
    pub fn read_matches_snapshot(&self) -> (r: Vec<Match>)
        ensures
            r@ == self.matches_view(),
    {
        let mut r: Vec<Match> = Vec::new();
        let mut i: usize = 0;
        while i < self.matches.len()
            invariant
                i <= self.matches@.len(),
                r@ == self.matches@.take(i as int),
            decreases self.matches@.len() - i,
        {
            r.push(self.matches[i]);
            proof {
                assert(self.matches@.take(i + 1 as int) =~= self.matches@.take(i as int).push(
                    self.matches@[i as int],
                ));
            }
            i = i + 1;
        }
        proof {
            assert(self.matches@.take(self.matches@.len() as int) =~= self.matches@);
        }
        r
    }

    /// How many matches the merged list currently holds.
    pub fn match_count(&self) -> (n: usize)
        ensures
            n == self.matches_view().len(),
    {
        self.matches.len()
    }

    /// The current search version, as a value.
    pub fn current_version(&self) -> (v: u64)
        ensures
            v == self.version(),
    {
        self.criteria.version
    }

    /// Whether a pattern is active, so the interface can mark the disabled
    /// state of a short or invalid query.
    pub fn filter_active(&self) -> (r: bool)
        ensures
            r == (self.pattern_model() is Some),
    {
        match &self.criteria.pattern {
            Some(_) => true,
            None => false,
        }
    }

    /// Whether a cooperative shutdown was requested.
    pub fn is_quitting(&self) -> (q: bool)
        ensures
            q == self.quitting(),
    {
        self.quit
    }

    /// Handles one query edit. The version grows by exactly one whatever the
    /// query looks like; a query shorter than `MIN_QUERY_LEN` characters, and
    /// one that does not compile, both turn filtering off; the match list is
    /// cleared in the same step that swaps the criteria; and a full rescan of
    /// the log is enqueued in chunks of `CHUNK_LINES` lines. Returns the new
    /// version.
    pub fn submit_query(&mut self, text: &str) -> (v: u64)
        requires
            old(self).wf(),
            old(self).version() < u64::MAX,
        ensures
            final(self).wf(),
            v == old(self).version() + 1,
            final(self).version() == v,
            submit_effect(*old(self), *final(self), text@),
    {
        self.matches.clear();
        let pattern = if text.unicode_len() < MIN_QUERY_LEN {
            None
        } else {
            Pattern::compile(text)
        };
        let v = self.criteria.version + 1;
        self.criteria = SearchCriteria { pattern, version: v };
        let len = self.log.len();
        self.notify_new_range(0, len);
        v
    }

    /// Scans one job against the criteria as they stand now, not as they
    /// stood when the job was enqueued. With no active pattern the batch is
    /// empty; otherwise it holds exactly the lines of the job's range
    /// (clamped to the log's length) that the pattern matches, ascending,
    /// each stamped with the current version.
    pub fn scan_job(&self, job: ScanJob) -> (batch: Vec<Match>)
        requires
            self.wf(),
        ensures
            self.pattern_model() is None ==> batch@ == Seq::<Match>::empty(),
            self.pattern_model() is Some ==> self.scan_result(job, batch@),
            matches_sorted(batch@),
            batch_version_uniform(batch@, self.version()),
    {
        let mut batch: Vec<Match> = Vec::new();
        match &self.criteria.pattern {
            None => {
                proof {
                    assert(batch@ =~= Seq::<Match>::empty());
                }
            },
            Some(p) => {
                let len = self.log.len();
                let e = if job.end <= len {
                    job.end
                } else {
                    len
                };
                let mut i = job.start;
                while i < e
                    invariant
                        self.wf(),
                        self.pattern_model() == Some(p.text_view()),
                        self.criteria.version == self.version(),
                        job.start <= i,
                        i <= e || i == job.start,
                        e <= self.lines().len(),
                        e == (if job.end <= self.lines().len() {
                            job.end as int
                        } else {
                            self.lines().len() as int
                        }),
                        matches_sorted(batch@),
                        batch_version_uniform(batch@, self.version()),
                        forall|k: int|
                            0 <= k < batch@.len() ==> job.start <= (#[trigger] batch@[k]).lineno
                                < i && regex_match(
                                p.text_view(),
                                self.lines()[batch@[k].lineno as int],
                            ),
                        forall|l: int|
                            job.start <= l < i && regex_match(p.text_view(), self.lines()[l])
                                ==> has_lineno(batch@, l as usize),
                    decreases e - i,
                {
                    if p.is_match(self.log.get(i).as_str()) {
                        let ghost pre = batch@;
                        batch.push(Match { lineno: i, version: self.criteria.version });
                        proof {
                            assert(batch@[batch@.len() - 1].lineno == i);
                            assert forall|l: int|
                                job.start <= l < i + 1 && regex_match(
                                    p.text_view(),
                                    self.lines()[l],
                                ) implies has_lineno(batch@, l as usize) by {
                                if l < i {
                                    assert(has_lineno(pre, l as usize));
                                    let k = choose|k: int|
                                        0 <= k < pre.len() && pre[k].lineno == l as usize;
                                    assert(batch@[k].lineno == l as usize);
                                } else {
                                    assert(batch@[batch@.len() - 1].lineno == l as usize);
                                }
                            }
                        }
                    } else {
                        proof {
                            assert forall|l: int|
                                job.start <= l < i + 1 && regex_match(
                                    p.text_view(),
                                    self.lines()[l],
                                ) implies has_lineno(batch@, l as usize) by {
                                assert(l != i);
                            }
                        }
                    }
                    i = i + 1;
                }
            },
        }
        batch
    }

    /// What a scan of `job` returns when a pattern is active: exactly the
    /// matching lines of the clamped range, ascending, stamped with the
    /// current version.
    pub open spec fn scan_result(self, job: ScanJob, batch: Seq<Match>) -> bool {
        let e = if job.end <= self.lines().len() {
            job.end as int
        } else {
            self.lines().len() as int
        };
        let pat = self.pattern_model()->Some_0;
        &&& matches_sorted(batch)
        &&& batch_version_uniform(batch, self.version())
        &&& forall|k: int|
            0 <= k < batch.len() ==> job.start <= (#[trigger] batch[k]).lineno < e && regex_match(
                pat,
                self.lines()[batch[k].lineno as int],
            )
        &&& forall|l: int|
            job.start <= l < e && regex_match(pat, self.lines()[l]) ==> has_lineno(
                batch,
                l as usize,
            )
    }

    /// Merges one version-tagged batch into the match list, as the single
    /// merge step does for each batch it receives. The freshness check first
    /// advances the highest observed version to the current criteria version;
    /// a batch whose version differs from it — one computed under a pattern
    /// the user has since edited away from — is discarded whole. A fresh
    /// batch is folded in line by line: each match is placed at its sorted
    /// position, and lines already covered are skipped, so the list stays
    /// sorted and duplicate-free.
    pub fn merge_batch(&mut self, batch: &Vec<Match>)
        requires
            old(self).wf(),
            batch@.len() > 0 ==> batch_version_uniform(batch@, batch@[0].version),
        ensures
            final(self).wf(),
            final(self).lines() == old(self).lines(),
            final(self).pattern_model() == old(self).pattern_model(),
            final(self).version() == old(self).version(),
            final(self).jobs_view() == old(self).jobs_view(),
            final(self).quitting() == old(self).quitting(),
            batch@.len() == 0 ==> *final(self) == *old(self),
            batch@.len() > 0 ==> final(self).sorter_ver() == old(self).version(),
            batch@.len() > 0 && batch@[0].version == old(self).version()
                ==> final(self).matches_view() == merge_seq(old(self).matches_view(), batch@),
            batch@.len() > 0 && batch@[0].version != old(self).version()
                ==> final(self).matches_view() == old(self).matches_view(),
    {
        if batch.len() == 0 {
            return ;
        }
        // while waiting for this batch, the version may have moved on:
        // the criteria version is the authoritative freshness bound
        if self.sorter_version < self.criteria.version {
            self.sorter_version = self.criteria.version;
        }
        if batch[0].version != self.sorter_version {
            return ;
        }
        let ghost pre = *self;
        let ghost s0 = self.matches@;
        proof {
            assert(batch_version_uniform(s0, self.sorter_version));
            assert(merge_seq(s0, batch@.take(0)) == s0) by {
                assert(batch@.take(0) =~= Seq::<Match>::empty());
            }
        }
        let mut j: usize = 0;
        while j < batch.len()
            invariant
                j <= batch@.len(),
                batch_version_uniform(batch@, pre.sorter_version),
                *self == (Engine { matches: self.matches, ..pre }),
                matches_sorted(self.matches@),
                batch_version_uniform(self.matches@, pre.sorter_version),
                self.matches@ == merge_seq(s0, batch@.take(j as int)),
            decreases batch@.len() - j,
        {
            let m = batch[j];
            proof {
                assert(batch@.take(j + 1 as int) =~= batch@.take(j as int).push(m));
                lemma_merge_seq_snoc(s0, batch@.take(j as int), m);
                lemma_insert_match_props(self.matches@, m);
            }
            let (found, pos) = find_slot(&self.matches, m.lineno);
            if !found {
                proof {
                    lemma_insert_at_slot(self.matches@, m, pos as int);
                }
                self.matches.insert(pos, m);
            }
            j = j + 1;
        }
        proof {
            assert(batch@.take(batch@.len() as int) =~= batch@);
        }
    }

    /// Requests a cooperative shutdown; nothing else changes.
    pub fn request_quit(&mut self)
        requires
            old(self).wf(),
        ensures
            final(self).wf(),
            final(self).quitting(),
            final(self).lines() == old(self).lines(),
            final(self).pattern_model() == old(self).pattern_model(),
            final(self).version() == old(self).version(),
            final(self).jobs_view() == old(self).jobs_view(),
            final(self).matches_view() == old(self).matches_view(),
            final(self).sorter_ver() == old(self).sorter_ver(),
    {
        self.quit = true;
    }
}

} // verus!
