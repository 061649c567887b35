use apyr::engine::Engine;
use apyr::types::Match;

fn ingest(e: &mut Engine, lines: &[&str]) {
    for l in lines.iter() {
        let _ = e.push_line((*l).to_string());
    }
}

/// Runs every pending job through the scanner and merges each non-empty
/// batch, as the worker pool and the sorter would.
fn settle(e: &mut Engine) {
    while let Some(job) = e.next_job() {
        let batch = e.scan_job(job);
        if !batch.is_empty() {
            e.merge_batch(&batch);
        }
    }
}

fn match_linenos(e: &Engine) -> Vec<usize> {
    e.read_matches_snapshot().iter().map(|m| m.lineno).collect()
}

#[test]
fn log_len_counts_appends() {
    let mut e = Engine::new();
    assert_eq!(e.log_len(), 0);
    for i in 0..100usize {
        let idx = e.append_line(format!("line {}", i));
        assert_eq!(idx, i);
        assert_eq!(e.log_len(), i + 1);
    }
}

#[test]
fn log_snapshot_is_immutable_under_appends() {
    let mut e = Engine::new();
    let _ = e.append_line("first".to_string());
    let _ = e.append_line("second".to_string());
    let before = e.read_log_snapshot(0, 2);
    let _ = e.append_line("third".to_string());
    let _ = e.append_line("fourth".to_string());
    let after = e.read_log_snapshot(0, 2);
    assert_eq!(before, after);
    assert_eq!(after, vec!["first".to_string(), "second".to_string()]);
}

#[test]
fn log_snapshot_clamps_range() {
    let mut e = Engine::new();
    ingest(&mut e, &["a", "b", "c"]);
    assert_eq!(e.read_log_snapshot(1, 10), vec!["b".to_string(), "c".to_string()]);
    assert_eq!(e.read_log_snapshot(5, 10), Vec::<String>::new());
    assert_eq!(e.read_log_snapshot(2, 1), Vec::<String>::new());
}

#[test]
fn versions_increase_by_one_per_edit() {
    let mut e = Engine::new();
    // the version grows by exactly 1 per edit, whatever the query looks like
    assert_eq!(e.submit_query("foo"), 1);
    assert_eq!(e.submit_query("fo"), 2);
    assert_eq!(e.submit_query("["), 3);
    assert_eq!(e.submit_query("[[["), 4);
    assert_eq!(e.submit_query("bar"), 5);
}

#[test]
fn scenario_foo_matches_lines_zero_and_two() {
    let mut e = Engine::new();
    ingest(&mut e, &["foo", "bar", "foobar"]);
    let _ = e.submit_query("foo");
    settle(&mut e);
    assert_eq!(match_linenos(&e), vec![0, 2]);
}

#[test]
fn short_query_disables_filtering() {
    let mut e = Engine::new();
    ingest(&mut e, &["fo", "fox", "fo fo fo"]);
    let _ = e.submit_query("fo");
    settle(&mut e);
    assert!(e.read_matches_snapshot().is_empty());
}

#[test]
fn invalid_regex_clears_matches_and_disables_filtering() {
    let mut e = Engine::new();
    ingest(&mut e, &["foo", "foobar"]);
    let _ = e.submit_query("foo");
    settle(&mut e);
    assert_eq!(match_linenos(&e), vec![0, 1]);
    // too short to compile at all: filtering off, matches cleared, no panic
    let _ = e.submit_query("[");
    assert!(e.read_matches_snapshot().is_empty());
    settle(&mut e);
    assert!(e.read_matches_snapshot().is_empty());
    // long enough but not a valid regex: same outcome
    let _ = e.submit_query("foo");
    settle(&mut e);
    assert_eq!(match_linenos(&e), vec![0, 1]);
    let _ = e.submit_query("[[[");
    assert!(e.read_matches_snapshot().is_empty());
    settle(&mut e);
    assert!(e.read_matches_snapshot().is_empty());
}

#[test]
fn one_job_per_ingested_line_and_all_lines_found() {
    let mut e = Engine::new();
    let _ = e.submit_query("xxx");
    settle(&mut e);
    assert_eq!(e.job_count(), 0);
    // one-line jobs arrive one at a time, one per ingested line
    let mut jobs = Vec::new();
    for i in 0..25usize {
        let _ = e.push_line(format!("xxx number {}", i));
        assert_eq!(e.job_count(), 1);
        jobs.push(e.next_job().unwrap());
        assert_eq!(e.job_count(), 0);
    }
    for (i, job) in jobs.iter().enumerate() {
        assert_eq!((job.start, job.end), (i, i + 1));
    }
    // scan them all, then merge the batches in a scrambled order
    let mut batches = Vec::new();
    for job in jobs {
        batches.push(e.scan_job(job));
    }
    let mut order: Vec<usize> = (0..25).map(|i| (i * 7) % 25).collect();
    order.sort();
    order.dedup();
    assert_eq!(order.len(), 25);
    for i in 0..25usize {
        let batch = &batches[(i * 7) % 25];
        e.merge_batch(batch);
        assert_sorted_and_unique(&e.read_matches_snapshot());
    }
    let expected: Vec<usize> = (0..25).collect();
    assert_eq!(match_linenos(&e), expected);
}

fn assert_sorted_and_unique(matches: &[Match]) {
    for w in matches.windows(2) {
        assert!(w[0].lineno < w[1].lineno);
    }
}

#[test]
fn full_rescan_is_chunked_by_ten() {
    let mut e = Engine::new();
    for i in 0..25usize {
        let _ = e.append_line(format!("line {}", i));
    }
    let _ = e.submit_query("line");
    assert_eq!(e.job_count(), 3);
    let j0 = e.next_job().unwrap();
    let j1 = e.next_job().unwrap();
    let j2 = e.next_job().unwrap();
    assert_eq!((j0.start, j0.end), (0, 10));
    assert_eq!((j1.start, j1.end), (10, 20));
    assert_eq!((j2.start, j2.end), (20, 25));
    assert!(e.next_job().is_none());
}

#[test]
fn stale_batches_are_discarded() {
    let mut e = Engine::new();
    ingest(&mut e, &["foo"]);
    let _ = e.submit_query("foo");
    let job = e.next_job().unwrap();
    let stale = e.scan_job(job);
    assert_eq!(stale.len(), 1);
    // the user edits again before the batch reaches the sorter
    let _ = e.submit_query("foo");
    assert!(e.read_matches_snapshot().is_empty());
    e.merge_batch(&stale);
    // the old batch reflects a superseded version: dropped whole
    assert!(e.read_matches_snapshot().is_empty());
    // a batch scanned under the new version lands
    let job = e.next_job().unwrap();
    let fresh = e.scan_job(job);
    e.merge_batch(&fresh);
    assert_eq!(match_linenos(&e), vec![0]);
}

#[test]
fn matches_empty_until_first_fresh_batch() {
    let mut e = Engine::new();
    ingest(&mut e, &["foo", "foo"]);
    let _ = e.submit_query("foo");
    assert!(e.read_matches_snapshot().is_empty());
    // scanning alone populates nothing: only a merge does
    let job = e.next_job().unwrap();
    let batch = e.scan_job(job);
    assert!(e.read_matches_snapshot().is_empty());
    e.merge_batch(&batch);
    assert_eq!(match_linenos(&e), vec![0]);
    settle(&mut e);
    assert_eq!(match_linenos(&e), vec![0, 1]);
}

#[test]
fn merging_twice_equals_merging_once() {
    let mut e = Engine::new();
    ingest(&mut e, &["foo", "bar", "foo"]);
    let _ = e.submit_query("foo");
    // take the full-rescan job, which covers all three lines
    let mut full = None;
    while let Some(job) = e.next_job() {
        if job.start == 0 && job.end == 3 {
            full = Some(job);
        }
    }
    let batch = e.scan_job(full.unwrap());
    e.merge_batch(&batch);
    let once = e.read_matches_snapshot();
    assert_eq!(match_linenos(&e), vec![0, 2]);
    e.merge_batch(&batch);
    let twice = e.read_matches_snapshot();
    assert_eq!(once, twice);
}

#[test]
fn overlapping_jobs_produce_no_duplicates() {
    let mut e = Engine::new();
    ingest(&mut e, &["foo", "bar", "foo foo"]);
    let _ = e.submit_query("foo");
    // both the full-rescan job and fresh one-line jobs cover the same lines
    e.notify_new_range(0, 3);
    e.notify_new_range(2, 3);
    settle(&mut e);
    assert_eq!(match_linenos(&e), vec![0, 2]);
}

#[test]
fn scan_against_current_criteria_not_enqueue_time() {
    let mut e = Engine::new();
    ingest(&mut e, &["foo", "needle"]);
    let _ = e.submit_query("foo");
    // the jobs of the "foo" rescan are still pending when the query changes
    let _ = e.submit_query("needle");
    settle(&mut e);
    // every job was evaluated against the newest pattern
    assert_eq!(match_linenos(&e), vec![1]);
}

#[test]
fn quit_flag_round_trip() {
    let mut e = Engine::new();
    assert!(!e.is_quitting());
    e.request_quit();
    assert!(e.is_quitting());
    // quitting changes nothing else
    assert_eq!(e.log_len(), 0);
    assert_eq!(e.job_count(), 0);
}

#[test]
fn match_versions_follow_the_latest_edit() {
    let mut e = Engine::new();
    ingest(&mut e, &["foo"]);
    let v = e.submit_query("foo");
    settle(&mut e);
    let snapshot = e.read_matches_snapshot();
    assert_eq!(snapshot.len(), 1);
    assert_eq!(snapshot[0].version, v);
    let v2 = e.submit_query("foo");
    settle(&mut e);
    let snapshot = e.read_matches_snapshot();
    assert_eq!(snapshot[0].version, v2);
}
