use apyr::engine::Engine;
use apyr::reader::{eof_sentinel_line, ingest_step, IngestAction, ReadEvent};

#[test]
fn a_read_line_is_appended_with_its_job() {
    let mut e = Engine::new();
    let act = ingest_step(&mut e, ReadEvent::Line("hello\n".to_string()));
    assert_eq!(act, IngestAction::Proceed);
    assert_eq!(e.log_len(), 1);
    assert_eq!(e.read_log_snapshot(0, 1), vec!["hello\n".to_string()]);
    let job = e.next_job().unwrap();
    assert_eq!((job.start, job.end), (0, 1));
}

#[test]
fn end_of_input_appends_the_sentinel_and_halts() {
    let mut e = Engine::new();
    let _ = ingest_step(&mut e, ReadEvent::Line("only\n".to_string()));
    let act = ingest_step(&mut e, ReadEvent::Eof);
    assert_eq!(act, IngestAction::Halt);
    assert_eq!(e.log_len(), 2);
    assert_eq!(e.read_log_snapshot(1, 2), vec![eof_sentinel_line()]);
    assert_eq!(eof_sentinel_line(), " ** EOF REACHED ** ");
}

#[test]
fn transient_reads_are_retried_without_effect() {
    let mut e = Engine::new();
    let act = ingest_step(&mut e, ReadEvent::Transient);
    assert_eq!(act, IngestAction::Retry);
    assert_eq!(e.log_len(), 0);
    assert_eq!(e.job_count(), 0);
}

#[test]
fn a_hard_read_error_halts_ingestion_only() {
    let mut e = Engine::new();
    let _ = ingest_step(&mut e, ReadEvent::Line("kept\n".to_string()));
    let act = ingest_step(&mut e, ReadEvent::Failed);
    assert_eq!(act, IngestAction::Halt);
    // what was already ingested stays available
    assert_eq!(e.log_len(), 1);
    assert_eq!(e.read_log_snapshot(0, 1), vec!["kept\n".to_string()]);
}
