use fd_jira::page::{IssueSearchResult, IssueSearchResultSet};
use fd_jira::store::IssueStore;
use fd_jira::sync::{Pager, SyncError, SyncOutcome};
use fd_jira::time::Timestamp;

fn summaries(from: usize, to: usize) -> Vec<IssueSearchResult> {
    (from..to)
        .map(|i| IssueSearchResult { id: i.to_string(), key: format!("PROJ-{}", i) })
        .collect()
}

fn page(start: usize, total: usize, issues: Vec<IssueSearchResult>) -> IssueSearchResultSet {
    IssueSearchResultSet { startAt: start, maxResults: 50, total, err: None, issues }
}

/// Serves the project's 120 records in pages of 50, failing the fetch of the
/// page at `fail_at`, if given.
fn serve(offset: usize, fail_at: Option<usize>) -> Result<IssueSearchResultSet, String> {
    if Some(offset) == fail_at {
        return Err("connection reset".to_string());
    }
    let end = (offset + 50).min(120);
    Ok(page(offset, 120, summaries(offset, end)))
}

fn run(store: &mut IssueStore, fail_at: Option<usize>, offsets: &mut Vec<usize>, batches: &mut Vec<usize>) -> Pager {
    let mut pager = Pager::new();
    while let Some(offset) = pager.next_offset() {
        offsets.push(offset);
        match serve(offset, fail_at) {
            Ok(p) => {
                batches.push(pager.take_page(store, &p));
            }
            Err(e) => pager.on_failure(SyncError::Transport(e)),
        }
    }
    pager
}

#[test]
fn full_run_in_three_pages() {
    let mut store = IssueStore::new();
    let (mut offsets, mut batches) = (Vec::new(), Vec::new());
    let outcome = run(&mut store, None, &mut offsets, &mut batches).into_outcome();
    assert_eq!(offsets, vec![0, 50, 100]);
    assert_eq!(batches, vec![50, 50, 20]);
    assert_eq!(outcome.total_processed, 120);
    assert!(outcome.error.is_none());
    assert_eq!(store.rows.len(), 120);
}

#[test]
fn failed_second_page_then_rerun() {
    let mut store = IssueStore::new();
    let (mut offsets, mut batches) = (Vec::new(), Vec::new());
    let outcome = run(&mut store, Some(50), &mut offsets, &mut batches).into_outcome();
    assert!(matches!(outcome.error, Some(SyncError::Transport(_))));
    assert_eq!(outcome.total_processed, 50);
    assert_eq!(store.rows.len(), 50);
    let (mut offsets, mut batches) = (Vec::new(), Vec::new());
    let again = run(&mut store, None, &mut offsets, &mut batches).into_outcome();
    assert!(again.error.is_none());
    assert_eq!(offsets, vec![0, 50, 100]);
    assert_eq!(batches, vec![0, 50, 20]);
    assert_eq!(store.rows.len(), 120);
    for (i, r) in store.rows.iter().enumerate() {
        assert_eq!(r.key, format!("PROJ-{}", i));
    }
}

#[test]
fn empty_page_stops_the_run() {
    let mut pager = Pager::new();
    let mut store = IssueStore::new();
    pager.take_page(&mut store, &page(0, 500, summaries(0, 10)));
    assert_eq!(pager.next_offset(), Some(10));
    pager.take_page(&mut store, &page(10, 500, Vec::new()));
    assert_eq!(pager.next_offset(), None);
    assert_eq!(pager.total_processed(), 10);
}

#[test]
fn reaching_the_total_stops_the_run() {
    let mut pager = Pager::new();
    let mut store = IssueStore::new();
    pager.take_page(&mut store, &page(0, 7, summaries(0, 4)));
    assert_eq!(pager.next_offset(), Some(4));
    pager.take_page(&mut store, &page(4, 7, summaries(4, 7)));
    assert_eq!(pager.next_offset(), None);
    assert_eq!(pager.into_outcome().total_processed, 7);
}

#[test]
fn a_total_that_grows_is_followed() {
    let mut pager = Pager::new();
    let mut store = IssueStore::new();
    pager.take_page(&mut store, &page(0, 5, summaries(0, 5)));
    assert_eq!(pager.next_offset(), None);
    let mut pager = Pager::new();
    pager.take_page(&mut store, &page(0, 6, summaries(0, 5)));
    pager.take_page(&mut store, &page(5, 9, summaries(5, 8)));
    assert_eq!(pager.next_offset(), Some(8));
}

#[test]
fn failed_page_decode_stops_without_writing() {
    let mut pager = Pager::new();
    let mut store = IssueStore::new();
    let mut p = page(0, 10, summaries(0, 3));
    p.err = Some("bad json".to_string());
    assert_eq!(pager.take_page(&mut store, &p), 0);
    assert_eq!(pager.next_offset(), None);
    assert!(store.rows.is_empty());
    assert!(matches!(pager.into_outcome().error, Some(SyncError::Decode(m)) if m == "bad json"));
}

#[test]
fn upsert_twice_is_upsert_once() {
    let mut store = IssueStore::new();
    let batch = summaries(0, 3);
    assert_eq!(store.upsert_summaries(&batch), 3);
    assert_eq!(store.upsert_summaries(&batch), 0);
    assert_eq!(store.rows.len(), 3);
}

#[test]
fn first_write_wins() {
    let mut store = IssueStore::new();
    let first = vec![IssueSearchResult { id: "1".to_string(), key: "K".to_string() }];
    let second = vec![
        IssueSearchResult { id: "2".to_string(), key: "K".to_string() },
        IssueSearchResult { id: "3".to_string(), key: "L".to_string() },
        IssueSearchResult { id: "4".to_string(), key: "L".to_string() },
    ];
    store.upsert_summaries(&first);
    assert_eq!(store.upsert_summaries(&second), 1);
    assert_eq!(store.rows[0].id, "1");
    assert_eq!(store.rows[1].id, "3");
    assert!(store.contains_key("L"));
    assert!(!store.contains_key("M"));
}

#[test]
fn checkpoints_overwrite_per_project() {
    let mut store = IssueStore::new();
    assert_eq!(store.get_checkpoint("PROJ"), None);
    store.set_checkpoint("PROJ", Timestamp { utc_seconds: 10 });
    store.set_checkpoint("OTHER", Timestamp { utc_seconds: 20 });
    store.set_checkpoint("PROJ", Timestamp { utc_seconds: 30 });
    assert_eq!(store.get_checkpoint("PROJ"), Some(Timestamp { utc_seconds: 30 }));
    assert_eq!(store.get_checkpoint("OTHER"), Some(Timestamp { utc_seconds: 20 }));
    assert_eq!(store.checkpoints.len(), 2);
}

#[test]
fn checkpoint_moves_only_after_a_clean_run() {
    let mut store = IssueStore::new();
    assert_eq!(store.since("PROJ"), Timestamp { utc_seconds: 0 });
    let failed = SyncOutcome { total_processed: 50, error: Some(SyncError::Transport("down".to_string())) };
    assert!(!store.finish_run("PROJ", &failed, Timestamp { utc_seconds: 100 }));
    assert_eq!(store.since("PROJ"), Timestamp { utc_seconds: 0 });
    let clean = SyncOutcome { total_processed: 120, error: None };
    assert!(store.finish_run("PROJ", &clean, Timestamp { utc_seconds: 200 }));
    assert_eq!(store.since("PROJ"), Timestamp { utc_seconds: 200 });
    assert_eq!(store.since("OTHER"), Timestamp { utc_seconds: 0 });
}

#[test]
fn failed_write_does_not_advance() {
    let mut pager = Pager::new();
    let p = page(0, 10, summaries(0, 3));
    assert!(pager.on_page(&p));
    pager.on_failure(SyncError::Persist("disk full".to_string()));
    assert_eq!(pager.next_offset(), None);
    assert_eq!(pager.total_processed(), 0);
}
