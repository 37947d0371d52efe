use std::sync::Arc;
use std::time::{SystemTime, UNIX_EPOCH};

use tokio::sync::Mutex;

use semerak::errors::ErrorKind;
use semerak::store::{Token, TokenStore};
use semerak::sweep::{plan_sweep, summarize_outcomes, ScheduledDeletion};

fn unix_now() -> i64 {
    SystemTime::now().duration_since(UNIX_EPOCH).unwrap().as_secs() as i64
}

fn row(content: &str, created_at: i64, expires: i64) -> Token {
    Token { content: content.to_string(), created_at, expires }
}

#[test]
fn plan_skips_rows_at_or_past_expiry() {
    let rows = vec![(1, 100i64), (2, 99), (3, 101)];
    let plan = plan_sweep(&rows, 100);
    assert_eq!(plan, vec![ScheduledDeletion { id: 3, delay_seconds: 1 }]);
}

#[test]
fn plan_waits_exactly_the_remaining_time() {
    let rows = vec![(10, 1001i64), (11, 1002), (12, 1003)];
    let plan = plan_sweep(&rows, 1000);
    assert_eq!(
        plan,
        vec![
            ScheduledDeletion { id: 10, delay_seconds: 1 },
            ScheduledDeletion { id: 11, delay_seconds: 2 },
            ScheduledDeletion { id: 12, delay_seconds: 3 },
        ]
    );
}

#[test]
fn summary_reports_first_failure_only() {
    let outcomes = vec![
        Ok(1usize),
        Err(ErrorKind::StorageFailure),
        Err(ErrorKind::AsyncTaskFailure),
    ];
    assert_eq!(summarize_outcomes(&outcomes), Err(ErrorKind::StorageFailure));
}

#[test]
fn summary_counts_zero_affected_rows_as_success() {
    let outcomes: Vec<Result<usize, ErrorKind>> = vec![Ok(0), Ok(1), Ok(0)];
    assert_eq!(summarize_outcomes(&outcomes), Ok(()));
    let empty: Vec<Result<usize, ErrorKind>> = Vec::new();
    assert_eq!(summarize_outcomes(&empty), Ok(()));
}

#[test]
fn sweep_leaves_already_expired_rows_in_place() {
    // A token issued with a TTL of zero is already expired when the sweep
    // reads it: the pass schedules no timer for it, and a later pass skips
    // it again, so only a positive remaining TTL ever leads to a deletion.
    let now = unix_now();
    let mut store = TokenStore::new();
    let id = store.insert(row("expired", now, now)).unwrap();
    let plan = plan_sweep(&store.select_all(), now);
    assert!(plan.is_empty());
    assert_eq!(store.len(), 1);
    let plan_again = plan_sweep(&store.select_all(), now + 5);
    assert!(plan_again.is_empty());
    assert_eq!(store.len(), 1);
    assert!(store.find_by_id(id).is_some());
}

#[test]
fn duplicate_deletes_are_harmless() {
    let mut store = TokenStore::new();
    let id = store.insert(row("r", 0, 10)).unwrap();
    let (first, second) = store.duplicate_delete_is_harmless(id);
    assert_eq!((first, second), (1, 0));
    assert_eq!(store.len(), 0);
    let (first, second) = store.duplicate_delete_is_harmless(42);
    assert_eq!((first, second), (0, 0));
}

async fn run_sweep(store: Arc<Mutex<TokenStore>>, now: i64) -> Result<(), ErrorKind> {
    let plan = {
        let locked = store.lock().await;
        plan_sweep(&locked.select_all(), now)
    };
    let mut handles = Vec::new();
    for item in plan {
        let store = Arc::clone(&store);
        handles.push(tokio::task::spawn(async move {
            async_io::Timer::after(std::time::Duration::from_secs(item.delay_seconds)).await;
            let mut locked = store.lock().await;
            Ok::<usize, ErrorKind>(locked.delete_by_id(item.id))
        }));
    }
    let mut outcomes: Vec<Result<usize, ErrorKind>> = Vec::new();
    for handle in handles {
        outcomes.push(match handle.await {
            Ok(outcome) => outcome,
            Err(_) => Err(ErrorKind::AsyncTaskFailure),
        });
    }
    summarize_outcomes(&outcomes)
}

#[test]
fn sweep_deletes_each_row_when_its_timer_fires() {
    let rt = tokio::runtime::Runtime::new().unwrap();
    rt.block_on(async {
        let now = unix_now();
        let store = Arc::new(Mutex::new(TokenStore::new()));
        {
            let mut locked = store.lock().await;
            locked.insert(row("one", now, now + 1)).unwrap();
            locked.insert(row("two", now, now + 2)).unwrap();
            locked.insert(row("three", now, now + 3)).unwrap();
        }
        let sweep_store = Arc::clone(&store);
        let sweep = tokio::task::spawn(async move { run_sweep(sweep_store, now).await });
        tokio::time::sleep(std::time::Duration::from_millis(1500)).await;
        assert_eq!(store.lock().await.len(), 2);
        let report = sweep.await.unwrap();
        assert_eq!(report, Ok(()));
        tokio::time::sleep(std::time::Duration::from_millis(500)).await;
        assert_eq!(store.lock().await.len(), 0);
    });
}

#[test]
fn concurrent_sweeps_are_idempotent() {
    let rt = tokio::runtime::Runtime::new().unwrap();
    rt.block_on(async {
        let now = unix_now();
        let store = Arc::new(Mutex::new(TokenStore::new()));
        {
            let mut locked = store.lock().await;
            for i in 0..4i64 {
                locked.insert(row("r", now, now + 1 + (i % 2))).unwrap();
            }
        }
        let first = tokio::task::spawn(run_sweep(Arc::clone(&store), now));
        let second = tokio::task::spawn(run_sweep(Arc::clone(&store), now));
        let first_report = first.await.unwrap();
        let second_report = second.await.unwrap();
        assert_eq!(first_report, Ok(()));
        assert_eq!(second_report, Ok(()));
        assert_eq!(store.lock().await.len(), 0);
    });
}
