use mindwtr_store::document::{parse_relaxed, Document};
use mindwtr_store::error::StoreError;
use mindwtr_store::reader::{
    after_attempt, backoff_ms, settle_read, start_read, Attempt, NextStep, ReadOutcome, BACKUP_ATTEMPTS,
    PRIMARY_ATTEMPTS,
};
use mindwtr_store::sync::{plan_sync_read, SyncRead, SyncSource};

fn run(max_attempts: u32, mut outcomes: Vec<ReadOutcome>) -> (Vec<u64>, usize, Result<Document, StoreError>) {
    let mut waits = Vec::new();
    let mut reads = 0;
    let mut attempt = match start_read(max_attempts) {
        Ok(attempt) => attempt,
        Err(e) => return (waits, reads, Err(e)),
    };
    outcomes.reverse();
    loop {
        let outcome = outcomes.pop().expect("the reader asked for more reads than expected");
        reads += 1;
        match after_attempt(attempt, outcome) {
            NextStep::Done(doc) => return (waits, reads, Ok(doc)),
            NextStep::GiveUp(e) => return (waits, reads, Err(e)),
            NextStep::Retry { wait_ms, attempt: next } => {
                waits.push(wait_ms);
                attempt = next;
            }
        }
    }
}

fn text(raw: &str) -> ReadOutcome {
    ReadOutcome::Text(raw.to_string())
}

fn unreadable(why: &str) -> ReadOutcome {
    ReadOutcome::Unreadable(why.to_string())
}

#[test]
fn backoff_is_linear() {
    assert_eq!(backoff_ms(0), 120);
    assert_eq!(backoff_ms(1), 200);
    assert_eq!(backoff_ms(2), 280);
    assert_eq!(backoff_ms(3), 360);
    assert_eq!(backoff_ms(10), 920);
    assert_eq!(backoff_ms(u32::MAX), 120 + 80 * 4294967295u64);
}

#[test]
fn attempt_budgets() {
    assert_eq!(PRIMARY_ATTEMPTS, 4);
    assert_eq!(BACKUP_ATTEMPTS, 2);
    assert!(BACKUP_ATTEMPTS < PRIMARY_ATTEMPTS);
}

#[test]
fn read_starts_with_attempt_zero() {
    assert_eq!(start_read(3), Ok(Attempt { index: 0, max_attempts: 3 }));
    assert_eq!(start_read(1), Ok(Attempt { index: 0, max_attempts: 1 }));
    assert_eq!(start_read(0), Err(StoreError::Io("no read attempt is allowed".to_string())));
}

#[test]
fn good_text_ends_the_read_at_once() {
    let (waits, reads, result) = run(4, vec![text("{\"a\": 1}")]);
    assert_eq!(waits, Vec::<u64>::new());
    assert_eq!(reads, 1);
    assert_eq!(result.unwrap().as_str(), "{\"a\":1}");
}

#[test]
fn slow_writer_is_waited_for() {
    // valid only after k failed reads, k < n: exactly k retries
    for n in 1..=6u32 {
        for k in 0..n {
            let mut outcomes = Vec::new();
            for i in 0..k {
                outcomes.push(if i % 2 == 0 { text("{\"tasks\": [") } else { unreadable("not found") });
            }
            outcomes.push(text("{\"tasks\": []}"));
            let (waits, reads, result) = run(n, outcomes);
            assert_eq!(result.unwrap().as_str(), "{\"tasks\":[]}");
            assert_eq!(reads as u32, k + 1);
            assert_eq!(waits.len() as u32, k);
            for (i, wait) in waits.iter().enumerate() {
                assert_eq!(*wait, 120 + 80 * i as u64);
            }
            assert!(waits.windows(2).all(|pair| pair[0] <= pair[1]));
        }
    }
}

#[test]
fn last_failure_is_surfaced() {
    let (waits, reads, result) = run(3, vec![unreadable("first"), text("{bad"), unreadable("third")]);
    assert_eq!(waits, vec![120, 200]);
    assert_eq!(reads, 3);
    assert_eq!(result, Err(StoreError::Io("third".to_string())));

    let (waits, reads, result) = run(2, vec![unreadable("first"), text("{bad")]);
    assert_eq!(waits, vec![120]);
    assert_eq!(reads, 2);
    assert!(matches!(result, Err(StoreError::Decode(_))));
}

#[test]
fn single_attempt_never_waits() {
    let (waits, reads, result) = run(1, vec![unreadable("gone")]);
    assert_eq!(waits, Vec::<u64>::new());
    assert_eq!(reads, 1);
    assert_eq!(result, Err(StoreError::Io("gone".to_string())));
}

#[test]
fn attempt_past_its_budget_gives_up() {
    let spent = Attempt { index: 5, max_attempts: 3 };
    assert_eq!(after_attempt(spent, unreadable("x")), NextStep::GiveUp(StoreError::Io("x".to_string())));
    let last = Attempt { index: u32::MAX, max_attempts: u32::MAX };
    assert_eq!(after_attempt(last, unreadable("y")), NextStep::GiveUp(StoreError::Io("y".to_string())));
    assert_eq!(
        after_attempt(Attempt { index: 1, max_attempts: 3 }, unreadable("z")),
        NextStep::Retry { wait_ms: 200, attempt: Attempt { index: 2, max_attempts: 3 } }
    );
}

#[test]
fn backup_stands_in_for_a_failed_primary() {
    let doc = parse_relaxed("{\"from\":\"backup\"}").unwrap();
    let primary = StoreError::Decode("primary is damaged".to_string());
    assert_eq!(settle_read(primary.clone(), Ok(doc.clone())), Ok(doc));
    assert_eq!(settle_read(primary.clone(), Err(StoreError::Io("no backup".to_string()))), Err(primary));
}

#[test]
fn sync_document_source_falls_back() {
    assert_eq!(plan_sync_read(true, false), SyncRead { source: SyncSource::Primary, attempts: 4, backup_attempts: 2 });
    assert_eq!(plan_sync_read(true, true), SyncRead { source: SyncSource::Primary, attempts: 4, backup_attempts: 2 });
    assert_eq!(plan_sync_read(false, true), SyncRead { source: SyncSource::Legacy, attempts: 1, backup_attempts: 0 });
    assert_eq!(plan_sync_read(false, false), SyncRead { source: SyncSource::Skeleton, attempts: 0, backup_attempts: 0 });
}
