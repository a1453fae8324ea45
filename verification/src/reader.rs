//! The resilient file reader, as a step function. Another program may be
//! rewriting the file while it is read, so a read that fails, or that gives
//! text that is no document, is tried again after a pause that grows with
//! each attempt.
//!
//! The caller reads the file and sleeps; `after_attempt` decides. A caller
//! that has a backup to fall back on runs the same loop on it, with fewer
//! attempts, and hands both results to `settle_read`.

use crate::document::{parse_relaxed, relaxed, Document};
use crate::error::{ErrorView, StoreError};
use vstd::prelude::*;

verus! {

/// The attempts that a read of a primary file is given.
pub const PRIMARY_ATTEMPTS: u32 = 4;

/// The attempts that a read of a backup is given.
pub const BACKUP_ATTEMPTS: u32 = 2;

/// The pause, in milliseconds, after the failed attempt with index
/// `attempt_index`, counted from 0: 120 and 80 more for each earlier attempt.
pub open spec fn backoff(attempt_index: nat) -> nat {
    120 + 80 * attempt_index
}

/// One attempt of a read: its index, counted from 0, and the number of
/// attempts that the read is allowed.
#[derive(Clone, Copy, Debug, PartialEq, Eq)]
pub struct Attempt {
    pub index: u32,
    pub max_attempts: u32,
}

/// What one attempt to read the file gave.
#[derive(Debug, PartialEq, Eq)]
pub enum ReadOutcome {
    /// The file was read; this is its text.
    Text(String),
    /// The file could not be read; this is the platform's description.
    Unreadable(String),
}

/// The mathematical content of a `ReadOutcome`.
pub enum OutcomeView {
    Text(Seq<char>),
    Unreadable(Seq<char>),
}

impl View for ReadOutcome {
    type V = OutcomeView;

    open spec fn view(&self) -> OutcomeView {
        match self {
            ReadOutcome::Text(t) => OutcomeView::Text(t@),
            ReadOutcome::Unreadable(d) => OutcomeView::Unreadable(d@),
        }
    }
}

/// What the reader does after an attempt.
#[derive(Debug, PartialEq, Eq)]
pub enum NextStep {
    /// The read is over: this is the document.
    Done(Document),
    /// Sleep `wait_ms` milliseconds, read again, and report as `attempt`.
    Retry { wait_ms: u64, attempt: Attempt },
    /// The read is over: it failed, with the error of its last attempt.
    GiveUp(StoreError),
}

/// What the reader does after an attempt, in mathematical terms.
pub enum StepView {
    Done(Seq<char>),
    Retry { wait_ms: nat, index: nat },
    GiveUp,
}

/// The document that an attempt gave, by its compact text, if it gave one.
pub open spec fn document_of(outcome: OutcomeView) -> Option<Seq<char>> {
    match outcome {
        OutcomeView::Text(raw) => relaxed(raw),
        OutcomeView::Unreadable(_) => None,
    }
}

/// The step after the attempt with index `index` of `max` has given
/// `outcome`: done, where it gave a document; else a retry after the pause
/// for `index`, where an attempt is left; else failure.
pub open spec fn step(index: nat, max: nat, outcome: OutcomeView) -> StepView {
    match document_of(outcome) {
        Some(doc) => StepView::Done(doc),
        None => if index + 1 < max {
            StepView::Retry { wait_ms: backoff(index), index: index + 1 }
        } else {
            StepView::GiveUp
        },
    }
}

/// A read from its attempt `index` on, where the attempts give `outcomes`
/// in order.
pub struct ReadRun {
    /// The pauses that were slept, in order.
    pub waits: Seq<nat>,
    /// How many times the file was read.
    pub reads: nat,
    /// The document, where the read ended with one.
    pub document: Option<Seq<char>>,
}

/// The read that starts with attempt `index` of `max` and finds `outcomes`.
pub open spec fn run(index: nat, max: nat, outcomes: Seq<OutcomeView>) -> ReadRun
    decreases outcomes.len(),
{
    if outcomes.len() == 0 {
        ReadRun { waits: Seq::empty(), reads: 0, document: None }
    } else {
        match step(index, max, outcomes[0]) {
            StepView::Done(doc) => ReadRun { waits: Seq::empty(), reads: 1, document: Some(doc) },
            StepView::GiveUp => ReadRun { waits: Seq::empty(), reads: 1, document: None },
            StepView::Retry { wait_ms, index: next } => {
                let rest = run(next, max, outcomes.skip(1));
                ReadRun {
                    waits: seq![wait_ms] + rest.waits,
                    reads: 1 + rest.reads,
                    document: rest.document,
                }
            },
        }
    }
}

/// A file that gives no document for `failures` reads and then gives one
/// is read with success where more than `failures` attempts are allowed:
/// the read retries exactly `failures` times, its pauses are those of the
/// attempts 0, 1, 2, ... in order, and no pause is shorter than the one
/// before it.
pub proof fn lemma_retries_until_success(max: nat, outcomes: Seq<OutcomeView>, failures: nat)
    requires
        failures < max,
        failures < outcomes.len(),
        forall|i: int| 0 <= i < failures ==> document_of(#[trigger] outcomes[i]) is None,
        document_of(outcomes[failures as int]) is Some,
    ensures
        run(0, max, outcomes).document == document_of(outcomes[failures as int]),
        run(0, max, outcomes).reads == failures + 1,
        run(0, max, outcomes).waits.len() == failures,
        forall|i: int| 0 <= i < failures ==> run(0, max, outcomes).waits[i] == backoff(i as nat),
        forall|i: int, j: int|
            0 <= i <= j < failures ==> run(0, max, outcomes).waits[i] <= run(
                0,
                max,
                outcomes,
            ).waits[j],
{
    lemma_run_from(0, max, outcomes, failures);
}

/// `lemma_retries_until_success` for a read that starts at any attempt.
proof fn lemma_run_from(index: nat, max: nat, outcomes: Seq<OutcomeView>, failures: nat)
    requires
        index + failures < max,
        failures < outcomes.len(),
        forall|i: int| 0 <= i < failures ==> document_of(#[trigger] outcomes[i]) is None,
        document_of(outcomes[failures as int]) is Some,
    ensures
        run(index, max, outcomes).document == document_of(outcomes[failures as int]),
        run(index, max, outcomes).reads == failures + 1,
        run(index, max, outcomes).waits.len() == failures,
        forall|i: int|
            0 <= i < failures ==> run(index, max, outcomes).waits[i] == backoff(index + i as nat),
    decreases failures,
{
    if failures > 0 {
        let rest = outcomes.skip(1);
        assert(document_of(outcomes[0]) is None);
        assert forall|i: int| 0 <= i < failures - 1 implies document_of(#[trigger] rest[i])
            is None by {
            assert(rest[i] == outcomes[i + 1]);
        }
        assert(rest[failures - 1] == outcomes[failures as int]);
        lemma_run_from(index + 1, max, rest, (failures - 1) as nat);
        let r = run(index, max, outcomes);
        let tail = run(index + 1, max, rest);
        assert forall|i: int| 0 <= i < failures implies r.waits[i] == backoff(
            index + i as nat,
        ) by {
            if i > 0 {
                assert(r.waits[i] == tail.waits[i - 1]);
            }
        }
    }
}

/// A read that finds no document in any of its attempts fails after
/// exactly as many reads as it is allowed.
pub proof fn lemma_exhausted(index: nat, max: nat, outcomes: Seq<OutcomeView>)
    requires
        index < max,
        outcomes.len() >= max - index,
        forall|i: int| 0 <= i < outcomes.len() ==> document_of(#[trigger] outcomes[i]) is None,
    ensures
        run(index, max, outcomes).document is None,
        run(index, max, outcomes).reads == max - index,
        run(index, max, outcomes).waits.len() == max - index - 1,
    decreases max - index,
{
    assert(document_of(outcomes[0]) is None);
    if index + 1 < max {
        let rest = outcomes.skip(1);
        assert forall|i: int| 0 <= i < rest.len() implies document_of(#[trigger] rest[i])
            is None by {
            assert(rest[i] == outcomes[i + 1]);
        }
        lemma_exhausted(index + 1, max, rest);
    }
}

/// A read reads no more often than it is allowed attempts, sleeps less
/// often than that, and never longer at a time than the pause of its last
/// attempt but one: the time that a read can block is bounded by its number
/// of attempts alone.
pub proof fn lemma_waits_bounded(index: nat, max: nat, outcomes: Seq<OutcomeView>)
    ensures
        run(index, max, outcomes).reads <= outcomes.len(),
        index < max ==> run(index, max, outcomes).reads <= max - index,
        index < max ==> run(index, max, outcomes).waits.len() < max - index,
        run(index, max, outcomes).waits.len() <= run(index, max, outcomes).reads,
        forall|i: int|
            0 <= i < run(index, max, outcomes).waits.len() ==> #[trigger] run(
                index,
                max,
                outcomes,
            ).waits[i] + 160 <= backoff(max),
    decreases outcomes.len(),
{
    if outcomes.len() > 0 {
        match step(index, max, outcomes[0]) {
            StepView::Retry { wait_ms, index: next } => {
                lemma_waits_bounded(next, max, outcomes.skip(1));
                let r = run(index, max, outcomes);
                let rest = run(next, max, outcomes.skip(1));
                assert forall|i: int| 0 <= i < r.waits.len() implies #[trigger] r.waits[i] + 160
                    <= backoff(max) by {
                    if i > 0 {
                        assert(r.waits[i] == rest.waits[i - 1]);
                    }
                }
            },
            _ => {},
        }
    }
}

/// The pause, in milliseconds, after the failed attempt with index
/// `attempt_index`.
pub fn backoff_ms(attempt_index: u32) -> (ms: u64)
    ensures
        ms == backoff(attempt_index as nat),
{
    let index: u64 = attempt_index as u64;
    120 + 80 * index
}

/// The first attempt of a read that is allowed `max_attempts` attempts.
/// A read that is allowed none fails at once, with `Io`.
pub fn start_read(max_attempts: u32) -> (r: Result<Attempt, StoreError>)
    ensures
        max_attempts > 0 ==> r == Ok::<Attempt, StoreError>(Attempt { index: 0, max_attempts }),
        max_attempts == 0 ==> r is Err && r->Err_0@ == ErrorView::Io(
            "no read attempt is allowed"@,
        ),
{
    if max_attempts > 0 {
        Ok(Attempt { index: 0, max_attempts })
    } else {
        Err(StoreError::Io("no read attempt is allowed".to_owned()))
    }
}

/// Decides what follows an attempt. Text that reads as a document, strictly
/// or relaxed, ends the read with that document. After any failure the read
/// is tried again while an attempt is left, after the pause for this
/// attempt; the failure of the last attempt ends the read: `Io` with the
/// platform's description where the file could not be read, `Decode` where
/// its text is no document.
pub fn after_attempt(attempt: Attempt, outcome: ReadOutcome) -> (next: NextStep)
    ensures
        match step(attempt.index as nat, attempt.max_attempts as nat, outcome@) {
            StepView::Done(doc) => next is Done && next->Done_0@ == doc,
            StepView::Retry { wait_ms, index } => next == (NextStep::Retry {
                wait_ms: wait_ms as u64,
                attempt: Attempt { index: index as u32, max_attempts: attempt.max_attempts },
            }),
            StepView::GiveUp => next is GiveUp && match outcome@ {
                OutcomeView::Text(_) => next->GiveUp_0 is Decode,
                OutcomeView::Unreadable(d) => next->GiveUp_0@ == ErrorView::Io(d),
            },
        },
{
    let failure = match outcome {
        ReadOutcome::Text(raw) => match parse_relaxed(raw.as_str()) {
            Ok(doc) => {
                return NextStep::Done(doc);
            },
            Err(e) => e,
        },
        ReadOutcome::Unreadable(description) => StoreError::Io(description),
    };
    if attempt.index < attempt.max_attempts && attempt.index + 1 < attempt.max_attempts {
        NextStep::Retry {
            wait_ms: backoff_ms(attempt.index),
            attempt: Attempt { index: attempt.index + 1, max_attempts: attempt.max_attempts },
        }
    } else {
        NextStep::GiveUp(failure)
    }
}

/// The result of a read that has a backup to fall back on, after the read
/// of the primary file has failed with `primary_error`: the document of the
/// backup where its read succeeded, and the primary file's error otherwise.
pub fn settle_read(primary_error: StoreError, backup: Result<Document, StoreError>) -> (r: Result<
    Document,
    StoreError,
>)
    ensures
        match backup {
            Ok(doc) => r == Ok::<Document, StoreError>(doc),
            Err(_) => r == Err::<Document, StoreError>(primary_error),
        },
{
    match backup {
        Ok(doc) => Ok(doc),
        Err(_) => Err(primary_error),
    }
}

} // verus!
