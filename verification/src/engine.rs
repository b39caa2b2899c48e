//! The engine as a state machine. An operation is a chain of steps: each step either asks
//! the store for one thing and says what the engine waits for, or ends the operation with its
//! outcome. Whoever holds the connection performs the request and resumes the engine with the
//! answer.

use crate::codec::i64_le;
use crate::error::Failure;
use crate::handle::{base64_bytes, base64_fits, base64_text};
use crate::janitor::{
    active_sweep, active_swept, claims_to_check, orphan_clears, ttl_sweep, ttl_swept, ClaimInfo,
    ClaimInfoView,
};
use crate::job::{decode_job_spec, ClaimedJob, ClaimedJobView};
use crate::json::json_encoded;
use crate::keys::{
    claim_key_with_versionstamp, claims_prefix, end_key_spec, next_key_spec, ttl_index_prefix_until,
    ACTIVE_CRAWL_TAG, ACTIVE_TAG, CLAIMS_TAG, TTL_INDEX_TAG, CounterKind,
};
use crate::plan::{counter_add, job_removal};
use crate::pop::{
    candidates_of, claimant, expired_cleanup, expired_of, is_claim_document, Candidate,
    CandidateView,
};
use crate::scan::{active_ids, counter_ids, counter_value, live_count, queued_ids};
use crate::store::{keys_view, Answer, Change, Entry, Query, Request, Txn};
use vstd::prelude::*;
use vstd::utf8::encode_utf8;

verus! {

/// The most entries that a batch of a pop or of a sweep holds.
pub const BATCH: usize = 100;

/// The most batches that one call of a sweep goes through.
pub const MAX_ROUNDS: u32 = 10;

/// How an operation ended.
#[derive(Debug)]
pub enum Outcome {
    /// It is done and has nothing to say.
    Unit,
    /// Whether there was something to do.
    Flag(bool),
    /// A count: of a counter, of what a sweep cleared, or the correction of a counter.
    Count(i64),
    /// Ids, in key order.
    Ids(Vec<String>),
    /// The job that the worker has won, if it has won one.
    Job(Option<ClaimedJob>),
}

/// An outcome, as the contracts speak of it.
pub enum OutcomeView {
    Unit,
    Flag(bool),
    Count(i64),
    Ids(Seq<Seq<char>>),
    Job(Option<ClaimedJobView>),
}

impl DeepView for Outcome {
    type V = OutcomeView;

    open spec fn deep_view(&self) -> OutcomeView {
        match self {
            Outcome::Unit => OutcomeView::Unit,
            Outcome::Flag(b) => OutcomeView::Flag(*b),
            Outcome::Count(n) => OutcomeView::Count(*n),
            Outcome::Ids(ids) => OutcomeView::Ids(ids.deep_view()),
            Outcome::Job(job) => OutcomeView::Job(job.deep_view()),
        }
    }
}

/// A pop under way: the worker, the time of the scan, the jobs it may try, and the one that
/// it is trying.
#[derive(Debug)]
pub struct PopState {
    pub worker_id: String,
    pub now: i64,
    pub candidates: Vec<Candidate>,
    pub next: usize,
}

/// A pop under way, as the contracts speak of it.
pub struct PopView {
    pub worker: Seq<char>,
    pub now: i64,
    pub candidates: Seq<CandidateView>,
    pub next: usize,
}

impl DeepView for PopState {
    type V = PopView;

    open spec fn deep_view(&self) -> PopView {
        PopView {
            worker: self.worker_id@,
            now: self.now,
            candidates: self.candidates.deep_view(),
            next: self.next,
        }
    }
}

/// A sweep of orphaned claims in the middle of a batch: the claims of the batch, the one
/// whose job is being looked up, and the orphans found so far.
#[derive(Debug)]
pub struct OrphanState {
    pub round: u32,
    pub cleaned: i64,
    pub full: bool,
    pub asked: bool,
    pub claims: Vec<ClaimInfo>,
    pub next: usize,
    pub orphans: Vec<Vec<u8>>,
    /// The last key of the batch, after which the next batch begins.
    pub last: Vec<u8>,
}

/// A sweep of orphaned claims in the middle of a batch, as the contracts speak of it.
pub struct OrphanView {
    pub round: u32,
    pub cleaned: i64,
    pub full: bool,
    pub asked: bool,
    pub claims: Seq<ClaimInfoView>,
    pub next: usize,
    pub orphans: Seq<Seq<u8>>,
    pub last: Seq<u8>,
}

impl DeepView for OrphanState {
    type V = OrphanView;

    open spec fn deep_view(&self) -> OrphanView {
        OrphanView {
            round: self.round,
            cleaned: self.cleaned,
            full: self.full,
            asked: self.asked,
            claims: self.claims.deep_view(),
            next: self.next,
            orphans: keys_view(self.orphans@),
            last: self.last@,
        }
    }
}

/// What the engine waits for, and what it goes on with.
#[derive(Debug)]
pub enum Pending {
    /// A commit, after which the operation ends with `outcome`.
    Finish { outcome: Outcome },
    /// The value of a counter; `floor` says that a negative count reads as zero.
    Counter { floor: bool },
    /// The probe of a health check.
    Health,
    /// The scan of a team's queue, for the ids of its jobs.
    QueuedIds { limit: usize },
    /// The scan of the active jobs of a team or a crawl, for the ids of those that have not
    /// expired at `now`.
    ActiveIds { prefix_len: usize, now: i64 },
    /// The scan of counter keys, for their ids.
    CounterIds { limit: usize },
    /// The lookup of an active entry that is to be removed.
    RemoveActive { key: Vec<u8>, kind: CounterKind, owner: String },
    /// The lookup of the record of a job that is to be completed.
    Complete { queue_key: Vec<u8> },
    /// The scan of what a counter counts; with `live_after`, only entries that expire after
    /// that time count.
    ReconcileScan { counter_key: Vec<u8>, live_after: Option<i64>, limit: usize },
    /// The value of the counter that is reconciled.
    ReconcileRead { counter_key: Vec<u8>, actual: i64 },
    /// A batch of expiry entries.
    ExpiredJobs { now: i64, round: u32, cleaned: i64 },
    /// The commit of a batch of expired jobs; `last` is the last key of the batch.
    ExpiredJobsCommitted { now: i64, round: u32, cleaned: i64, full: bool, last: Vec<u8> },
    /// A batch of active entries, of teams or of crawls.
    ExpiredActive { now: i64, crawl: bool, round: u32, cleaned: i64 },
    /// The commit of a batch of expired active entries; `last` is the last key of the batch.
    ExpiredActiveCommitted {
        now: i64,
        crawl: bool,
        round: u32,
        cleaned: i64,
        full: bool,
        last: Vec<u8>,
    },
    /// A batch of claims.
    OrphanScan { round: u32, cleaned: i64 },
    /// The record of the job that a claim refers to.
    OrphanCheck { sweep: OrphanState },
    /// The commit of a batch of orphaned claims; `last` is the last key of the batch.
    OrphanCommitted { round: u32, cleaned: i64, full: bool, last: Vec<u8> },
    /// The scan of the queue of the team that is popped.
    PopScan { team_id: String, worker_id: String, blocked: Vec<String>, now: i64 },
    /// The commit, at best effort, that clears the expired jobs of the scan.
    PopCleanup { pop: PopState },
    /// The probe for claims on the job that the worker tries.
    PopProbe { pop: PopState },
    /// The commit of the worker's claim.
    PopClaim { pop: PopState, handle: String },
    /// The first claim on the job, which is the winner's.
    PopVerify { pop: PopState, handle: String },
}

/// What the engine waits for, as the contracts speak of it.
pub enum PendingView {
    Finish { outcome: OutcomeView },
    Counter { floor: bool },
    Health,
    QueuedIds { limit: usize },
    ActiveIds { prefix_len: usize, now: i64 },
    CounterIds { limit: usize },
    RemoveActive { key: Seq<u8>, kind: CounterKind, owner: Seq<char> },
    Complete { queue_key: Seq<u8> },
    ReconcileScan { counter_key: Seq<u8>, live_after: Option<i64>, limit: usize },
    ReconcileRead { counter_key: Seq<u8>, actual: i64 },
    ExpiredJobs { now: i64, round: u32, cleaned: i64 },
    ExpiredJobsCommitted { now: i64, round: u32, cleaned: i64, full: bool, last: Seq<u8> },
    ExpiredActive { now: i64, crawl: bool, round: u32, cleaned: i64 },
    ExpiredActiveCommitted {
        now: i64,
        crawl: bool,
        round: u32,
        cleaned: i64,
        full: bool,
        last: Seq<u8>,
    },
    OrphanScan { round: u32, cleaned: i64 },
    OrphanCheck { sweep: OrphanView },
    OrphanCommitted { round: u32, cleaned: i64, full: bool, last: Seq<u8> },
    PopScan { team: Seq<char>, worker: Seq<char>, blocked: Seq<Seq<char>>, now: i64 },
    PopCleanup { pop: PopView },
    PopProbe { pop: PopView },
    PopClaim { pop: PopView, handle: Seq<char> },
    PopVerify { pop: PopView, handle: Seq<char> },
}

impl DeepView for Pending {
    type V = PendingView;

    open spec fn deep_view(&self) -> PendingView {
        match self {
            Pending::Finish { outcome } => PendingView::Finish { outcome: outcome.deep_view() },
            Pending::Counter { floor } => PendingView::Counter { floor: *floor },
            Pending::Health => PendingView::Health,
            Pending::QueuedIds { limit } => PendingView::QueuedIds { limit: *limit },
            Pending::ActiveIds { prefix_len, now } => PendingView::ActiveIds {
                prefix_len: *prefix_len,
                now: *now,
            },
            Pending::CounterIds { limit } => PendingView::CounterIds { limit: *limit },
            Pending::RemoveActive { key, kind, owner } => PendingView::RemoveActive {
                key: key@,
                kind: *kind,
                owner: owner@,
            },
            Pending::Complete { queue_key } => PendingView::Complete { queue_key: queue_key@ },
            Pending::ReconcileScan { counter_key, live_after, limit } => PendingView::ReconcileScan {
                counter_key: counter_key@,
                live_after: *live_after,
                limit: *limit,
            },
            Pending::ReconcileRead { counter_key, actual } => PendingView::ReconcileRead {
                counter_key: counter_key@,
                actual: *actual,
            },
            Pending::ExpiredJobs { now, round, cleaned } => PendingView::ExpiredJobs {
                now: *now,
                round: *round,
                cleaned: *cleaned,
            },
            Pending::ExpiredJobsCommitted { now, round, cleaned, full, last } => {
                PendingView::ExpiredJobsCommitted {
                    now: *now,
                    round: *round,
                    cleaned: *cleaned,
                    full: *full,
                    last: last@,
                }
            },
            Pending::ExpiredActive { now, crawl, round, cleaned } => PendingView::ExpiredActive {
                now: *now,
                crawl: *crawl,
                round: *round,
                cleaned: *cleaned,
            },
            Pending::ExpiredActiveCommitted { now, crawl, round, cleaned, full, last } => {
                PendingView::ExpiredActiveCommitted {
                    now: *now,
                    crawl: *crawl,
                    round: *round,
                    cleaned: *cleaned,
                    full: *full,
                    last: last@,
                }
            },
            Pending::OrphanScan { round, cleaned } => PendingView::OrphanScan {
                round: *round,
                cleaned: *cleaned,
            },
            Pending::OrphanCheck { sweep } => PendingView::OrphanCheck { sweep: sweep.deep_view() },
            Pending::OrphanCommitted { round, cleaned, full, last } => {
                PendingView::OrphanCommitted {
                    round: *round,
                    cleaned: *cleaned,
                    full: *full,
                    last: last@,
                }
            },
            Pending::PopScan { team_id, worker_id, blocked, now } => PendingView::PopScan {
                team: team_id@,
                worker: worker_id@,
                blocked: blocked.deep_view(),
                now: *now,
            },
            Pending::PopCleanup { pop } => PendingView::PopCleanup { pop: pop.deep_view() },
            Pending::PopProbe { pop } => PendingView::PopProbe { pop: pop.deep_view() },
            Pending::PopClaim { pop, handle } => PendingView::PopClaim {
                pop: pop.deep_view(),
                handle: handle@,
            },
            Pending::PopVerify { pop, handle } => PendingView::PopVerify {
                pop: pop.deep_view(),
                handle: handle@,
            },
        }
    }
}

/// One step of an operation.
#[derive(Debug)]
pub enum Step {
    /// The engine asks the store for something and waits for the answer.
    Ask(Request, Pending),
    /// The operation has ended.
    Done(Outcome),
}

/// A step, as the contracts speak of it.
pub enum StepView {
    Ask(Query, PendingView),
    Done(OutcomeView),
}

impl DeepView for Step {
    type V = StepView;

    open spec fn deep_view(&self) -> StepView {
        match self {
            Step::Ask(request, pending) => StepView::Ask(request.deep_view(), pending.deep_view()),
            Step::Done(outcome) => StepView::Done(outcome.deep_view()),
        }
    }
}

/// A scan of all keys under a prefix.
pub open spec fn scan_under(prefix: Seq<u8>, limit: usize, snapshot: bool) -> Query {
    Query::GetRange { begin: prefix, end: end_key_spec(prefix), limit, snapshot, txn: Txn::Fresh }
}

/// A commit in a transaction of its own, whose failure ends the operation.
pub open spec fn commit_of(changes: Seq<Change>) -> Query {
    Query::Commit { changes, best_effort: false, txn: Txn::Fresh }
}

/// A commit of the transaction that the request before it has read in.
pub open spec fn commit_here(changes: Seq<Change>) -> Query {
    Query::Commit { changes, best_effort: false, txn: Txn::Current }
}

/// A count after `n` more, where that still fits.
pub open spec fn bumped(count: i64, n: nat) -> Option<i64> {
    if count + n <= i64::MAX {
        Some((count + n) as i64)
    } else {
        None
    }
}

/// After the commit that ends an operation.
pub open spec fn after_finish(outcome: OutcomeView, answer: Answer) -> Result<StepView, Failure> {
    match answer {
        Answer::Committed => Ok(StepView::Done(outcome)),
        _ => Err(Failure::Other),
    }
}

/// After the lookup of a counter: its value, zero where it is missing, and where `floor` is
/// set zero where it is negative.
pub open spec fn after_counter(floor: bool, answer: Answer) -> Result<StepView, Failure> {
    match answer {
        Answer::Value(stored) => {
            let n = counter_value(stored);
            Ok(StepView::Done(OutcomeView::Count(if floor && n < 0 { 0 } else { n })))
        },
        _ => Err(Failure::Other),
    }
}

/// After the probe of a health check: the store has answered.
pub open spec fn after_health(answer: Answer) -> Result<StepView, Failure> {
    match answer {
        Answer::Value(_) => Ok(StepView::Done(OutcomeView::Flag(true))),
        _ => Err(Failure::Other),
    }
}

/// After the scan of a team's queue.
pub open spec fn after_queued_ids(limit: usize, answer: Answer) -> Result<StepView, Failure> {
    match answer {
        Answer::Range(entries) => if entries.len() > limit {
            Err(Failure::Other)
        } else {
            Ok(StepView::Done(OutcomeView::Ids(queued_ids(entries))))
        },
        _ => Err(Failure::Other),
    }
}

/// After the scan of active entries.
pub open spec fn after_active_ids(prefix_len: usize, now: i64, answer: Answer) -> Result<
    StepView,
    Failure,
> {
    match answer {
        Answer::Range(entries) => Ok(
            StepView::Done(OutcomeView::Ids(active_ids(entries, prefix_len as int, now))),
        ),
        _ => Err(Failure::Other),
    }
}

/// After the scan of counter keys.
pub open spec fn after_counter_ids(limit: usize, answer: Answer) -> Result<StepView, Failure> {
    match answer {
        Answer::Range(entries) => if entries.len() > limit {
            Err(Failure::Other)
        } else {
            Ok(StepView::Done(OutcomeView::Ids(counter_ids(entries))))
        },
        _ => Err(Failure::Other),
    }
}

/// After the lookup of an active entry: where it is there, it is cleared and its owner's
/// counter goes down by one; where it is not, nothing changes. Either way the transaction
/// that has read it is committed.
pub open spec fn after_remove_active(
    key: Seq<u8>,
    kind: CounterKind,
    owner: Seq<char>,
    answer: Answer,
) -> Result<StepView, Failure> {
    match answer {
        Answer::Value(stored) => Ok(
            StepView::Ask(
                commit_here(
                    if stored.is_some() {
                        seq![
                            Change::Clear { key },
                            counter_add(kind, encode_utf8(owner), -1),
                        ]
                    } else {
                        Seq::empty()
                    },
                ),
                PendingView::Finish { outcome: OutcomeView::Unit },
            ),
        ),
        _ => Err(Failure::Other),
    }
}

/// After the lookup of the record of a job that is to be completed: where there is none the
/// answer is `false` and nothing changes; else the transaction that has read the record
/// takes the job out of the queue and clears every claim on it, so that of two completions
/// that have both read the record the store commits one.
pub open spec fn after_complete(queue_key: Seq<u8>, answer: Answer) -> Result<StepView, Failure> {
    match answer {
        Answer::Value(None) => Ok(StepView::Done(OutcomeView::Flag(false))),
        Answer::Value(Some(bytes)) => match decode_job_spec(bytes) {
            Some(job) => Ok(
                StepView::Ask(
                    commit_here(
                        job_removal(queue_key, encode_utf8(job.team_id), job).push(
                            Change::ClearRange {
                                begin: claims_prefix(encode_utf8(job.id)),
                                end: end_key_spec(claims_prefix(encode_utf8(job.id))),
                            },
                        ),
                    ),
                    PendingView::Finish { outcome: OutcomeView::Flag(true) },
                ),
            ),
            None => Err(Failure::Serialization),
        },
        _ => Err(Failure::Other),
    }
}

/// After the scan of what a counter counts.
pub open spec fn after_reconcile_scan(
    counter_key: Seq<u8>,
    live_after: Option<i64>,
    limit: usize,
    answer: Answer,
) -> Result<StepView, Failure> {
    match answer {
        Answer::Range(entries) => {
            let actual = match live_after {
                Some(now) => live_count(entries, now),
                None => entries.len(),
            };
            if entries.len() > limit || actual > i64::MAX {
                Err(Failure::Other)
            } else {
                Ok(
                    StepView::Ask(
                        Query::Get { key: counter_key, snapshot: false, txn: Txn::Current },
                        PendingView::ReconcileRead { counter_key, actual: actual as i64 },
                    ),
                )
            }
        },
        _ => Err(Failure::Other),
    }
}

/// After the lookup of the counter that is reconciled: where it holds the count, nothing
/// changes and the correction is zero; else the count is written over it and the correction
/// is the difference.
pub open spec fn after_reconcile_read(counter_key: Seq<u8>, actual: i64, answer: Answer) -> Result<
    StepView,
    Failure,
> {
    match answer {
        Answer::Value(stored) => {
            let current = counter_value(stored);
            if actual == current {
                Ok(StepView::Done(OutcomeView::Count(0)))
            } else if i64::MIN <= actual - current <= i64::MAX {
                Ok(
                    StepView::Ask(
                        commit_of(seq![Change::Put { key: counter_key, value: i64_le(actual) }]),
                        PendingView::Finish {
                            outcome: OutcomeView::Count((actual - current) as i64),
                        },
                    ),
                )
            } else {
                Err(Failure::Other)
            }
        },
        _ => Err(Failure::Other),
    }
}

/// The key of the last entry of a batch, after which the next batch begins.
pub open spec fn last_key(entries: Seq<Entry>) -> Seq<u8> {
    if entries.len() > 0 {
        entries.last().key
    } else {
        Seq::empty()
    }
}

/// The scan of the next batch of a subspace: from the key after the last key of the batch
/// before it to the end of the subspace.
pub open spec fn next_page(prefix: Seq<u8>, last: Seq<u8>) -> Query {
    Query::GetRange {
        begin: next_key_spec(last),
        end: end_key_spec(prefix),
        limit: BATCH,
        snapshot: false,
        txn: Txn::Fresh,
    }
}

/// The scan of the next batch of the expiry entries of the jobs that have expired before
/// `now`: from the key after the last key of the batch before it.
pub open spec fn expired_jobs_next(now: i64, last: Seq<u8>) -> Query {
    Query::GetRange {
        begin: next_key_spec(last),
        end: ttl_index_prefix_until(now),
        limit: BATCH,
        snapshot: false,
        txn: Txn::Fresh,
    }
}

/// The scan of the expiry entries of the jobs that have expired before `now`.
pub open spec fn expired_jobs_scan(now: i64) -> Query {
    Query::GetRange {
        begin: seq![TTL_INDEX_TAG],
        end: ttl_index_prefix_until(now),
        limit: BATCH,
        snapshot: false,
        txn: Txn::Fresh,
    }
}

/// After a batch of expiry entries: an empty batch ends the sweep; else the transaction that
/// has read the batch clears its jobs.
pub open spec fn after_expired_jobs(now: i64, round: u32, cleaned: i64, answer: Answer) -> Result<
    StepView,
    Failure,
> {
    match answer {
        Answer::Range(entries) => if entries.len() > BATCH {
            Err(Failure::Other)
        } else if entries.len() == 0 {
            Ok(StepView::Done(OutcomeView::Count(cleaned)))
        } else {
            match bumped(cleaned, ttl_swept(entries)) {
                Some(count) => Ok(
                    StepView::Ask(
                        commit_here(ttl_sweep(entries)),
                        PendingView::ExpiredJobsCommitted {
                            now,
                            round,
                            cleaned: count,
                            full: entries.len() == BATCH,
                            last: last_key(entries),
                        },
                    ),
                ),
                None => Err(Failure::Other),
            }
        },
        _ => Err(Failure::Other),
    }
}

/// Whether a sweep goes on to another batch: the last one was full, and the sweep has
/// batches left.
pub open spec fn goes_on(round: u32, full: bool) -> bool {
    full && round + 1 < MAX_ROUNDS
}

/// After the commit of a batch of expired jobs: where the batch was full and the sweep has
/// batches left, the next batch, which begins after the last key of this one.
pub open spec fn after_expired_jobs_committed(
    now: i64,
    round: u32,
    cleaned: i64,
    full: bool,
    last: Seq<u8>,
    answer: Answer,
) -> Result<StepView, Failure> {
    match answer {
        Answer::Committed => if goes_on(round, full) {
            Ok(
                StepView::Ask(
                    expired_jobs_next(now, last),
                    PendingView::ExpiredJobs { now, round: (round + 1) as u32, cleaned },
                ),
            )
        } else {
            Ok(StepView::Done(OutcomeView::Count(cleaned)))
        },
        _ => Err(Failure::Other),
    }
}

/// The tag of the active entries of teams or of crawls.
pub open spec fn active_tag(crawl: bool) -> u8 {
    if crawl {
        ACTIVE_CRAWL_TAG
    } else {
        ACTIVE_TAG
    }
}

/// The counter that counts the active entries of teams or of crawls.
pub open spec fn active_kind(crawl: bool) -> CounterKind {
    if crawl {
        CounterKind::CrawlActive
    } else {
        CounterKind::TeamActive
    }
}

/// After a batch of active entries: the transaction that has read the batch clears the
/// expired among them.
pub open spec fn after_expired_active(
    now: i64,
    crawl: bool,
    round: u32,
    cleaned: i64,
    answer: Answer,
) -> Result<StepView, Failure> {
    match answer {
        Answer::Range(entries) => if entries.len() > BATCH {
            Err(Failure::Other)
        } else {
            match bumped(cleaned, active_swept(entries, now)) {
                Some(count) => Ok(
                    StepView::Ask(
                        commit_here(active_sweep(entries, active_kind(crawl), now)),
                        PendingView::ExpiredActiveCommitted {
                            now,
                            crawl,
                            round,
                            cleaned: count,
                            full: entries.len() == BATCH,
                            last: last_key(entries),
                        },
                    ),
                ),
                None => Err(Failure::Other),
            }
        },
        _ => Err(Failure::Other),
    }
}

/// After the commit of a batch of expired active entries: the next batch, which begins
/// after the last key of this one, or from the teams on to the crawls, or the end.
pub open spec fn after_expired_active_committed(
    now: i64,
    crawl: bool,
    round: u32,
    cleaned: i64,
    full: bool,
    last: Seq<u8>,
    answer: Answer,
) -> Result<StepView, Failure> {
    match answer {
        Answer::Committed => if goes_on(round, full) {
            Ok(
                StepView::Ask(
                    next_page(seq![active_tag(crawl)], last),
                    PendingView::ExpiredActive { now, crawl, round: (round + 1) as u32, cleaned },
                ),
            )
        } else if !crawl {
            Ok(
                StepView::Ask(
                    scan_under(seq![ACTIVE_CRAWL_TAG], BATCH, false),
                    PendingView::ExpiredActive { now, crawl: true, round: 0, cleaned },
                ),
            )
        } else {
            Ok(StepView::Done(OutcomeView::Count(cleaned)))
        },
        _ => Err(Failure::Other),
    }
}

/// The end of a batch of a sweep of claims: the next batch, which begins after the last
/// key of this one, or the end.
pub open spec fn orphan_round_end(round: u32, cleaned: i64, full: bool, last: Seq<u8>) -> StepView {
    if goes_on(round, full) {
        StepView::Ask(
            next_page(seq![CLAIMS_TAG], last),
            PendingView::OrphanScan { round: (round + 1) as u32, cleaned },
        )
    } else {
        StepView::Done(OutcomeView::Count(cleaned))
    }
}

/// The first claim from `next` on whose value refers to a queue key, and the orphans with
/// the claims before it, which refer to none.
pub open spec fn skip_unkeyed(claims: Seq<ClaimInfoView>, next: int, orphans: Seq<Seq<u8>>) -> (
    int,
    Seq<Seq<u8>>,
)
    decreases claims.len() - next,
{
    if 0 <= next < claims.len() && claims[next].queue_key.is_none() {
        skip_unkeyed(claims, next + 1, orphans.push(claims[next].claim_key))
    } else {
        (next, orphans)
    }
}

/// A sweep of claims goes on within its batch: it looks up the job of the next claim that
/// refers to one, and at the end of the batch clears the orphans it has found.
pub open spec fn orphan_advance(sweep: OrphanView) -> Result<StepView, Failure> {
    let (next, orphans) = skip_unkeyed(sweep.claims, sweep.next as int, sweep.orphans);
    if next < sweep.claims.len() {
        Ok(
            StepView::Ask(
                Query::Get {
                    key: sweep.claims[next].queue_key.unwrap(),
                    snapshot: true,
                    txn: if sweep.asked {
                        Txn::Current
                    } else {
                        Txn::Fresh
                    },
                },
                PendingView::OrphanCheck {
                    sweep: OrphanView { next: next as usize, orphans, asked: true, ..sweep },
                },
            ),
        )
    } else if orphans.len() == 0 {
        Ok(orphan_round_end(sweep.round, sweep.cleaned, sweep.full, sweep.last))
    } else {
        match bumped(sweep.cleaned, orphans.len()) {
            Some(count) => Ok(
                StepView::Ask(
                    commit_of(orphan_clears(orphans)),
                    PendingView::OrphanCommitted {
                        round: sweep.round,
                        cleaned: count,
                        full: sweep.full,
                        last: sweep.last,
                    },
                ),
            ),
            None => Err(Failure::Other),
        }
    }
}

/// After a batch of claims: the sweep looks into the claims of the batch, or goes on to the
/// next batch where it holds no claim.
pub open spec fn after_orphan_scan(round: u32, cleaned: i64, answer: Answer) -> Result<
    StepView,
    Failure,
> {
    match answer {
        Answer::Range(entries) => if entries.len() > BATCH {
            Err(Failure::Other)
        } else if claims_to_check(entries).len() == 0 {
            Ok(orphan_round_end(round, cleaned, entries.len() == BATCH, last_key(entries)))
        } else {
            orphan_advance(
                OrphanView {
                    round,
                    cleaned,
                    full: entries.len() == BATCH,
                    asked: false,
                    claims: claims_to_check(entries),
                    next: 0,
                    orphans: Seq::empty(),
                    last: last_key(entries),
                },
            )
        },
        _ => Err(Failure::Other),
    }
}

/// After the lookup of the job that a claim refers to: where there is no record, the claim
/// is an orphan.
pub open spec fn after_orphan_check(sweep: OrphanView, answer: Answer) -> Result<
    StepView,
    Failure,
> {
    match answer {
        Answer::Value(stored) => if sweep.next < sweep.claims.len() {
            orphan_advance(
                OrphanView {
                    next: (sweep.next + 1) as usize,
                    orphans: if stored.is_none() {
                        sweep.orphans.push(sweep.claims[sweep.next as int].claim_key)
                    } else {
                        sweep.orphans
                    },
                    ..sweep
                },
            )
        } else {
            Err(Failure::Other)
        },
        _ => Err(Failure::Other),
    }
}

/// After the commit of a batch of orphaned claims.
pub open spec fn after_orphan_committed(
    round: u32,
    cleaned: i64,
    full: bool,
    last: Seq<u8>,
    answer: Answer,
) -> Result<StepView, Failure> {
    match answer {
        Answer::Committed => Ok(orphan_round_end(round, cleaned, full, last)),
        _ => Err(Failure::Other),
    }
}

/// The job that a pop tries.
pub open spec fn current(pop: PopView) -> CandidateView {
    pop.candidates[pop.next as int]
}

/// The probe for the claims on a job: the first key under its claims prefix.
pub open spec fn claims_probe(job_id: Seq<char>) -> Query {
    scan_under(claims_prefix(encode_utf8(job_id)), 1, true)
}

/// A pop turns to the job at `next`: it probes for claims on it, or ends with nothing where
/// no job is left.
pub open spec fn pop_try(pop: PopView) -> StepView {
    if pop.next < pop.candidates.len() {
        StepView::Ask(claims_probe(current(pop).job.id), PendingView::PopProbe { pop })
    } else {
        StepView::Done(OutcomeView::Job(None))
    }
}

/// A pop leaves the job that it has tried and turns to the one after it.
pub open spec fn pop_skip(pop: PopView) -> StepView {
    pop_try(PopView { next: (pop.next + 1) as usize, ..pop })
}

/// After the scan of a team's queue: the expired jobs of the scan are cleared at best
/// effort, and the pop turns to the first job that is fresh and of no blocked crawl.
pub open spec fn after_pop_scan(
    team: Seq<char>,
    worker: Seq<char>,
    blocked: Seq<Seq<char>>,
    now: i64,
    answer: Answer,
) -> Result<StepView, Failure> {
    match answer {
        Answer::Range(entries) => if entries.len() > BATCH {
            Err(Failure::Other)
        } else if entries.len() == 0 {
            Ok(StepView::Done(OutcomeView::Job(None)))
        } else {
            let pop = PopView {
                worker,
                now,
                candidates: candidates_of(entries, blocked, now),
                next: 0,
            };
            let expired = expired_of(entries, now);
            if expired.len() > 0 {
                Ok(
                    StepView::Ask(
                        Query::Commit {
                            changes: expired_cleanup(encode_utf8(team), expired),
                            best_effort: true,
                            txn: Txn::Fresh,
                        },
                        PendingView::PopCleanup { pop },
                    ),
                )
            } else {
                Ok(pop_try(pop))
            }
        },
        _ => Err(Failure::Other),
    }
}

/// After the clearing of expired jobs, whether it was committed or not.
pub open spec fn after_pop_cleanup(pop: PopView, answer: Answer) -> Result<StepView, Failure> {
    match answer {
        Answer::Committed => Ok(pop_try(pop)),
        Answer::CommitFailed => Ok(pop_try(pop)),
        _ => Err(Failure::Other),
    }
}

/// The commit of a claim of `worker` on `job`, with `value` as the claim's value.
pub open spec fn claim_commit(job_id: Seq<char>, worker: Seq<char>, value: Seq<u8>) -> Query {
    commit_of(
        seq![
            Change::SetVersionstampedKey {
                key: claim_key_with_versionstamp(encode_utf8(job_id), encode_utf8(worker)),
                value,
            },
        ],
    )
}

/// Whether `result` is what follows the probe for claims on the job that a pop tries. Where
/// a claim is there already, the pop turns to the next job. Else it submits a claim of its
/// own, whose value is the document of the claim as `serde_json` writes it; the handle in it
/// is the job's queue key in base64, which reads back as the key.
pub open spec fn follows_pop_probe(pop: PopView, answer: Answer, result: Result<StepView, Failure>) -> bool {
    match answer {
        Answer::Range(entries) => if entries.len() > 1 || pop.next >= pop.candidates.len() {
            result == Err::<StepView, Failure>(Failure::Other)
        } else if entries.len() > 0 {
            result == Ok::<StepView, Failure>(pop_skip(pop))
        } else if !base64_fits(current(pop).queue_key.len()) {
            result == Err::<StepView, Failure>(Failure::Other)
        } else {
            let handle = base64_text(current(pop).queue_key);
            base64_bytes(handle) == Some(current(pop).queue_key) && exists|doc: serde_json::Value|
                #![trigger is_claim_document(doc, pop.worker, handle, pop.now)]
                is_claim_document(doc, pop.worker, handle, pop.now) && result == (
                match json_encoded(doc) {
                    Some(value) => Ok::<StepView, Failure>(
                        StepView::Ask(
                            claim_commit(current(pop).job.id, pop.worker, value),
                            PendingView::PopClaim { pop, handle },
                        ),
                    ),
                    None => Err::<StepView, Failure>(Failure::Serialization),
                })
        },
        _ => result == Err::<StepView, Failure>(Failure::Other),
    }
}

/// After the commit of a claim: the pop reads the first claim on the job.
pub open spec fn after_pop_claim(pop: PopView, handle: Seq<char>, answer: Answer) -> Result<
    StepView,
    Failure,
> {
    match answer {
        Answer::Committed => if pop.next < pop.candidates.len() {
            Ok(
                StepView::Ask(
                    claims_probe(current(pop).job.id),
                    PendingView::PopVerify { pop, handle },
                ),
            )
        } else {
            Err(Failure::Other)
        },
        _ => Err(Failure::Other),
    }
}

/// After the first claim on the job is read: the worker has won the job exactly where that
/// claim names it. Where it names another, or none is there, the pop turns to the next job.
pub open spec fn after_pop_verify(pop: PopView, handle: Seq<char>, answer: Answer) -> Result<
    StepView,
    Failure,
> {
    match answer {
        Answer::Range(entries) => if entries.len() > 1 || pop.next >= pop.candidates.len() {
            Err(Failure::Other)
        } else if entries.len() == 0 {
            Ok(pop_skip(pop))
        } else {
            match claimant(entries[0].value) {
                Some(winner) => if winner == Some(pop.worker) {
                    Ok(
                        StepView::Done(
                            OutcomeView::Job(
                                Some(ClaimedJobView { job: current(pop).job, queue_key: handle }),
                            ),
                        ),
                    )
                } else {
                    Ok(pop_skip(pop))
                },
                None => Err(Failure::Serialization),
            }
        },
        _ => Err(Failure::Other),
    }
}

/// Whether `result` is what follows when the engine, waiting as `pending` says, is resumed
/// with `answer`. An answer of a kind that the engine does not wait for, or a range longer
/// than the limit asked for, is a failure.
pub open spec fn follows(pending: PendingView, answer: Answer, result: Result<StepView, Failure>) -> bool {
    match pending {
        PendingView::Finish { outcome } => result == after_finish(outcome, answer),
        PendingView::Counter { floor } => result == after_counter(floor, answer),
        PendingView::Health => result == after_health(answer),
        PendingView::QueuedIds { limit } => result == after_queued_ids(limit, answer),
        PendingView::ActiveIds { prefix_len, now } => result == after_active_ids(
            prefix_len,
            now,
            answer,
        ),
        PendingView::CounterIds { limit } => result == after_counter_ids(limit, answer),
        PendingView::RemoveActive { key, kind, owner } => result == after_remove_active(
            key,
            kind,
            owner,
            answer,
        ),
        PendingView::Complete { queue_key } => result == after_complete(queue_key, answer),
        PendingView::ReconcileScan { counter_key, live_after, limit } => result
            == after_reconcile_scan(counter_key, live_after, limit, answer),
        PendingView::ReconcileRead { counter_key, actual } => result == after_reconcile_read(
            counter_key,
            actual,
            answer,
        ),
        PendingView::ExpiredJobs { now, round, cleaned } => result == after_expired_jobs(
            now,
            round,
            cleaned,
            answer,
        ),
        PendingView::ExpiredJobsCommitted { now, round, cleaned, full, last } => result
            == after_expired_jobs_committed(now, round, cleaned, full, last, answer),
        PendingView::ExpiredActive { now, crawl, round, cleaned } => result
            == after_expired_active(now, crawl, round, cleaned, answer),
        PendingView::ExpiredActiveCommitted { now, crawl, round, cleaned, full, last } => result
            == after_expired_active_committed(now, crawl, round, cleaned, full, last, answer),
        PendingView::OrphanScan { round, cleaned } => result == after_orphan_scan(
            round,
            cleaned,
            answer,
        ),
        PendingView::OrphanCheck { sweep } => result == after_orphan_check(sweep, answer),
        PendingView::OrphanCommitted { round, cleaned, full, last } => result
            == after_orphan_committed(round, cleaned, full, last, answer),
        PendingView::PopScan { team, worker, blocked, now } => result == after_pop_scan(
            team,
            worker,
            blocked,
            now,
            answer,
        ),
        PendingView::PopCleanup { pop } => result == after_pop_cleanup(pop, answer),
        PendingView::PopProbe { pop } => follows_pop_probe(pop, answer, result),
        PendingView::PopClaim { pop, handle } => result == after_pop_claim(pop, handle, answer),
        PendingView::PopVerify { pop, handle } => result == after_pop_verify(pop, handle, answer),
    }
}

} // verus!
