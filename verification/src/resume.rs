//! Resuming the engine with an answer of the store.

use crate::codec::encode_i64_le;
use crate::engine::{
    active_tag, after_complete, after_expired_active, after_expired_active_committed,
    after_expired_jobs, after_expired_jobs_committed, after_orphan_check, after_orphan_scan,
    after_pop_claim, after_pop_cleanup, after_pop_scan, after_pop_verify, after_reconcile_read,
    after_reconcile_scan, after_remove_active, bumped, commit_here, commit_of, expired_jobs_next,
    expired_jobs_scan, follows, follows_pop_probe, goes_on, last_key, next_page, orphan_advance,
    orphan_round_end, pop_skip, pop_try, scan_under, skip_unkeyed, BATCH, MAX_ROUNDS, OrphanState,
    Outcome, Pending, PopState, Step, StepView,
};
use crate::error::{Failure, FdbError};
use crate::handle::key_handle;
use crate::janitor::{plan_active_sweep, plan_orphan_clears, plan_ttl_sweep, read_claims};
use crate::job::{decode_job, ClaimedJob};
use crate::json::json_to_vec;
use crate::keys::{
    build_claim_key_with_versionstamp, build_claims_prefix, build_ttl_index_prefix_until, end_key,
    next_key, ACTIVE_CRAWL_TAG, ACTIVE_TAG, CLAIMS_TAG, TTL_INDEX_TAG, CounterKind,
};
use crate::plan::{add_to_counter, empty_plan, push_change, push_job_removal};
use crate::pop::{claim_document, partition, plan_expired_cleanup, read_claimant};
use crate::scan::{
    count_live, lemma_live_count_bound, read_active_ids, read_counter, read_counter_ids,
    read_queued_ids,
};
use crate::store::{copy_bytes, keys_view, KeyValue, Mutation, Request, Response, Txn};
use vstd::prelude::*;

verus! {

/// A step or a failure, as the contracts speak of it.
pub open spec fn result_view(r: Result<Step, FdbError>) -> Result<StepView, Failure> {
    match r {
        Ok(step) => Ok(step.deep_view()),
        Err(e) => Err(e.kind()),
    }
}

fn unexpected() -> (r: Result<Step, FdbError>)
    ensures
        r matches Err(FdbError::Other(text)) && text@
            == "the store's answer is not the one that the engine waits for"@,
        result_view(r) == Err::<StepView, Failure>(Failure::Other),
{
    Err(FdbError::other("the store's answer is not the one that the engine waits for"))
}

fn out_of_range() -> (r: Result<Step, FdbError>)
    ensures
        r matches Err(FdbError::Other(text)) && text@ == "a count does not fit in 64 bits"@,
        result_view(r) == Err::<StepView, Failure>(Failure::Other),
{
    Err(FdbError::other("a count does not fit in 64 bits"))
}

/// The request for all keys under a prefix.
pub fn scan_request(prefix: Vec<u8>, limit: usize, snapshot: bool) -> (r: Request)
    ensures
        r.deep_view() == scan_under(prefix@, limit, snapshot),
{
    let end = end_key(prefix.as_slice());
    Request::GetRange { begin: prefix, end, limit, snapshot, txn: Txn::Fresh }
}

/// The request to commit a plan in a transaction of its own.
pub fn commit_request(mutations: Vec<Mutation>) -> (r: Request)
    ensures
        r.deep_view() == commit_of(mutations.deep_view()),
{
    Request::Commit { mutations, best_effort: false, txn: Txn::Fresh }
}

/// The request to commit a plan in the transaction of the request before it.
pub fn commit_here_request(mutations: Vec<Mutation>) -> (r: Request)
    ensures
        r.deep_view() == commit_here(mutations.deep_view()),
{
    Request::Commit { mutations, best_effort: false, txn: Txn::Current }
}

/// The scan of the expiry entries of the jobs that have expired before `now`.
pub fn expired_jobs_request(now: i64) -> (r: Request)
    ensures
        r.deep_view() == expired_jobs_scan(now),
{
    let mut begin: Vec<u8> = Vec::new();
    begin.push(TTL_INDEX_TAG);
    assert(begin@ =~= seq![TTL_INDEX_TAG]);
    Request::GetRange {
        begin,
        end: build_ttl_index_prefix_until(now),
        limit: BATCH,
        snapshot: false,
        txn: Txn::Fresh,
    }
}

/// The scan of a whole subspace, a batch at a time.
pub fn subspace_request(tag: u8) -> (r: Request)
    ensures
        r.deep_view() == scan_under(seq![tag], BATCH, false),
{
    let mut prefix: Vec<u8> = Vec::new();
    prefix.push(tag);
    assert(prefix@ =~= seq![tag]);
    scan_request(prefix, BATCH, false)
}

/// The scan of the next batch of a subspace, which begins after the last key of the batch
/// before it.
pub fn next_page_request(tag: u8, last: &[u8]) -> (r: Request)
    ensures
        r.deep_view() == next_page(seq![tag], last@),
{
    let mut prefix: Vec<u8> = Vec::new();
    prefix.push(tag);
    assert(prefix@ =~= seq![tag]);
    Request::GetRange {
        begin: next_key(last),
        end: end_key(prefix.as_slice()),
        limit: BATCH,
        snapshot: false,
        txn: Txn::Fresh,
    }
}

/// The scan of the next batch of expiry entries, which begins after the last key of the
/// batch before it.
pub fn expired_jobs_next_request(now: i64, last: &[u8]) -> (r: Request)
    ensures
        r.deep_view() == expired_jobs_next(now, last@),
{
    Request::GetRange {
        begin: next_key(last),
        end: build_ttl_index_prefix_until(now),
        limit: BATCH,
        snapshot: false,
        txn: Txn::Fresh,
    }
}

/// A copy of the key of the last entry of a batch; the empty key for an empty batch.
pub fn copy_last_key(entries: &Vec<KeyValue>) -> (last: Vec<u8>)
    ensures
        last@ == last_key(entries.deep_view()),
{
    if entries.len() > 0 {
        copy_bytes(entries[entries.len() - 1].key.as_slice())
    } else {
        Vec::new()
    }
}

fn bump(count: i64, n: usize) -> (r: Option<i64>)
    ensures
        r == bumped(count, n as nat),
{
    let sum: i128 = count as i128 + n as i128;
    if sum <= 0x7fff_ffff_ffff_ffffi128 {
        Some(sum as i64)
    } else {
        None
    }
}

fn pop_turn(pop: PopState) -> (step: Step)
    ensures
        step.deep_view() == pop_try(pop.deep_view()),
{
    if pop.next < pop.candidates.len() {
        let prefix = build_claims_prefix(pop.candidates[pop.next].job.id.as_str());
        Step::Ask(scan_request(prefix, 1, true), Pending::PopProbe { pop })
    } else {
        Step::Done(Outcome::Job(None))
    }
}

fn pop_next(pop: PopState) -> (step: Step)
    requires
        pop.next < pop.candidates.len(),
    ensures
        step.deep_view() == pop_skip(pop.deep_view()),
{
    let mut pop = pop;
    pop.next = pop.next + 1;
    pop_turn(pop)
}

fn resume_pop_scan(
    team_id: String,
    worker_id: String,
    blocked: Vec<String>,
    now: i64,
    response: Response,
) -> (r: Result<Step, FdbError>)
    ensures
        result_view(r) == after_pop_scan(
            team_id@,
            worker_id@,
            blocked.deep_view(),
            now,
            response.deep_view(),
        ),
{
    match response {
        Response::Range(entries) => {
            if entries.len() > BATCH {
                return unexpected();
            }
            if entries.len() == 0 {
                return Ok(Step::Done(Outcome::Job(None)));
            }
            let (candidates, expired) = partition(&entries, &blocked, now);
            let pop = PopState { worker_id, now, candidates, next: 0 };
            if expired.len() > 0 {
                let plan = plan_expired_cleanup(team_id.as_str(), &expired);
                Ok(
                    Step::Ask(
                        Request::Commit { mutations: plan, best_effort: true, txn: Txn::Fresh },
                        Pending::PopCleanup { pop },
                    ),
                )
            } else {
                Ok(pop_turn(pop))
            }
        },
        _ => unexpected(),
    }
}

fn resume_pop_cleanup(pop: PopState, response: Response) -> (r: Result<Step, FdbError>)
    ensures
        result_view(r) == after_pop_cleanup(pop.deep_view(), response.deep_view()),
{
    match response {
        Response::Committed => Ok(pop_turn(pop)),
        Response::CommitFailed => Ok(pop_turn(pop)),
        _ => unexpected(),
    }
}

fn resume_pop_probe(pop: PopState, response: Response) -> (r: Result<Step, FdbError>)
    ensures
        follows_pop_probe(pop.deep_view(), response.deep_view(), result_view(r)),
{
    match response {
        Response::Range(entries) => {
            if entries.len() > 1 || pop.next >= pop.candidates.len() {
                return unexpected();
            }
            if entries.len() > 0 {
                return Ok(pop_next(pop));
            }
            let candidate = &pop.candidates[pop.next];
            let handle = match key_handle(candidate.queue_key.as_slice()) {
                Some(h) => h,
                None => {
                    return Err(FdbError::other("a queue key is too long for a handle"));
                },
            };
            let doc = claim_document(pop.worker_id.as_str(), handle.as_str(), pop.now);
            match json_to_vec(&doc) {
                Ok(value) => {
                    let key = build_claim_key_with_versionstamp(
                        candidate.job.id.as_str(),
                        pop.worker_id.as_str(),
                    );
                    let mut plan = empty_plan();
                    push_change(&mut plan, Mutation::SetVersionstampedKey { key, value });
                    assert(plan.deep_view() =~= seq![plan@[0].deep_view()]);
                    Ok(Step::Ask(commit_request(plan), Pending::PopClaim { pop, handle }))
                },
                Err(e) => Err(FdbError::Serialization(e)),
            }
        },
        _ => unexpected(),
    }
}

fn resume_pop_claim(pop: PopState, handle: String, response: Response) -> (r: Result<
    Step,
    FdbError,
>)
    ensures
        result_view(r) == after_pop_claim(pop.deep_view(), handle@, response.deep_view()),
{
    match response {
        Response::Committed => {
            if pop.next < pop.candidates.len() {
                let prefix = build_claims_prefix(pop.candidates[pop.next].job.id.as_str());
                Ok(Step::Ask(scan_request(prefix, 1, true), Pending::PopVerify { pop, handle }))
            } else {
                unexpected()
            }
        },
        _ => unexpected(),
    }
}

fn resume_pop_verify(pop: PopState, handle: String, response: Response) -> (r: Result<
    Step,
    FdbError,
>)
    ensures
        result_view(r) == after_pop_verify(pop.deep_view(), handle@, response.deep_view()),
{
    match response {
        Response::Range(entries) => {
            if entries.len() > 1 || pop.next >= pop.candidates.len() {
                return unexpected();
            }
            if entries.len() == 0 {
                return Ok(pop_next(pop));
            }
            assert(entries.deep_view()[0] == entries@[0].deep_view());
            match read_claimant(entries[0].value.as_slice()) {
                Ok(winner) => {
                    let won = match &winner {
                        Some(w) => *w == pop.worker_id,
                        None => false,
                    };
                    if won {
                        let mut pop = pop;
                        let candidate = pop.candidates.remove(pop.next);
                        Ok(
                            Step::Done(
                                Outcome::Job(
                                    Some(ClaimedJob { job: candidate.job, queue_key: handle }),
                                ),
                            ),
                        )
                    } else {
                        Ok(pop_next(pop))
                    }
                },
                Err(e) => Err(FdbError::Serialization(e)),
            }
        },
        _ => unexpected(),
    }
}

fn resume_remove_active(key: Vec<u8>, kind: CounterKind, owner: String, response: Response) -> (r:
    Result<Step, FdbError>)
    ensures
        result_view(r) == after_remove_active(key@, kind, owner@, response.deep_view()),
{
    match response {
        Response::Value(stored) => {
            let mut plan = empty_plan();
            if stored.is_some() {
                push_change(&mut plan, Mutation::Clear { key });
                push_change(&mut plan, add_to_counter(kind, owner.as_str(), -1));
                assert(plan.deep_view() =~= seq![plan@[0].deep_view(), plan@[1].deep_view()]);
            }
            Ok(Step::Ask(commit_here_request(plan), Pending::Finish { outcome: Outcome::Unit }))
        },
        _ => unexpected(),
    }
}

fn resume_complete(queue_key: Vec<u8>, response: Response) -> (r: Result<Step, FdbError>)
    ensures
        result_view(r) == after_complete(queue_key@, response.deep_view()),
{
    match response {
        Response::Value(None) => Ok(Step::Done(Outcome::Flag(false))),
        Response::Value(Some(bytes)) => match decode_job(bytes.as_slice()) {
            Ok(job) => {
                let mut plan = empty_plan();
                push_job_removal(&mut plan, queue_key.as_slice(), job.team_id.as_str(), &job);
                let begin = build_claims_prefix(job.id.as_str());
                let end = end_key(begin.as_slice());
                push_change(&mut plan, Mutation::ClearRange { begin, end });
                Ok(
                    Step::Ask(
                        commit_here_request(plan),
                        Pending::Finish { outcome: Outcome::Flag(true) },
                    ),
                )
            },
            Err(e) => Err(FdbError::Serialization(e)),
        },
        _ => unexpected(),
    }
}

fn resume_reconcile_scan(
    counter_key: Vec<u8>,
    live_after: Option<i64>,
    limit: usize,
    response: Response,
) -> (r: Result<Step, FdbError>)
    ensures
        result_view(r) == after_reconcile_scan(
            counter_key@,
            live_after,
            limit,
            response.deep_view(),
        ),
{
    match response {
        Response::Range(entries) => {
            let actual: usize = match live_after {
                Some(now) => {
                    proof {
                        lemma_live_count_bound(entries.deep_view(), now);
                    }
                    count_live(&entries, now)
                },
                None => entries.len(),
            };
            if entries.len() > limit || actual as u64 > 0x7fff_ffff_ffff_ffffu64 {
                return unexpected();
            }
            let key = copy_bytes(counter_key.as_slice());
            Ok(
                Step::Ask(
                    Request::Get { key, snapshot: false, txn: Txn::Current },
                    Pending::ReconcileRead { counter_key, actual: actual as i64 },
                ),
            )
        },
        _ => unexpected(),
    }
}

fn resume_reconcile_read(counter_key: Vec<u8>, actual: i64, response: Response) -> (r: Result<
    Step,
    FdbError,
>)
    ensures
        result_view(r) == after_reconcile_read(counter_key@, actual, response.deep_view()),
{
    match response {
        Response::Value(stored) => {
            let current = read_counter(&stored);
            if actual == current {
                return Ok(Step::Done(Outcome::Count(0)));
            }
            let correction: i128 = actual as i128 - current as i128;
            if correction < -0x8000_0000_0000_0000i128 || correction > 0x7fff_ffff_ffff_ffffi128 {
                return out_of_range();
            }
            let value = encode_i64_le(actual);
            let mut plan = empty_plan();
            push_change(
                &mut plan,
                Mutation::Put { key: counter_key, value: copy_bytes(value.as_slice()) },
            );
            assert(plan.deep_view() =~= seq![plan@[0].deep_view()]);
            Ok(
                Step::Ask(
                    commit_request(plan),
                    Pending::Finish { outcome: Outcome::Count(correction as i64) },
                ),
            )
        },
        _ => unexpected(),
    }
}

fn resume_expired_jobs(now: i64, round: u32, cleaned: i64, response: Response) -> (r: Result<
    Step,
    FdbError,
>)
    ensures
        result_view(r) == after_expired_jobs(now, round, cleaned, response.deep_view()),
{
    match response {
        Response::Range(entries) => {
            if entries.len() > BATCH {
                return unexpected();
            }
            if entries.len() == 0 {
                return Ok(Step::Done(Outcome::Count(cleaned)));
            }
            let (plan, swept) = plan_ttl_sweep(&entries);
            match bump(cleaned, swept) {
                Some(count) => Ok(
                    Step::Ask(
                        commit_here_request(plan),
                        Pending::ExpiredJobsCommitted {
                            now,
                            round,
                            cleaned: count,
                            full: entries.len() == BATCH,
                            last: copy_last_key(&entries),
                        },
                    ),
                ),
                None => out_of_range(),
            }
        },
        _ => unexpected(),
    }
}

fn another_round(round: u32, full: bool) -> (r: bool)
    ensures
        r == goes_on(round, full),
{
    full && round < MAX_ROUNDS - 1
}

fn resume_expired_jobs_committed(
    now: i64,
    round: u32,
    cleaned: i64,
    full: bool,
    last: Vec<u8>,
    response: Response,
) -> (r: Result<Step, FdbError>)
    ensures
        result_view(r) == after_expired_jobs_committed(
            now,
            round,
            cleaned,
            full,
            last@,
            response.deep_view(),
        ),
{
    match response {
        Response::Committed => {
            if another_round(round, full) {
                Ok(
                    Step::Ask(
                        expired_jobs_next_request(now, last.as_slice()),
                        Pending::ExpiredJobs { now, round: round + 1, cleaned },
                    ),
                )
            } else {
                Ok(Step::Done(Outcome::Count(cleaned)))
            }
        },
        _ => unexpected(),
    }
}

/// The tag of the active entries of teams or of crawls.
pub fn active_tag_of(crawl: bool) -> (tag: u8)
    ensures
        tag == active_tag(crawl),
{
    if crawl {
        ACTIVE_CRAWL_TAG
    } else {
        ACTIVE_TAG
    }
}

fn resume_expired_active(now: i64, crawl: bool, round: u32, cleaned: i64, response: Response) -> (r:
    Result<Step, FdbError>)
    ensures
        result_view(r) == after_expired_active(now, crawl, round, cleaned, response.deep_view()),
{
    match response {
        Response::Range(entries) => {
            if entries.len() > BATCH {
                return unexpected();
            }
            let kind = if crawl {
                CounterKind::CrawlActive
            } else {
                CounterKind::TeamActive
            };
            let (plan, swept) = plan_active_sweep(&entries, kind, now);
            match bump(cleaned, swept) {
                Some(count) => Ok(
                    Step::Ask(
                        commit_here_request(plan),
                        Pending::ExpiredActiveCommitted {
                            now,
                            crawl,
                            round,
                            cleaned: count,
                            full: entries.len() == BATCH,
                            last: copy_last_key(&entries),
                        },
                    ),
                ),
                None => out_of_range(),
            }
        },
        _ => unexpected(),
    }
}

fn resume_expired_active_committed(
    now: i64,
    crawl: bool,
    round: u32,
    cleaned: i64,
    full: bool,
    last: Vec<u8>,
    response: Response,
) -> (r: Result<Step, FdbError>)
    ensures
        result_view(r) == after_expired_active_committed(
            now,
            crawl,
            round,
            cleaned,
            full,
            last@,
            response.deep_view(),
        ),
{
    match response {
        Response::Committed => {
            if another_round(round, full) {
                Ok(
                    Step::Ask(
                        next_page_request(active_tag_of(crawl), last.as_slice()),
                        Pending::ExpiredActive { now, crawl, round: round + 1, cleaned },
                    ),
                )
            } else if !crawl {
                Ok(
                    Step::Ask(
                        subspace_request(ACTIVE_CRAWL_TAG),
                        Pending::ExpiredActive { now, crawl: true, round: 0, cleaned },
                    ),
                )
            } else {
                Ok(Step::Done(Outcome::Count(cleaned)))
            }
        },
        _ => unexpected(),
    }
}

fn orphan_round_done(round: u32, cleaned: i64, full: bool, last: Vec<u8>) -> (step: Step)
    ensures
        step.deep_view() == orphan_round_end(round, cleaned, full, last@),
{
    if another_round(round, full) {
        Step::Ask(
            next_page_request(CLAIMS_TAG, last.as_slice()),
            Pending::OrphanScan { round: round + 1, cleaned },
        )
    } else {
        Step::Done(Outcome::Count(cleaned))
    }
}

fn orphan_go_on(sweep: OrphanState) -> (r: Result<Step, FdbError>)
    ensures
        result_view(r) == orphan_advance(sweep.deep_view()),
{
    let ghost start = sweep.deep_view();
    let OrphanState { round, cleaned, full, asked, claims, next, orphans, last } = sweep;
    let mut next = next;
    let mut orphans = orphans;
    while next < claims.len() && claims[next].queue_key.is_none()
        invariant
            start.claims == claims.deep_view(),
            skip_unkeyed(start.claims, next as int, keys_view(orphans@)) == skip_unkeyed(
                start.claims,
                start.next as int,
                start.orphans,
            ),
        decreases claims.len() - next,
    {
        let ghost before = keys_view(orphans@);
        orphans.push(copy_bytes(claims[next].claim_key.as_slice()));
        assert(keys_view(orphans@) =~= before.push(start.claims[next as int].claim_key));
        next = next + 1;
    }
    if next < claims.len() {
        let key = match &claims[next].queue_key {
            Some(k) => copy_bytes(k.as_slice()),
            None => {
                return unexpected();
            },
        };
        let txn = if asked {
            Txn::Current
        } else {
            Txn::Fresh
        };
        Ok(
            Step::Ask(
                Request::Get { key, snapshot: true, txn },
                Pending::OrphanCheck {
                    sweep: OrphanState {
                        round,
                        cleaned,
                        full,
                        asked: true,
                        claims,
                        next,
                        orphans,
                        last,
                    },
                },
            ),
        )
    } else if orphans.len() == 0 {
        Ok(orphan_round_done(round, cleaned, full, last))
    } else {
        match bump(cleaned, orphans.len()) {
            Some(count) => Ok(
                Step::Ask(
                    commit_request(plan_orphan_clears(&orphans)),
                    Pending::OrphanCommitted { round, cleaned: count, full, last },
                ),
            ),
            None => out_of_range(),
        }
    }
}

fn resume_orphan_scan(round: u32, cleaned: i64, response: Response) -> (r: Result<Step, FdbError>)
    ensures
        result_view(r) == after_orphan_scan(round, cleaned, response.deep_view()),
{
    match response {
        Response::Range(entries) => {
            if entries.len() > BATCH {
                return unexpected();
            }
            let claims = read_claims(&entries);
            if claims.len() == 0 {
                return Ok(
                    orphan_round_done(
                        round,
                        cleaned,
                        entries.len() == BATCH,
                        copy_last_key(&entries),
                    ),
                );
            }
            let orphans: Vec<Vec<u8>> = Vec::new();
            assert(keys_view(orphans@) =~= Seq::<Seq<u8>>::empty());
            orphan_go_on(
                OrphanState {
                    round,
                    cleaned,
                    full: entries.len() == BATCH,
                    asked: false,
                    claims,
                    next: 0,
                    orphans,
                    last: copy_last_key(&entries),
                },
            )
        },
        _ => unexpected(),
    }
}

fn resume_orphan_check(sweep: OrphanState, response: Response) -> (r: Result<Step, FdbError>)
    ensures
        result_view(r) == after_orphan_check(sweep.deep_view(), response.deep_view()),
{
    match response {
        Response::Value(stored) => {
            if sweep.next >= sweep.claims.len() {
                return unexpected();
            }
            let OrphanState { round, cleaned, full, asked, claims, next, orphans, last } = sweep;
            let mut orphans = orphans;
            if stored.is_none() {
                let ghost before = keys_view(orphans@);
                orphans.push(copy_bytes(claims[next].claim_key.as_slice()));
                assert(keys_view(orphans@) =~= before.push(
                    claims.deep_view()[next as int].claim_key,
                ));
            }
            orphan_go_on(
                OrphanState { round, cleaned, full, asked, claims, next: next + 1, orphans, last },
            )
        },
        _ => unexpected(),
    }
}

impl Pending {
    /// Resumes the engine with the store's answer to the request that it waits for.
    pub fn resume(self, response: Response) -> (r: Result<Step, FdbError>)
        ensures
            follows(self.deep_view(), response.deep_view(), result_view(r)),
    {
        match self {
            Pending::Finish { outcome } => match response {
                Response::Committed => Ok(Step::Done(outcome)),
                _ => unexpected(),
            },
            Pending::Counter { floor } => match response {
                Response::Value(stored) => {
                    let n = read_counter(&stored);
                    Ok(Step::Done(Outcome::Count(if floor && n < 0 { 0 } else { n })))
                },
                _ => unexpected(),
            },
            Pending::Health => match response {
                Response::Value(_) => Ok(Step::Done(Outcome::Flag(true))),
                _ => unexpected(),
            },
            Pending::QueuedIds { limit } => match response {
                Response::Range(entries) => {
                    if entries.len() > limit {
                        unexpected()
                    } else {
                        Ok(Step::Done(Outcome::Ids(read_queued_ids(&entries))))
                    }
                },
                _ => unexpected(),
            },
            Pending::ActiveIds { prefix_len, now } => match response {
                Response::Range(entries) => Ok(
                    Step::Done(Outcome::Ids(read_active_ids(&entries, prefix_len, now))),
                ),
                _ => unexpected(),
            },
            Pending::CounterIds { limit } => match response {
                Response::Range(entries) => {
                    if entries.len() > limit {
                        unexpected()
                    } else {
                        Ok(Step::Done(Outcome::Ids(read_counter_ids(&entries))))
                    }
                },
                _ => unexpected(),
            },
            Pending::RemoveActive { key, kind, owner } => resume_remove_active(
                key,
                kind,
                owner,
                response,
            ),
            Pending::Complete { queue_key } => resume_complete(queue_key, response),
            Pending::ReconcileScan { counter_key, live_after, limit } => resume_reconcile_scan(
                counter_key,
                live_after,
                limit,
                response,
            ),
            Pending::ReconcileRead { counter_key, actual } => resume_reconcile_read(
                counter_key,
                actual,
                response,
            ),
            Pending::ExpiredJobs { now, round, cleaned } => resume_expired_jobs(
                now,
                round,
                cleaned,
                response,
            ),
            Pending::ExpiredJobsCommitted { now, round, cleaned, full, last } => {
                resume_expired_jobs_committed(now, round, cleaned, full, last, response)
            },
            Pending::ExpiredActive { now, crawl, round, cleaned } => resume_expired_active(
                now,
                crawl,
                round,
                cleaned,
                response,
            ),
            Pending::ExpiredActiveCommitted { now, crawl, round, cleaned, full, last } => {
                resume_expired_active_committed(now, crawl, round, cleaned, full, last, response)
            },
            Pending::OrphanScan { round, cleaned } => resume_orphan_scan(round, cleaned, response),
            Pending::OrphanCheck { sweep } => resume_orphan_check(sweep, response),
            Pending::OrphanCommitted { round, cleaned, full, last } => match response {
                Response::Committed => Ok(orphan_round_done(round, cleaned, full, last)),
                _ => unexpected(),
            },
            Pending::PopScan { team_id, worker_id, blocked, now } => resume_pop_scan(
                team_id,
                worker_id,
                blocked,
                now,
                response,
            ),
            Pending::PopCleanup { pop } => resume_pop_cleanup(pop, response),
            Pending::PopProbe { pop } => resume_pop_probe(pop, response),
            Pending::PopClaim { pop, handle } => resume_pop_claim(pop, handle, response),
            Pending::PopVerify { pop, handle } => resume_pop_verify(pop, handle, response),
        }
    }
}

} // verus!
