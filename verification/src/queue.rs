//! The operations of the queue. Each begins an operation of the engine: it returns the first
//! step, and whoever holds the connection to the store carries it through.

use crate::clock::now_ms;
use crate::codec::{encode_i64_be, i64_be};
use crate::engine::{
    commit_of, expired_jobs_scan, scan_under, BATCH, Outcome, OutcomeView, Pending, PendingView,
    Step, StepView,
};
use crate::error::{Failure, FdbError};
use crate::handle::{base64_bytes, handle_key};
use crate::job::{
    as_deref, is_job_document, is_optional_text, job_document, json_optional_text, FdbQueueJob,
    JobView,
};
use crate::json::{
    json_encoded, json_from_i64, json_from_str, json_int, json_is_object, json_member, json_null,
    json_set, json_text, json_to_vec,
};
use crate::keys::{
    active_crawl_key, active_crawl_prefix, active_key, active_prefix, build_active_crawl_key,
    build_active_crawl_prefix, build_active_key, build_active_prefix, build_claims_prefix,
    build_counter_key, build_counter_prefix, build_crawl_index_key, build_crawl_index_prefix,
    build_queue_key, build_queue_prefix, build_ttl_index_key, claims_prefix, counter_key,
    counter_prefix, crawl_index_key, crawl_index_prefix, end_key, end_key_spec, next_key,
    next_key_spec, queue_key, queue_prefix, ttl_index_key, ACTIVE_TAG, CLAIMS_TAG, CounterKind,
};
use crate::plan::{add_to_counter, counter_add, empty_plan, push_change};
use crate::resume::{
    commit_request, expired_jobs_request, result_view, scan_request, subspace_request,
};
use crate::store::{copy_bytes, Change, Mutation, Query, Request, Txn};
use crate::text::text_view;
use vstd::prelude::*;
use vstd::utf8::encode_utf8;

verus! {

/// The most jobs whose ids a scan of a team's queue returns, and the most entries that the
/// reconciling of a queue counter counts.
pub const QUEUE_SCAN_LIMIT: usize = 100000;

/// The most active entries that one scan returns.
pub const ACTIVE_SCAN_LIMIT: usize = 10000;

/// A multi-tenant priority queue of jobs on an ordered, transactional key-value store.
#[derive(Clone, Copy, Debug, Default)]
pub struct FdbQueue {}

/// When a job that is pushed at `now` times out: `timeout` milliseconds later, where the
/// job belongs to no crawl and the time-out is positive and not the largest number; else
/// never.
pub open spec fn times_out_at(timeout: Option<i64>, in_crawl: bool, now: i64) -> Option<i64> {
    match timeout {
        Some(t) => if !in_crawl && 0 < t < i64::MAX {
            Some((now + t) as i64)
        } else {
            None
        },
        None => None,
    }
}

/// Whether the time at which a job pushed at `now` times out fits in 64 bits.
pub open spec fn timeout_fits(timeout: Option<i64>, in_crawl: bool, now: i64) -> bool {
    match timeout {
        Some(t) => !in_crawl && 0 < t < i64::MAX ==> now + t <= i64::MAX,
        None => true,
    }
}

/// The job that a push at `now` queues.
pub open spec fn pushed_job(
    team: Seq<char>,
    job: Seq<char>,
    data: serde_json::Value,
    priority: i32,
    listenable: bool,
    listen_channel: Option<Seq<char>>,
    timeout: Option<i64>,
    crawl: Option<Seq<char>>,
    now: i64,
) -> JobView {
    JobView {
        id: job,
        data,
        priority,
        listenable,
        created_at: now,
        times_out_at: times_out_at(timeout, crawl.is_some(), now),
        listen_channel_id: listen_channel,
        crawl_id: crawl,
        team_id: team,
    }
}

/// Whether `doc` is the value of the expiry entry of a job.
pub open spec fn is_ttl_document(doc: serde_json::Value, job: JobView) -> bool {
    &&& json_is_object(doc)
    &&& json_int(json_member(doc, "priority"@)) == Some(job.priority as i64)
    &&& json_int(json_member(doc, "createdAt"@)) == Some(job.created_at)
    &&& is_optional_text(json_member(doc, "crawlId"@), job.crawl_id)
}

/// Whether `doc` is the value of the crawl entry of a job.
pub open spec fn is_crawl_document(doc: serde_json::Value, job: JobView) -> bool {
    &&& json_is_object(doc)
    &&& json_text(json_member(doc, "teamId"@)) == Some(job.team_id)
    &&& json_int(json_member(doc, "priority"@)) == Some(job.priority as i64)
    &&& json_int(json_member(doc, "createdAt"@)) == Some(job.created_at)
}

/// What a push writes in its one transaction: the job's record and one more on the team's
/// counter; the expiry entry where the job times out; the crawl entry and one more on the
/// crawl's counter where the job belongs to a crawl.
pub open spec fn push_plan(
    job: JobView,
    record: Seq<u8>,
    ttl_value: Seq<u8>,
    crawl_value: Seq<u8>,
) -> Seq<Change> {
    let team = encode_utf8(job.team_id);
    let id = encode_utf8(job.id);
    seq![
        Change::Put { key: queue_key(team, job.priority, job.created_at, id), value: record },
        counter_add(CounterKind::TeamQueued, team, 1),
    ] + (match job.times_out_at {
        Some(t) => seq![Change::Put { key: ttl_index_key(t, team, id), value: ttl_value }],
        None => Seq::empty(),
    }) + (match job.crawl_id {
        Some(c) => seq![
            Change::Put { key: crawl_index_key(encode_utf8(c), id), value: crawl_value },
            counter_add(CounterKind::CrawlQueued, encode_utf8(c), 1),
        ],
        None => Seq::empty(),
    })
}

/// Whether `result` is the push of `job` with the three documents as `serde_json` writes
/// them: the plan where it writes each one that is needed, a failure where it does not.
pub open spec fn push_of(
    job: JobView,
    record: serde_json::Value,
    ttl: serde_json::Value,
    crawl: serde_json::Value,
    result: Result<StepView, Failure>,
) -> bool {
    &&& is_job_document(record, job)
    &&& job.times_out_at.is_some() ==> is_ttl_document(ttl, job)
    &&& job.crawl_id.is_some() ==> is_crawl_document(crawl, job)
    &&& result == (if json_encoded(record).is_none() || (job.times_out_at.is_some()
        && json_encoded(ttl).is_none()) || (job.crawl_id.is_some() && json_encoded(crawl).is_none()) {
        Err::<StepView, Failure>(Failure::Serialization)
    } else {
        Ok::<StepView, Failure>(
            StepView::Ask(
                commit_of(
                    push_plan(
                        job,
                        json_encoded(record).unwrap(),
                        json_encoded(ttl).unwrap(),
                        json_encoded(crawl).unwrap(),
                    ),
                ),
                PendingView::Finish { outcome: OutcomeView::Unit },
            ),
        )
    })
}

/// The failure of an operation that cannot begin, as the contracts speak of it.
pub open spec fn refused() -> Result<StepView, Failure> {
    Err(Failure::Other)
}

/// Whether `result` is the first step of a push at `now`: the push of the job where the
/// time at which the job times out fits in 64 bits, and a failure where it does not.
pub open spec fn is_push_at(
    team: Seq<char>,
    job: Seq<char>,
    data: serde_json::Value,
    priority: i32,
    listenable: bool,
    listen_channel: Option<Seq<char>>,
    timeout: Option<i64>,
    crawl: Option<Seq<char>>,
    now: i64,
    result: Result<StepView, Failure>,
) -> bool {
    if timeout_fits(timeout, crawl.is_some(), now) {
        is_push(
            pushed_job(team, job, data, priority, listenable, listen_channel, timeout, crawl, now),
            result,
        )
    } else {
        result == refused()
    }
}

/// Whether `result` is the first step of a push of `job`.
pub open spec fn is_push(job: JobView, result: Result<StepView, Failure>) -> bool {
    exists|record: serde_json::Value, ttl: serde_json::Value, crawl: serde_json::Value|
        #![trigger push_of(job, record, ttl, crawl, result)]
        push_of(job, record, ttl, crawl, result)
}

/// The first step of a pop: a snapshot scan of the head of the team's queue.
pub open spec fn pop_start(
    team: Seq<char>,
    worker: Seq<char>,
    blocked: Seq<Seq<char>>,
    now: i64,
) -> StepView {
    StepView::Ask(
        scan_under(queue_prefix(encode_utf8(team)), BATCH, true),
        PendingView::PopScan { team, worker, blocked, now },
    )
}

/// The one step of a release: every claim on the job is cleared, and nothing else.
pub open spec fn release_step(job: Seq<char>) -> StepView {
    StepView::Ask(
        commit_of(
            seq![
                Change::ClearRange {
                    begin: claims_prefix(encode_utf8(job)),
                    end: end_key_spec(claims_prefix(encode_utf8(job))),
                },
            ],
        ),
        PendingView::Finish { outcome: OutcomeView::Unit },
    )
}

/// The first step of a completion: the lookup of the job's record under the key that the
/// handle stands for.
pub open spec fn complete_start(handle: Seq<char>) -> Result<StepView, Failure> {
    match base64_bytes(handle) {
        Some(key) => Ok(
            StepView::Ask(
                Query::Get { key, snapshot: false, txn: Txn::Fresh },
                PendingView::Complete { queue_key: key },
            ),
        ),
        None => Err(Failure::Other),
    }
}

/// The lookup of a counter.
pub open spec fn counter_lookup(kind: CounterKind, id: Seq<char>, floor: bool) -> StepView {
    StepView::Ask(
        Query::Get { key: counter_key(kind, encode_utf8(id)), snapshot: false, txn: Txn::Fresh },
        PendingView::Counter { floor },
    )
}

/// The scan of a team's queue for at most `limit` ids, and never more than 100000.
pub open spec fn queued_ids_start(team: Seq<char>, limit: u32) -> StepView {
    let most = if limit < QUEUE_SCAN_LIMIT {
        limit as usize
    } else {
        QUEUE_SCAN_LIMIT
    };
    StepView::Ask(
        scan_under(queue_prefix(encode_utf8(team)), most, false),
        PendingView::QueuedIds { limit: most },
    )
}

/// The prefix of the active entries of a team or of a crawl.
pub open spec fn active_prefix_of(crawl: bool, owner: Seq<u8>) -> Seq<u8> {
    if crawl {
        active_crawl_prefix(owner)
    } else {
        active_prefix(owner)
    }
}

/// The key of the active entry of a job of a team or of a crawl.
pub open spec fn active_key_of(crawl: bool, owner: Seq<u8>, job: Seq<u8>) -> Seq<u8> {
    if crawl {
        active_crawl_key(owner, job)
    } else {
        active_key(owner, job)
    }
}

/// The counter of the active jobs of a team or of a crawl.
pub open spec fn active_counter(crawl: bool) -> CounterKind {
    if crawl {
        CounterKind::CrawlActive
    } else {
        CounterKind::TeamActive
    }
}

/// The one step that marks a job as active until `now + timeout`: its entry is written and
/// its owner's counter goes up by one.
pub open spec fn push_active_step(
    crawl: bool,
    owner: Seq<char>,
    job: Seq<char>,
    timeout: i64,
    now: i64,
) -> StepView {
    StepView::Ask(
        commit_of(
            seq![
                Change::Put {
                    key: active_key_of(crawl, encode_utf8(owner), encode_utf8(job)),
                    value: i64_be((now + timeout) as i64),
                },
                counter_add(active_counter(crawl), encode_utf8(owner), 1),
            ],
        ),
        PendingView::Finish { outcome: OutcomeView::Unit },
    )
}

/// The first step that marks a job as active from `now` for `timeout` milliseconds: the
/// write of its entry where the time at which it expires fits in 64 bits, and a failure
/// where it does not.
pub open spec fn push_active_at(
    crawl: bool,
    owner: Seq<char>,
    job: Seq<char>,
    timeout: i64,
    now: i64,
) -> Result<StepView, Failure> {
    if i64::MIN <= now + timeout <= i64::MAX {
        Ok(push_active_step(crawl, owner, job, timeout, now))
    } else {
        refused()
    }
}

/// The first step of the removal of an active entry: its lookup.
pub open spec fn remove_active_start(crawl: bool, owner: Seq<char>, job: Seq<char>) -> StepView {
    let key = active_key_of(crawl, encode_utf8(owner), encode_utf8(job));
    StepView::Ask(
        Query::Get { key, snapshot: false, txn: Txn::Fresh },
        PendingView::RemoveActive { key, kind: active_counter(crawl), owner },
    )
}

/// The scan of the active entries of a team or of a crawl.
pub open spec fn active_ids_start(crawl: bool, owner: Seq<char>, now: i64) -> StepView {
    let prefix = active_prefix_of(crawl, encode_utf8(owner));
    StepView::Ask(
        scan_under(prefix, ACTIVE_SCAN_LIMIT, false),
        PendingView::ActiveIds { prefix_len: prefix.len() as usize, now },
    )
}

/// The first step of a sweep of expired jobs.
pub open spec fn expired_jobs_start(now: i64) -> StepView {
    StepView::Ask(expired_jobs_scan(now), PendingView::ExpiredJobs { now, round: 0, cleaned: 0 })
}

/// The first step of a sweep of expired active entries: the first batch of those of the
/// teams.
pub open spec fn expired_active_start(now: i64) -> StepView {
    StepView::Ask(
        scan_under(seq![ACTIVE_TAG], BATCH, false),
        PendingView::ExpiredActive { now, crawl: false, round: 0, cleaned: 0 },
    )
}

/// The first step of a sweep of orphaned claims.
pub open spec fn orphan_start() -> StepView {
    StepView::Ask(
        scan_under(seq![CLAIMS_TAG], BATCH, false),
        PendingView::OrphanScan { round: 0, cleaned: 0 },
    )
}

/// The scan of at most `limit` counters of a kind, from the one after that of `after`.
pub open spec fn sample_start(kind: CounterKind, limit: u32, after: Option<Seq<char>>) -> StepView {
    StepView::Ask(
        Query::GetRange {
            begin: match after {
                Some(id) => next_key_spec(counter_key(kind, encode_utf8(id))),
                None => counter_prefix(kind),
            },
            end: end_key_spec(counter_prefix(kind)),
            limit: limit as usize,
            snapshot: false,
            txn: Txn::Fresh,
        },
        PendingView::CounterIds { limit: limit as usize },
    )
}

/// The first step of the reconciling of a counter: the scan of what it counts.
pub open spec fn reconcile_start(
    kind: CounterKind,
    prefix: Seq<u8>,
    id: Seq<char>,
    live_after: Option<i64>,
    limit: usize,
) -> StepView {
    StepView::Ask(
        scan_under(prefix, limit, false),
        PendingView::ReconcileScan {
            counter_key: counter_key(kind, encode_utf8(id)),
            live_after,
            limit,
        },
    )
}

/// The probe of a health check: a lookup of a key that nothing writes.
pub open spec fn health_start() -> StepView {
    StepView::Ask(
        Query::Get { key: encode_utf8("__health__"@), snapshot: false, txn: Txn::Fresh },
        PendingView::Health,
    )
}

fn clone_ids(ids: &Vec<String>) -> (copy: Vec<String>)
    ensures
        copy.deep_view() == ids.deep_view(),
{
    let mut copy: Vec<String> = Vec::new();
    let mut i: usize = 0;
    while i < ids.len()
        invariant
            i <= ids.len(),
            copy.len() == i,
            forall|j: int| 0 <= j < i ==> copy@[j]@ == ids@[j]@,
        decreases ids.len() - i,
    {
        copy.push(ids[i].clone());
        i += 1;
    }
    assert(copy.deep_view() =~= ids.deep_view());
    copy
}

fn owned(text: Option<&str>) -> (r: Option<String>)
    ensures
        r.deep_view() == text_view(text),
{
    match text {
        Some(s) => Some(s.to_owned()),
        None => None,
    }
}

/// Whether an operation has failed because the clock stands before 1970.
pub open spec fn is_clock_failure(r: Result<Step, FdbError>) -> bool {
    r matches Err(FdbError::Other(text)) && text@ == "the system clock stands before 1970"@
}

fn clock_failure() -> (e: FdbError)
    ensures
        e matches FdbError::Other(text) && text@ == "the system clock stands before 1970"@,
        e.kind() == Failure::Other,
{
    FdbError::other("the system clock stands before 1970")
}

fn ttl_document(job: &FdbQueueJob) -> (doc: serde_json::Value)
    ensures
        is_ttl_document(doc, job.deep_view()),
{
    proof {
        reveal_strlit("priority");
        reveal_strlit("createdAt");
        reveal_strlit("crawlId");
        assert("priority"@.len() == 8);
        assert("createdAt"@.len() == 9);
        assert("crawlId"@.len() == 7);
    }
    let mut doc = json_null();
    json_set(&mut doc, "priority", json_from_i64(job.priority as i64));
    json_set(&mut doc, "createdAt", json_from_i64(job.created_at));
    json_set(&mut doc, "crawlId", json_optional_text(as_deref(&job.crawl_id)));
    doc
}

fn crawl_document(job: &FdbQueueJob) -> (doc: serde_json::Value)
    ensures
        is_crawl_document(doc, job.deep_view()),
{
    proof {
        reveal_strlit("teamId");
        reveal_strlit("priority");
        reveal_strlit("createdAt");
        assert("teamId"@.len() == 6);
        assert("priority"@.len() == 8);
        assert("createdAt"@.len() == 9);
    }
    let mut doc = json_null();
    json_set(&mut doc, "teamId", json_from_str(job.team_id.as_str()));
    json_set(&mut doc, "priority", json_from_i64(job.priority as i64));
    json_set(&mut doc, "createdAt", json_from_i64(job.created_at));
    doc
}

fn active_key_for(crawl: bool, owner: &str, job_id: &str) -> (key: Vec<u8>)
    ensures
        key@ == active_key_of(crawl, encode_utf8(owner@), encode_utf8(job_id@)),
{
    if crawl {
        build_active_crawl_key(owner, job_id)
    } else {
        build_active_key(owner, job_id)
    }
}

fn active_prefix_for(crawl: bool, owner: &str) -> (key: Vec<u8>)
    ensures
        key@ == active_prefix_of(crawl, encode_utf8(owner@)),
{
    if crawl {
        build_active_crawl_prefix(owner)
    } else {
        build_active_prefix(owner)
    }
}

fn active_counter_for(crawl: bool) -> (kind: CounterKind)
    ensures
        kind == active_counter(crawl),
{
    if crawl {
        CounterKind::CrawlActive
    } else {
        CounterKind::TeamActive
    }
}

fn lookup_counter(kind: CounterKind, id: &str, floor: bool) -> (step: Step)
    ensures
        step.deep_view() == counter_lookup(kind, id@, floor),
{
    Step::Ask(
        Request::Get { key: build_counter_key(kind, id), snapshot: false, txn: Txn::Fresh },
        Pending::Counter { floor },
    )
}

fn push_active(crawl: bool, owner: &str, job_id: &str, timeout: i64, now: i64) -> (r: Result<
    Step,
    FdbError,
>)
    ensures
        result_view(r) == push_active_at(crawl, owner@, job_id@, timeout, now),
        r matches Err(FdbError::Other(text)) ==> text@ == "the expiry time does not fit in 64 bits"@,
{
    let sum: i128 = now as i128 + timeout as i128;
    if sum < -0x8000_0000_0000_0000i128 || sum > 0x7fff_ffff_ffff_ffffi128 {
        return Err(FdbError::other("the expiry time does not fit in 64 bits"));
    }
    let expires_at = encode_i64_be(now + timeout);
    let mut plan = empty_plan();
    push_change(
        &mut plan,
        Mutation::Put {
            key: active_key_for(crawl, owner, job_id),
            value: copy_bytes(expires_at.as_slice()),
        },
    );
    push_change(&mut plan, add_to_counter(active_counter_for(crawl), owner, 1));
    assert(plan.deep_view() =~= seq![plan@[0].deep_view(), plan@[1].deep_view()]);
    Ok(Step::Ask(commit_request(plan), Pending::Finish { outcome: Outcome::Unit }))
}

fn push_active_now(crawl: bool, owner: &str, job_id: &str, timeout: i64) -> (r: Result<
    Step,
    FdbError,
>)
    ensures
        is_clock_failure(r) || exists|now: i64|
            result_view(r) == #[trigger] push_active_at(crawl, owner@, job_id@, timeout, now),
{
    match now_ms() {
        Some(now) => push_active(crawl, owner, job_id, timeout, now),
        None => Err(clock_failure()),
    }
}

fn remove_active(crawl: bool, owner: &str, job_id: &str) -> (step: Step)
    ensures
        step.deep_view() == remove_active_start(crawl, owner@, job_id@),
{
    let key = active_key_for(crawl, owner, job_id);
    Step::Ask(
        Request::Get { key: copy_bytes(key.as_slice()), snapshot: false, txn: Txn::Fresh },
        Pending::RemoveActive { key, kind: active_counter_for(crawl), owner: owner.to_owned() },
    )
}

fn active_ids_at(crawl: bool, owner: &str, now: i64) -> (step: Step)
    ensures
        step.deep_view() == active_ids_start(crawl, owner@, now),
{
    let prefix = active_prefix_for(crawl, owner);
    let prefix_len = prefix.len();
    Step::Ask(
        scan_request(prefix, ACTIVE_SCAN_LIMIT, false),
        Pending::ActiveIds { prefix_len, now },
    )
}

fn sample(kind: CounterKind, limit: u32, after: Option<&str>) -> (step: Step)
    ensures
        step.deep_view() == sample_start(kind, limit, text_view(after)),
{
    let prefix = build_counter_prefix(kind);
    let begin = match after {
        Some(id) => next_key(build_counter_key(kind, id).as_slice()),
        None => build_counter_prefix(kind),
    };
    Step::Ask(
        Request::GetRange {
            begin,
            end: end_key(prefix.as_slice()),
            limit: limit as usize,
            snapshot: false,
            txn: Txn::Fresh,
        },
        Pending::CounterIds { limit: limit as usize },
    )
}

fn reconcile(kind: CounterKind, prefix: Vec<u8>, id: &str, live_after: Option<i64>, limit: usize) -> (step:
    Step)
    ensures
        step.deep_view() == reconcile_start(kind, prefix@, id@, live_after, limit),
{
    Step::Ask(
        scan_request(prefix, limit, false),
        Pending::ReconcileScan { counter_key: build_counter_key(kind, id), live_after, limit },
    )
}

impl FdbQueue {
    /// Queues a job at the time `now`. Everything is written in one transaction. A job whose
    /// time-out lies beyond the end of time is refused.
    pub fn push_job_at(
        team_id: &str,
        job_id: &str,
        data: serde_json::Value,
        priority: i32,
        listenable: bool,
        listen_channel_id: Option<&str>,
        timeout: Option<i64>,
        crawl_id: Option<&str>,
        now: i64,
    ) -> (r: Result<Step, FdbError>)
        ensures
            is_push_at(
                team_id@,
                job_id@,
                data,
                priority,
                listenable,
                text_view(listen_channel_id),
                timeout,
                text_view(crawl_id),
                now,
                result_view(r),
            ),
            r matches Err(FdbError::Other(text)) ==> text@
                == "the time-out does not fit in 64 bits"@,
    {
        let fits = match timeout {
            Some(t) => crawl_id.is_some() || t <= 0 || t == i64::MAX || now <= i64::MAX - t,
            None => true,
        };
        if !fits {
            return Err(FdbError::other("the time-out does not fit in 64 bits"));
        }
        let has_timeout = crawl_id.is_none() && match timeout {
            Some(t) => t > 0 && t < i64::MAX,
            None => false,
        };
        let times_out_at = if has_timeout {
            match timeout {
                Some(t) => Some(now + t),
                None => None,
            }
        } else {
            None
        };
        let job = FdbQueueJob {
            id: job_id.to_owned(),
            data,
            priority,
            listenable,
            created_at: now,
            times_out_at,
            listen_channel_id: owned(listen_channel_id),
            crawl_id: owned(crawl_id),
            team_id: team_id.to_owned(),
        };
        let ghost view = job.deep_view();
        let ghost team = encode_utf8(team_id@);
        let ghost id = encode_utf8(job_id@);
        let record = job_document(&job);
        let ghost mut ttl = record;
        let ghost mut crawl = record;
        let record_bytes = match json_to_vec(&record) {
            Ok(bytes) => bytes,
            Err(e) => {
                let r = Err(FdbError::Serialization(e));
                assert(push_of(view, record, ttl, crawl, result_view(r)));
                return r;
            },
        };
        let mut plan = empty_plan();
        push_change(
            &mut plan,
            Mutation::Put {
                key: build_queue_key(team_id, priority, now, job_id),
                value: record_bytes,
            },
        );
        push_change(&mut plan, add_to_counter(CounterKind::TeamQueued, team_id, 1));
        let ghost head = seq![
            Change::Put { key: queue_key(team, priority, now, id), value: record_bytes@ },
            counter_add(CounterKind::TeamQueued, team, 1),
        ];
        assert(plan.deep_view() =~= head);
        let ghost mut ttl_part = Seq::<Change>::empty();
        if let Some(expires_at) = times_out_at {
            let doc = ttl_document(&job);
            proof {
                ttl = doc;
            }
            match json_to_vec(&doc) {
                Ok(bytes) => {
                    proof {
                        ttl_part = seq![
                            Change::Put { key: ttl_index_key(expires_at, team, id), value: bytes@ },
                        ];
                    }
                    push_change(
                        &mut plan,
                        Mutation::Put {
                            key: build_ttl_index_key(expires_at, team_id, job_id),
                            value: bytes,
                        },
                    );
                },
                Err(e) => {
                    let r = Err(FdbError::Serialization(e));
                    assert(push_of(view, record, ttl, crawl, result_view(r)));
                    return r;
                },
            }
        }
        assert(plan.deep_view() =~= head + ttl_part);
        let ghost mut crawl_part = Seq::<Change>::empty();
        if let Some(cid) = crawl_id {
            let doc = crawl_document(&job);
            proof {
                crawl = doc;
            }
            match json_to_vec(&doc) {
                Ok(bytes) => {
                    proof {
                        crawl_part = seq![
                            Change::Put {
                                key: crawl_index_key(encode_utf8(cid@), id),
                                value: bytes@,
                            },
                            counter_add(CounterKind::CrawlQueued, encode_utf8(cid@), 1),
                        ];
                    }
                    push_change(
                        &mut plan,
                        Mutation::Put { key: build_crawl_index_key(cid, job_id), value: bytes },
                    );
                    push_change(&mut plan, add_to_counter(CounterKind::CrawlQueued, cid, 1));
                },
                Err(e) => {
                    let r = Err(FdbError::Serialization(e));
                    assert(push_of(view, record, ttl, crawl, result_view(r)));
                    return r;
                },
            }
        }
        assert(plan.deep_view() =~= head + ttl_part + crawl_part);
        let r = Ok(Step::Ask(commit_request(plan), Pending::Finish { outcome: Outcome::Unit }));
        assert(push_of(view, record, ttl, crawl, result_view(r)));
        r
    }

    /// Queues a job at the time that the clock shows. It fails, before anything is asked of
    /// the store, where the clock stands before 1970 or the job's time-out lies beyond the
    /// end of time.
    pub fn push_job(
        team_id: &str,
        job_id: &str,
        data: serde_json::Value,
        priority: i32,
        listenable: bool,
        listen_channel_id: Option<&str>,
        timeout: Option<i64>,
        crawl_id: Option<&str>,
    ) -> (r: Result<Step, FdbError>)
        ensures
            is_clock_failure(r) || exists|now: i64|
                #[trigger] is_push_at(
                    team_id@,
                    job_id@,
                    data,
                    priority,
                    listenable,
                    text_view(listen_channel_id),
                    timeout,
                    text_view(crawl_id),
                    now,
                    result_view(r),
                ),
    {
        match now_ms() {
            Some(now) => Self::push_job_at(
                team_id,
                job_id,
                data,
                priority,
                listenable,
                listen_channel_id,
                timeout,
                crawl_id,
                now,
            ),
            None => Err(clock_failure()),
        }
    }

    /// Begins a pop at the time `now`: the worker tries to claim the first job of the team's
    /// queue that is fresh, of no blocked crawl, and not yet claimed.
    pub fn pop_next_job_at(
        team_id: &str,
        worker_id: &str,
        blocked_crawl_ids: &Vec<String>,
        now: i64,
    ) -> (step: Step)
        ensures
            step.deep_view() == pop_start(team_id@, worker_id@, blocked_crawl_ids.deep_view(), now),
    {
        Step::Ask(
            scan_request(build_queue_prefix(team_id), BATCH, true),
            Pending::PopScan {
                team_id: team_id.to_owned(),
                worker_id: worker_id.to_owned(),
                blocked: clone_ids(blocked_crawl_ids),
                now,
            },
        )
    }

    /// Begins a pop at the time that the clock shows.
    pub fn pop_next_job(team_id: &str, worker_id: &str, blocked_crawl_ids: &Vec<String>) -> (r:
        Result<Step, FdbError>)
        ensures
            match r {
                Ok(step) => exists|now: i64|
                    step.deep_view() == #[trigger] pop_start(
                        team_id@,
                        worker_id@,
                        blocked_crawl_ids.deep_view(),
                        now,
                    ),
                Err(e) => e.kind() == Failure::Other,
            },
    {
        match now_ms() {
            Some(now) => Ok(Self::pop_next_job_at(team_id, worker_id, blocked_crawl_ids, now)),
            None => Err(clock_failure()),
        }
    }

    /// Gives a claimed job back: every claim on it is cleared, and the job stays queued.
    pub fn release_job(job_id: &str) -> (step: Step)
        ensures
            step.deep_view() == release_step(job_id@),
    {
        let begin = build_claims_prefix(job_id);
        let end = end_key(begin.as_slice());
        let mut plan = empty_plan();
        push_change(&mut plan, Mutation::ClearRange { begin, end });
        assert(plan.deep_view() =~= seq![plan@[0].deep_view()]);
        Step::Ask(commit_request(plan), Pending::Finish { outcome: Outcome::Unit })
    }

    /// Begins the completion of a job by the handle that its pop has returned. A handle that
    /// is not base64 is refused as an invalid queue key.
    pub fn complete_job(queue_key_b64: &str) -> (r: Result<Step, FdbError>)
        ensures
            result_view(r) == complete_start(queue_key_b64@),
            r matches Err(FdbError::Other(text)) ==> text@ == "Invalid queue key"@,
    {
        match handle_key(queue_key_b64) {
            Some(queue_key) => Ok(
                Step::Ask(
                    Request::Get {
                        key: copy_bytes(queue_key.as_slice()),
                        snapshot: false,
                        txn: Txn::Fresh,
                    },
                    Pending::Complete { queue_key },
                ),
            ),
            None => Err(FdbError::other("Invalid queue key")),
        }
    }

    /// Begins a sweep of the claims whose job is no longer queued.
    pub fn clean_orphaned_claims() -> (step: Step)
        ensures
            step.deep_view() == orphan_start(),
    {
        Step::Ask(subspace_request(CLAIMS_TAG), Pending::OrphanScan { round: 0, cleaned: 0 })
    }

    /// Looks up how many jobs of a team are queued.
    pub fn get_team_queue_count(team_id: &str) -> (step: Step)
        ensures
            step.deep_view() == counter_lookup(CounterKind::TeamQueued, team_id@, false),
    {
        lookup_counter(CounterKind::TeamQueued, team_id, false)
    }

    /// Looks up how many jobs of a crawl are queued.
    pub fn get_crawl_queue_count(crawl_id: &str) -> (step: Step)
        ensures
            step.deep_view() == counter_lookup(CounterKind::CrawlQueued, crawl_id@, false),
    {
        lookup_counter(CounterKind::CrawlQueued, crawl_id, false)
    }

    /// Scans a team's queue for the ids of its jobs, in key order.
    pub fn get_team_queued_job_ids(team_id: &str, limit: u32) -> (step: Step)
        ensures
            step.deep_view() == queued_ids_start(team_id@, limit),
    {
        let most: usize = if limit < 100000 {
            limit as usize
        } else {
            QUEUE_SCAN_LIMIT
        };
        Step::Ask(
            scan_request(build_queue_prefix(team_id), most, false),
            Pending::QueuedIds { limit: most },
        )
    }

    /// Marks a job of a team as active from `now` for `timeout` milliseconds.
    pub fn push_active_job_at(team_id: &str, job_id: &str, timeout: i64, now: i64) -> (r: Result<
        Step,
        FdbError,
    >)
        ensures
            result_view(r) == push_active_at(false, team_id@, job_id@, timeout, now),
            r matches Err(FdbError::Other(text)) ==> text@
                == "the expiry time does not fit in 64 bits"@,
    {
        push_active(false, team_id, job_id, timeout, now)
    }

    /// Marks a job of a team as active from the time that the clock shows.
    pub fn push_active_job(team_id: &str, job_id: &str, timeout: i64) -> (r: Result<Step, FdbError>)
        ensures
            is_clock_failure(r) || exists|now: i64|
                result_view(r) == #[trigger] push_active_at(
                    false,
                    team_id@,
                    job_id@,
                    timeout,
                    now,
                ),
    {
        push_active_now(false, team_id, job_id, timeout)
    }

    /// Begins the removal of the active entry of a job of a team.
    pub fn remove_active_job(team_id: &str, job_id: &str) -> (step: Step)
        ensures
            step.deep_view() == remove_active_start(false, team_id@, job_id@),
    {
        remove_active(false, team_id, job_id)
    }

    /// Looks up how many jobs of a team are active: the counter, or zero where it is
    /// negative.
    pub fn get_active_job_count(team_id: &str) -> (step: Step)
        ensures
            step.deep_view() == counter_lookup(CounterKind::TeamActive, team_id@, true),
    {
        lookup_counter(CounterKind::TeamActive, team_id, true)
    }

    /// Scans for the jobs of a team that are active at `now`.
    pub fn get_active_jobs_at(team_id: &str, now: i64) -> (step: Step)
        ensures
            step.deep_view() == active_ids_start(false, team_id@, now),
    {
        active_ids_at(false, team_id, now)
    }

    /// Scans for the jobs of a team that are active at the time that the clock shows.
    pub fn get_active_jobs(team_id: &str) -> (r: Result<Step, FdbError>)
        ensures
            match r {
                Ok(step) => exists|now: i64|
                    step.deep_view() == #[trigger] active_ids_start(false, team_id@, now),
                Err(e) => e.kind() == Failure::Other,
            },
    {
        match now_ms() {
            Some(now) => Ok(active_ids_at(false, team_id, now)),
            None => Err(clock_failure()),
        }
    }

    /// Marks a job of a crawl as active from `now` for `timeout` milliseconds.
    pub fn push_crawl_active_job_at(crawl_id: &str, job_id: &str, timeout: i64, now: i64) -> (r:
        Result<Step, FdbError>)
        ensures
            result_view(r) == push_active_at(true, crawl_id@, job_id@, timeout, now),
            r matches Err(FdbError::Other(text)) ==> text@
                == "the expiry time does not fit in 64 bits"@,
    {
        push_active(true, crawl_id, job_id, timeout, now)
    }

    /// Marks a job of a crawl as active from the time that the clock shows.
    pub fn push_crawl_active_job(crawl_id: &str, job_id: &str, timeout: i64) -> (r: Result<
        Step,
        FdbError,
    >)
        ensures
            is_clock_failure(r) || exists|now: i64|
                result_view(r) == #[trigger] push_active_at(
                    true,
                    crawl_id@,
                    job_id@,
                    timeout,
                    now,
                ),
    {
        push_active_now(true, crawl_id, job_id, timeout)
    }

    /// Begins the removal of the active entry of a job of a crawl.
    pub fn remove_crawl_active_job(crawl_id: &str, job_id: &str) -> (step: Step)
        ensures
            step.deep_view() == remove_active_start(true, crawl_id@, job_id@),
    {
        remove_active(true, crawl_id, job_id)
    }

    /// Scans for the jobs of a crawl that are active at `now`.
    pub fn get_crawl_active_jobs_at(crawl_id: &str, now: i64) -> (step: Step)
        ensures
            step.deep_view() == active_ids_start(true, crawl_id@, now),
    {
        active_ids_at(true, crawl_id, now)
    }

    /// Scans for the jobs of a crawl that are active at the time that the clock shows.
    pub fn get_crawl_active_jobs(crawl_id: &str) -> (r: Result<Step, FdbError>)
        ensures
            match r {
                Ok(step) => exists|now: i64|
                    step.deep_view() == #[trigger] active_ids_start(true, crawl_id@, now),
                Err(e) => e.kind() == Failure::Other,
            },
    {
        match now_ms() {
            Some(now) => Ok(active_ids_at(true, crawl_id, now)),
            None => Err(clock_failure()),
        }
    }

    /// Begins a sweep of the jobs that have expired before `now`.
    pub fn clean_expired_jobs_at(now: i64) -> (step: Step)
        ensures
            step.deep_view() == expired_jobs_start(now),
    {
        Step::Ask(expired_jobs_request(now), Pending::ExpiredJobs { now, round: 0, cleaned: 0 })
    }

    /// Begins a sweep of the jobs that have expired before the time that the clock shows.
    pub fn clean_expired_jobs() -> (r: Result<Step, FdbError>)
        ensures
            match r {
                Ok(step) => exists|now: i64| step.deep_view() == #[trigger] expired_jobs_start(now),
                Err(e) => e.kind() == Failure::Other,
            },
    {
        match now_ms() {
            Some(now) => Ok(Self::clean_expired_jobs_at(now)),
            None => Err(clock_failure()),
        }
    }

    /// Begins a sweep of the active entries that have expired before `now`, first those of
    /// the teams, then those of the crawls.
    pub fn clean_expired_active_jobs_at(now: i64) -> (step: Step)
        ensures
            step.deep_view() == expired_active_start(now),
    {
        Step::Ask(
            subspace_request(ACTIVE_TAG),
            Pending::ExpiredActive { now, crawl: false, round: 0, cleaned: 0 },
        )
    }

    /// Begins a sweep of the active entries that have expired before the time that the
    /// clock shows.
    pub fn clean_expired_active_jobs() -> (r: Result<Step, FdbError>)
        ensures
            match r {
                Ok(step) => exists|now: i64|
                    step.deep_view() == #[trigger] expired_active_start(now),
                Err(e) => e.kind() == Failure::Other,
            },
    {
        match now_ms() {
            Some(now) => Ok(Self::clean_expired_active_jobs_at(now)),
            None => Err(clock_failure()),
        }
    }

    /// Clears no counter and asks nothing of the store: the count is zero.
    pub fn clean_stale_counters() -> (step: Step)
        ensures
            step.deep_view() == StepView::Done(OutcomeView::Count(0)),
    {
        Step::Done(Outcome::Count(0))
    }

    /// Scans for the ids of at most `limit` teams that have a queue counter, from the one
    /// after `after_team_id`.
    pub fn sample_team_counters(limit: u32, after_team_id: Option<&str>) -> (step: Step)
        ensures
            step.deep_view() == sample_start(
                CounterKind::TeamQueued,
                limit,
                text_view(after_team_id),
            ),
    {
        sample(CounterKind::TeamQueued, limit, after_team_id)
    }

    /// Scans for the ids of at most `limit` crawls that have a queue counter, from the one
    /// after `after_crawl_id`.
    pub fn sample_crawl_counters(limit: u32, after_crawl_id: Option<&str>) -> (step: Step)
        ensures
            step.deep_view() == sample_start(
                CounterKind::CrawlQueued,
                limit,
                text_view(after_crawl_id),
            ),
    {
        sample(CounterKind::CrawlQueued, limit, after_crawl_id)
    }

    /// Begins the reconciling of the counter of a team's queued jobs with its queue.
    pub fn reconcile_team_queue_counter(team_id: &str) -> (step: Step)
        ensures
            step.deep_view() == reconcile_start(
                CounterKind::TeamQueued,
                queue_prefix(encode_utf8(team_id@)),
                team_id@,
                None,
                QUEUE_SCAN_LIMIT,
            ),
    {
        reconcile(
            CounterKind::TeamQueued,
            build_queue_prefix(team_id),
            team_id,
            None,
            QUEUE_SCAN_LIMIT,
        )
    }

    /// Begins the reconciling of the counter of a crawl's queued jobs with its crawl entries.
    pub fn reconcile_crawl_queue_counter(crawl_id: &str) -> (step: Step)
        ensures
            step.deep_view() == reconcile_start(
                CounterKind::CrawlQueued,
                crawl_index_prefix(encode_utf8(crawl_id@)),
                crawl_id@,
                None,
                QUEUE_SCAN_LIMIT,
            ),
    {
        reconcile(
            CounterKind::CrawlQueued,
            build_crawl_index_prefix(crawl_id),
            crawl_id,
            None,
            QUEUE_SCAN_LIMIT,
        )
    }

    /// Begins the reconciling of the counter of a team's active jobs with its active entries
    /// that expire after `now`.
    pub fn reconcile_team_active_counter_at(team_id: &str, now: i64) -> (step: Step)
        ensures
            step.deep_view() == reconcile_start(
                CounterKind::TeamActive,
                active_prefix(encode_utf8(team_id@)),
                team_id@,
                Some(now),
                ACTIVE_SCAN_LIMIT,
            ),
    {
        reconcile(
            CounterKind::TeamActive,
            build_active_prefix(team_id),
            team_id,
            Some(now),
            ACTIVE_SCAN_LIMIT,
        )
    }

    /// Begins the reconciling of the counter of a team's active jobs at the time that the
    /// clock shows.
    pub fn reconcile_team_active_counter(team_id: &str) -> (r: Result<Step, FdbError>)
        ensures
            match r {
                Ok(step) => exists|now: i64|
                    step.deep_view() == #[trigger] reconcile_start(
                        CounterKind::TeamActive,
                        active_prefix(encode_utf8(team_id@)),
                        team_id@,
                        Some(now),
                        ACTIVE_SCAN_LIMIT,
                    ),
                Err(e) => e.kind() == Failure::Other,
            },
    {
        match now_ms() {
            Some(now) => Ok(Self::reconcile_team_active_counter_at(team_id, now)),
            None => Err(clock_failure()),
        }
    }

    /// Begins the reconciling of the counter of a crawl's active jobs with its active
    /// entries that expire after `now`.
    pub fn reconcile_crawl_active_counter_at(crawl_id: &str, now: i64) -> (step: Step)
        ensures
            step.deep_view() == reconcile_start(
                CounterKind::CrawlActive,
                active_crawl_prefix(encode_utf8(crawl_id@)),
                crawl_id@,
                Some(now),
                ACTIVE_SCAN_LIMIT,
            ),
    {
        reconcile(
            CounterKind::CrawlActive,
            build_active_crawl_prefix(crawl_id),
            crawl_id,
            Some(now),
            ACTIVE_SCAN_LIMIT,
        )
    }

    /// Begins the reconciling of the counter of a crawl's active jobs at the time that the
    /// clock shows.
    pub fn reconcile_crawl_active_counter(crawl_id: &str) -> (r: Result<Step, FdbError>)
        ensures
            match r {
                Ok(step) => exists|now: i64|
                    step.deep_view() == #[trigger] reconcile_start(
                        CounterKind::CrawlActive,
                        active_crawl_prefix(encode_utf8(crawl_id@)),
                        crawl_id@,
                        Some(now),
                        ACTIVE_SCAN_LIMIT,
                    ),
                Err(e) => e.kind() == Failure::Other,
            },
    {
        match now_ms() {
            Some(now) => Ok(Self::reconcile_crawl_active_counter_at(crawl_id, now)),
            None => Err(clock_failure()),
        }
    }

    /// Asks the store for one key that nothing writes, to see that it answers.
    pub fn health_check() -> (step: Step)
        ensures
            step.deep_view() == health_start(),
    {
        let name = "__health__";
        Step::Ask(
            Request::Get { key: copy_bytes(name.as_bytes()), snapshot: false, txn: Txn::Fresh },
            Pending::Health,
        )
    }
}

} // verus!
