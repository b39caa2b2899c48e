//! The changes that the engine plans: the building blocks of its transactions.

use crate::codec::{encode_i64_le, i64_le};
use crate::job::{as_deref, FdbQueueJob, JobView};
use crate::keys::{
    build_counter_key, build_crawl_index_key, build_ttl_index_key, counter_key, crawl_index_key,
    ttl_index_key, CounterKind,
};
use crate::store::{copy_bytes, Change, Mutation};
use vstd::prelude::*;
use vstd::utf8::encode_utf8;

verus! {

/// Adding `delta` to a counter of `id`.
pub open spec fn counter_add(kind: CounterKind, id: Seq<u8>, delta: int) -> Change {
    Change::Add { key: counter_key(kind, id), operand: i64_le(delta as i64) }
}

/// What takes a job out of the queue: its record, its share of the team's counter, its
/// expiry entry where it has a time-out, and its crawl entry and share of the crawl's counter
/// where it belongs to a crawl.
pub open spec fn job_removal(queue_key: Seq<u8>, team: Seq<u8>, job: JobView) -> Seq<Change> {
    seq![Change::Clear { key: queue_key }, counter_add(CounterKind::TeamQueued, team, -1)] + (
    match job.times_out_at {
        Some(t) => seq![Change::Clear { key: ttl_index_key(t, team, encode_utf8(job.id)) }],
        None => Seq::empty(),
    }) + (match job.crawl_id {
        Some(c) => seq![
            Change::Clear { key: crawl_index_key(encode_utf8(c), encode_utf8(job.id)) },
            counter_add(CounterKind::CrawlQueued, encode_utf8(c), -1),
        ],
        None => Seq::empty(),
    })
}

/// Appends a mutation to a plan.
pub fn push_change(plan: &mut Vec<Mutation>, mutation: Mutation)
    ensures
        final(plan).deep_view() == old(plan).deep_view().push(mutation.deep_view()),
{
    plan.push(mutation);
    assert(plan.deep_view() =~= old(plan).deep_view().push(mutation.deep_view()));
}

/// An empty plan.
pub fn empty_plan() -> (plan: Vec<Mutation>)
    ensures
        plan.deep_view() == Seq::<Change>::empty(),
{
    let plan: Vec<Mutation> = Vec::new();
    assert(plan.deep_view() =~= Seq::<Change>::empty());
    plan
}

/// The atomic add of `delta` to a counter of `id`.
pub fn add_to_counter(kind: CounterKind, id: &str, delta: i64) -> (mutation: Mutation)
    ensures
        mutation.deep_view() == counter_add(kind, encode_utf8(id@), delta as int),
{
    let operand = encode_i64_le(delta);
    Mutation::Add { key: build_counter_key(kind, id), operand: copy_bytes(operand.as_slice()) }
}

/// Appends what takes a job out of the queue.
pub fn push_job_removal(
    plan: &mut Vec<Mutation>,
    queue_key: &[u8],
    team_id: &str,
    job: &FdbQueueJob,
)
    ensures
        final(plan).deep_view() == old(plan).deep_view() + job_removal(
            queue_key@,
            encode_utf8(team_id@),
            job.deep_view(),
        ),
{
    let ghost before = plan.deep_view();
    let ghost team = encode_utf8(team_id@);
    let ghost id = encode_utf8(job.id@);
    push_change(plan, Mutation::Clear { key: copy_bytes(queue_key) });
    push_change(plan, add_to_counter(CounterKind::TeamQueued, team_id, -1));
    let ghost head = seq![
        Change::Clear { key: queue_key@ },
        counter_add(CounterKind::TeamQueued, team, -1),
    ];
    assert(plan.deep_view() =~= before + head);
    let ghost ttl = match job.times_out_at {
        Some(t) => seq![Change::Clear { key: ttl_index_key(t, team, id) }],
        None => Seq::empty(),
    };
    if let Some(t) = job.times_out_at {
        push_change(plan, Mutation::Clear { key: build_ttl_index_key(t, team_id, job.id.as_str()) });
    }
    assert(plan.deep_view() =~= before + head + ttl);
    let ghost crawl = match job.deep_view().crawl_id {
        Some(c) => seq![
            Change::Clear { key: crawl_index_key(encode_utf8(c), id) },
            counter_add(CounterKind::CrawlQueued, encode_utf8(c), -1),
        ],
        None => Seq::empty(),
    };
    if let Some(c) = as_deref(&job.crawl_id) {
        push_change(plan, Mutation::Clear { key: build_crawl_index_key(c, job.id.as_str()) });
        push_change(plan, add_to_counter(CounterKind::CrawlQueued, c, -1));
    }
    assert(plan.deep_view() =~= before + (head + ttl + crawl));
}

} // verus!
