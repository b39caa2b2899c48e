//! Popping: which of the scanned jobs a worker may try to claim, what a claim holds, and who
//! has won a job.

use crate::handle::{base64_bytes, handle_key};
use crate::job::{decode_job, decode_job_spec, FdbQueueJob, JobView};
use crate::json::{
    json_as_str, json_from_i64, json_from_slice, json_from_str, json_index, json_int,
    json_is_object, json_member, json_null, json_parsed, json_set, json_text,
};
use crate::plan::{empty_plan, job_removal, push_job_removal};
use crate::store::{copy_bytes, Change, Entry, KeyValue, Mutation};
use vstd::prelude::*;
use vstd::utf8::encode_utf8;

verus! {

/// A job that a scan has found, with the key under which it is queued.
#[derive(Clone, Debug)]
pub struct Candidate {
    pub queue_key: Vec<u8>,
    pub job: FdbQueueJob,
}

/// A scanned job, as the contracts speak of it.
pub struct CandidateView {
    pub queue_key: Seq<u8>,
    pub job: JobView,
}

impl DeepView for Candidate {
    type V = CandidateView;

    open spec fn deep_view(&self) -> CandidateView {
        CandidateView { queue_key: self.queue_key@, job: self.job.deep_view() }
    }
}

/// A job whose time-out lies before `now`.
pub open spec fn is_expired(job: JobView, now: i64) -> bool {
    job.times_out_at matches Some(t) && t < now
}

/// A job of a crawl that the caller has blocked.
pub open spec fn is_blocked(job: JobView, blocked: Seq<Seq<char>>) -> bool {
    job.crawl_id matches Some(c) && blocked.contains(c)
}

/// Whether a worker may try to claim the job of a scanned entry: its value is a job record,
/// the job has not expired, and its crawl is not blocked.
pub open spec fn is_candidate(entry: Entry, blocked: Seq<Seq<char>>, now: i64) -> bool {
    decode_job_spec(entry.value) matches Some(job) && !is_expired(job, now) && !is_blocked(
        job,
        blocked,
    )
}

/// Whether the job of a scanned entry has expired.
pub open spec fn is_expired_entry(entry: Entry, now: i64) -> bool {
    decode_job_spec(entry.value) matches Some(job) && is_expired(job, now)
}

/// A scanned entry as a job with its queue key.
pub open spec fn scanned(entry: Entry) -> CandidateView {
    CandidateView { queue_key: entry.key, job: decode_job_spec(entry.value).unwrap() }
}

/// The jobs that a worker may try to claim, in the order of the scan.
pub open spec fn candidates_of(entries: Seq<Entry>, blocked: Seq<Seq<char>>, now: i64) -> Seq<
    CandidateView,
>
    decreases entries.len(),
{
    if entries.len() == 0 {
        Seq::empty()
    } else {
        let rest = candidates_of(entries.drop_last(), blocked, now);
        if is_candidate(entries.last(), blocked, now) {
            rest.push(scanned(entries.last()))
        } else {
            rest
        }
    }
}

/// The jobs of a scan that have expired, in the order of the scan.
pub open spec fn expired_of(entries: Seq<Entry>, now: i64) -> Seq<CandidateView>
    decreases entries.len(),
{
    if entries.len() == 0 {
        Seq::empty()
    } else {
        let rest = expired_of(entries.drop_last(), now);
        if is_expired_entry(entries.last(), now) {
            rest.push(scanned(entries.last()))
        } else {
            rest
        }
    }
}

/// What clears the expired jobs that a pop has come across.
pub open spec fn expired_cleanup(team: Seq<u8>, expired: Seq<CandidateView>) -> Seq<Change>
    decreases expired.len(),
{
    if expired.len() == 0 {
        Seq::empty()
    } else {
        expired_cleanup(team, expired.drop_last()) + job_removal(
            expired.last().queue_key,
            team,
            expired.last().job,
        )
    }
}

/// Every candidate comes from an entry of the scan, is fresh, and is of no blocked crawl; and
/// the candidates stand in the order of their entries.
pub proof fn lemma_candidates(entries: Seq<Entry>, blocked: Seq<Seq<char>>, now: i64)
    ensures
        candidates_of(entries, blocked, now).len() <= entries.len(),
        forall|i: int|
            0 <= i < candidates_of(entries, blocked, now).len() ==> {
                let c = #[trigger] candidates_of(entries, blocked, now)[i];
                &&& !is_expired(c.job, now)
                &&& !is_blocked(c.job, blocked)
                &&& exists|j: int|
                    0 <= j < entries.len() && is_candidate(entries[j], blocked, now) && c
                        == scanned(#[trigger] entries[j])
            },
        forall|i1: int, i2: int|
            0 <= i1 < i2 < candidates_of(entries, blocked, now).len() ==> exists|
                j1: int,
                j2: int,
            |
                0 <= j1 < j2 < entries.len() && #[trigger] candidates_of(entries, blocked, now)[i1]
                    == scanned(#[trigger] entries[j1]) && #[trigger] candidates_of(
                    entries,
                    blocked,
                    now,
                )[i2] == scanned(#[trigger] entries[j2]),
    decreases entries.len(),
{
    if entries.len() > 0 {
        let head = entries.drop_last();
        let rest = candidates_of(head, blocked, now);
        let all = candidates_of(entries, blocked, now);
        lemma_candidates(head, blocked, now);
        assert forall|i: int| 0 <= i < all.len() implies {
            let c = #[trigger] all[i];
            &&& !is_expired(c.job, now)
            &&& !is_blocked(c.job, blocked)
            &&& exists|j: int|
                0 <= j < entries.len() && is_candidate(entries[j], blocked, now) && c == scanned(
                    #[trigger] entries[j],
                )
        } by {
            if i < rest.len() {
                let c = rest[i];
                let j = choose|j: int|
                    0 <= j < head.len() && is_candidate(head[j], blocked, now) && c == scanned(
                        #[trigger] head[j],
                    );
                assert(head[j] == entries[j]);
            } else {
                assert(all[i] == scanned(entries[entries.len() - 1]));
            }
        }
        assert forall|i1: int, i2: int| 0 <= i1 < i2 < all.len() implies exists|j1: int, j2: int|
            0 <= j1 < j2 < entries.len() && #[trigger] all[i1] == scanned(#[trigger] entries[j1])
                && #[trigger] all[i2] == scanned(#[trigger] entries[j2]) by {
            if i2 < rest.len() {
                let (j1, j2) = choose|j1: int, j2: int|
                    0 <= j1 < j2 < head.len() && #[trigger] rest[i1] == scanned(
                        #[trigger] head[j1],
                    ) && #[trigger] rest[i2] == scanned(#[trigger] head[j2]);
                assert(head[j1] == entries[j1]);
                assert(head[j2] == entries[j2]);
            } else {
                let c = rest[i1];
                let j1 = choose|j: int|
                    0 <= j < head.len() && is_candidate(head[j], blocked, now) && c == scanned(
                        #[trigger] head[j],
                    );
                assert(head[j1] == entries[j1]);
                let j2 = entries.len() - 1;
                assert(all[i2] == scanned(entries[j2]));
            }
        }
    }
}

/// Whether `crawl_id` names one of the blocked crawls.
pub fn is_blocked_crawl(crawl_id: &Option<String>, blocked: &Vec<String>) -> (r: bool)
    ensures
        r == (crawl_id.deep_view() matches Some(c) && blocked.deep_view().contains(c)),
{
    match crawl_id {
        None => false,
        Some(c) => {
            let mut i: usize = 0;
            while i < blocked.len()
                invariant
                    i <= blocked.len(),
                    crawl_id.deep_view() == Some(c@),
                    forall|j: int| 0 <= j < i ==> blocked.deep_view()[j] != c@,
                decreases blocked.len() - i,
            {
                if blocked[i] == *c {
                    assert(blocked.deep_view()[i as int] == c@);
                    assert(blocked.deep_view().contains(c@));
                    return true;
                }
                assert(blocked.deep_view()[i as int] == blocked@[i as int]@);
                i += 1;
            }
            false
        },
    }
}

/// Sorts the entries of a scan into the jobs that a worker may try to claim and the jobs that
/// have expired. An entry whose value is no job record is passed over.
pub fn partition(entries: &Vec<KeyValue>, blocked: &Vec<String>, now: i64) -> (r: (
    Vec<Candidate>,
    Vec<Candidate>,
))
    ensures
        r.0.deep_view() == candidates_of(entries.deep_view(), blocked.deep_view(), now),
        r.1.deep_view() == expired_of(entries.deep_view(), now),
{
    let mut candidates: Vec<Candidate> = Vec::new();
    let mut expired: Vec<Candidate> = Vec::new();
    let ghost all = entries.deep_view();
    let ghost names = blocked.deep_view();
    let mut i: usize = 0;
    assert(candidates.deep_view() =~= candidates_of(all.take(0), names, now));
    assert(expired.deep_view() =~= expired_of(all.take(0), now));
    while i < entries.len()
        invariant
            i <= entries.len(),
            all == entries.deep_view(),
            names == blocked.deep_view(),
            candidates.deep_view() == candidates_of(all.take(i as int), names, now),
            expired.deep_view() == expired_of(all.take(i as int), now),
        decreases entries.len() - i,
    {
        let entry = &entries[i];
        let ghost before = all.take(i as int);
        let ghost upto = all.take(i + 1);
        assert(upto.drop_last() =~= before);
        assert(upto.last() == entry.deep_view());
        let ghost old_candidates = candidates.deep_view();
        let ghost old_expired = expired.deep_view();
        match decode_job(entry.value.as_slice()) {
            Ok(job) => {
                let late = match job.times_out_at {
                    Some(t) => t < now,
                    None => false,
                };
                if late {
                    let c = Candidate { queue_key: copy_bytes(entry.key.as_slice()), job };
                    expired.push(c);
                    assert(expired.deep_view() =~= old_expired.push(scanned(entry.deep_view())));
                } else if !is_blocked_crawl(&job.crawl_id, blocked) {
                    let c = Candidate { queue_key: copy_bytes(entry.key.as_slice()), job };
                    candidates.push(c);
                    assert(candidates.deep_view() =~= old_candidates.push(
                        scanned(entry.deep_view()),
                    ));
                }
            },
            Err(_) => {},
        }
        i += 1;
    }
    assert(all.take(i as int) =~= all);
    (candidates, expired)
}

/// Plans the clearing of the expired jobs that a pop has come across. Their counter and
/// expiry keys are those of the team that is popped.
pub fn plan_expired_cleanup(team_id: &str, expired: &Vec<Candidate>) -> (plan: Vec<Mutation>)
    ensures
        plan.deep_view() == expired_cleanup(encode_utf8(team_id@), expired.deep_view()),
{
    let mut plan = empty_plan();
    let ghost all = expired.deep_view();
    let ghost team = encode_utf8(team_id@);
    let mut i: usize = 0;
    assert(all.take(0) =~= Seq::<CandidateView>::empty());
    while i < expired.len()
        invariant
            i <= expired.len(),
            all == expired.deep_view(),
            team == encode_utf8(team_id@),
            plan.deep_view() == expired_cleanup(team, all.take(i as int)),
        decreases expired.len() - i,
    {
        let c = &expired[i];
        assert(all.take(i + 1).drop_last() =~= all.take(i as int));
        assert(all.take(i + 1).last() == c.deep_view());
        push_job_removal(&mut plan, c.queue_key.as_slice(), team_id, &c.job);
        i += 1;
    }
    assert(all.take(i as int) =~= all);
    plan
}

/// Whether `doc` is the document of a claim: who claims, the handle of the job's queue key,
/// and when.
pub open spec fn is_claim_document(
    doc: serde_json::Value,
    worker: Seq<char>,
    handle: Seq<char>,
    now: i64,
) -> bool {
    &&& json_is_object(doc)
    &&& json_text(json_member(doc, "workerId"@)) == Some(worker)
    &&& json_text(json_member(doc, "queueKey"@)) == Some(handle)
    &&& json_int(json_member(doc, "claimedAt"@)) == Some(now)
}

/// The document of a claim.
pub fn claim_document(worker_id: &str, handle: &str, now: i64) -> (doc: serde_json::Value)
    ensures
        is_claim_document(doc, worker_id@, handle@, now),
{
    proof {
        reveal_strlit("workerId");
        reveal_strlit("queueKey");
        reveal_strlit("claimedAt");
        assert("workerId"@.len() == 8);
        assert("claimedAt"@.len() == 9);
        assert("workerId"@[0] != "queueKey"@[0]);
    }
    let mut doc = json_null();
    json_set(&mut doc, "workerId", json_from_str(worker_id));
    json_set(&mut doc, "queueKey", json_from_str(handle));
    json_set(&mut doc, "claimedAt", json_from_i64(now));
    doc
}

/// Who holds a claim, as its value says: nothing where the value is not JSON, and no one
/// where the JSON names no worker.
pub open spec fn claimant(value: Seq<u8>) -> Option<Option<Seq<char>>> {
    match json_parsed(value) {
        Some(doc) => Some(json_text(json_member(doc, "workerId"@))),
        None => None,
    }
}

/// Reads who holds a claim.
pub fn read_claimant(value: &[u8]) -> (r: Result<Option<String>, serde_json::Error>)
    ensures
        match r {
            Ok(w) => claimant(value@) == Some(w.deep_view()),
            Err(_) => claimant(value@).is_none(),
        },
{
    match json_from_slice(value) {
        Ok(doc) => match json_as_str(json_index(&doc, "workerId")) {
            Some(w) => Ok(Some(w.to_owned())),
            None => Ok(None),
        },
        Err(e) => Err(e),
    }
}

/// The queue key that a claim refers to, where its value is JSON that holds a handle in
/// base64.
pub open spec fn claimed_queue_key(value: Seq<u8>) -> Option<Seq<u8>> {
    match json_parsed(value) {
        Some(doc) => match json_text(json_member(doc, "queueKey"@)) {
            Some(handle) => base64_bytes(handle),
            None => None,
        },
        None => None,
    }
}

/// Reads the queue key that a claim refers to.
pub fn read_claimed_queue_key(value: &[u8]) -> (r: Option<Vec<u8>>)
    ensures
        match r {
            Some(k) => claimed_queue_key(value@) == Some(k@),
            None => claimed_queue_key(value@).is_none(),
        },
{
    match json_from_slice(value) {
        Ok(doc) => match json_as_str(json_index(&doc, "queueKey")) {
            Some(handle) => handle_key(handle),
            None => None,
        },
        Err(_) => None,
    }
}

} // verus!
