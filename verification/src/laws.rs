//! What holds of the queue, whatever the store holds and whoever else works on it.

use crate::codec::{
    be_bytes, i32_be, i64_be, i64_le, lemma_be_bytes_len, lemma_be_round_trip,
    lemma_decode_encode_i64_be, lemma_decode_encode_i64_le, lemma_i32_be_order, lemma_i64_be_order,
    lemma_low_i32, lemma_pow256_values, lemma_u32_be_first_byte, u32_be, u32_be_at, u32_le,
    unsigned64,
};
use crate::engine::{
    active_kind, active_tag, after_complete, after_expired_active_committed,
    after_expired_jobs_committed, after_orphan_check, after_pop_claim, after_pop_cleanup,
    after_pop_verify, after_reconcile_read, after_reconcile_scan, current, follows,
    follows_pop_probe, last_key, orphan_advance, orphan_round_end, pop_skip, pop_try, skip_unkeyed,
    BATCH, MAX_ROUNDS, OrphanView, OutcomeView, PendingView, PopView, StepView,
};
use crate::error::Failure;
use crate::handle::base64_bytes;
use crate::janitor::{
    active_removal, active_sweep, claims_to_check, is_claim_key, is_stale, orphan_clears,
    ttl_key_ids, ttl_removal, ttl_sweep, ClaimInfoView,
};
use crate::job::{decode_job_spec, ClaimedJobView, JobView};
use crate::json::{json_int, json_member, json_parsed, json_text};
use crate::keys::{
    claim_key, claim_key_with_versionstamp, claims_prefix, counter_key, crawl_index_key,
    end_key_spec, len_prefixed, next_key_spec, queue_key, queue_prefix, short_id, ttl_index_key,
    ttl_index_prefix_until, versionstamp_placeholder, CLAIMS_TAG, COUNTER_TAG, CRAWL_INDEX_TAG,
    QUEUE_TAG, TTL_INDEX_TAG, CounterKind,
};
use crate::model::{
    apply, apply_all, clears, is_range_read, lemma_add_counts, lemma_apply_all_concat,
    lemma_apply_all_one, lemma_claim_lands, lemma_cleared_stays_cleared, lemma_untouched_stays,
    lookup, may_write, Store,
};
use crate::order::{
    has_prefix, in_range, lemma_lex_lt_asymmetric, lemma_lex_lt_common_prefix, lemma_lex_lt_fields,
    lemma_lex_lt_transitive, lemma_lex_total, lemma_prefix_range, lex_le, lex_lt, precedes_at,
};
use crate::plan::{counter_add, job_removal};
use crate::pop::{
    candidates_of, claimant, claimed_queue_key, is_blocked, is_candidate, lemma_candidates, scanned,
};
use crate::queue::{
    active_key_of, active_prefix_of, complete_start, push_plan, release_step, times_out_at,
};
use crate::scan::{
    active_ids, counter_value, leading_id_bytes, lemma_live_count_bound, live_count, trailing_id,
};
use crate::store::{Answer, Change, Entry, Query, Txn};
use vstd::prelude::*;
use vstd::utf8::{encode_utf8, encode_utf8_decode_utf8, encode_utf8_valid_utf8};

verus! {

/// Priority order. Within a team's queue the keys of two jobs sort by priority, then by the
/// time of creation, then by the job's id as it stands in the key, where priorities and times
/// are not negative; ids of one length sort by their bytes. A scan, and with it a pop, meets
/// the job of the smaller key first: the smaller the number, the higher the priority.
pub proof fn law_queue_keys_sort_by_priority(
    team: Seq<u8>,
    pa: i32,
    ca: i64,
    ja: Seq<u8>,
    pb: i32,
    cb: i64,
    jb: Seq<u8>,
)
    requires
        0 <= pa,
        0 <= pb,
        0 <= ca,
        0 <= cb,
    ensures
        lex_lt(queue_key(team, pa, ca, ja), queue_key(team, pb, cb, jb)) <==> pa < pb || (pa == pb
            && (ca < cb || (ca == cb && lex_lt(len_prefixed(ja), len_prefixed(jb))))),
        ja.len() == jb.len() ==> (lex_lt(len_prefixed(ja), len_prefixed(jb)) <==> lex_lt(ja, jb)),
{
    if ja.len() == jb.len() {
        lemma_lex_lt_common_prefix(u32_be((ja.len() % 0x1_0000_0000) as u32), ja, jb);
    }
    let prefix = queue_prefix(team);
    let t1 = i64_be(ca) + len_prefixed(ja);
    let t2 = i64_be(cb) + len_prefixed(jb);
    let r1 = i32_be(pa) + t1;
    let r2 = i32_be(pb) + t2;
    assert(queue_key(team, pa, ca, ja) =~= prefix + r1);
    assert(queue_key(team, pb, cb, jb) =~= prefix + r2);
    lemma_lex_lt_common_prefix(prefix, r1, r2);
    lemma_be_bytes_len(pa as nat, 4);
    lemma_be_bytes_len(pb as nat, 4);
    lemma_be_bytes_len(ca as nat, 8);
    lemma_be_bytes_len(cb as nat, 8);
    lemma_lex_lt_fields(i32_be(pa), t1, i32_be(pb), t2);
    lemma_lex_lt_fields(i64_be(ca), len_prefixed(ja), i64_be(cb), len_prefixed(jb));
    lemma_i32_be_order(pa, pb);
    lemma_i64_be_order(ca, cb);
}

/// Versionstamp order. Of two claims on one job the one with the smaller versionstamp has
/// the smaller key, whoever the workers are: the claims of a job sort by the order in which
/// they were committed.
pub proof fn law_claims_sort_by_versionstamp(
    job: Seq<u8>,
    s1: Seq<u8>,
    w1: Seq<u8>,
    s2: Seq<u8>,
    w2: Seq<u8>,
)
    requires
        s1.len() == s2.len(),
        lex_lt(s1, s2),
    ensures
        lex_lt(claim_key(job, s1, w1), claim_key(job, s2, w2)),
{
    let prefix = claims_prefix(job);
    let r1 = s1 + len_prefixed(w1);
    let r2 = s2 + len_prefixed(w2);
    assert(claim_key(job, s1, w1) =~= prefix + r1);
    assert(claim_key(job, s2, w2) =~= prefix + r2);
    lemma_lex_lt_common_prefix(prefix, r1, r2);
    lemma_lex_lt_fields(s1, len_prefixed(w1), s2, len_prefixed(w2));
}

/// A claim lies in the range that a probe for the claims on its job scans, and a release
/// clears, unless its versionstamp begins with the byte `0xff`.
pub proof fn law_claim_in_range(job: Seq<u8>, stamp: Seq<u8>, worker: Seq<u8>)
    requires
        stamp.len() == 10,
        stamp[0] != 0xffu8,
    ensures
        in_range(
            claim_key(job, stamp, worker),
            claims_prefix(job),
            end_key_spec(claims_prefix(job)),
        ),
{
    let prefix = claims_prefix(job);
    let key = claim_key(job, stamp, worker);
    assert(key =~= prefix + (stamp + len_prefixed(worker)));
    assert(key.subrange(0, prefix.len() as int) =~= prefix);
    assert(key[prefix.len() as int] == stamp[0]);
    lemma_prefix_range(key, prefix);
}

/// The key of a job of a team lies in the range that a scan of the team's queue covers,
/// where the job's priority is not negative.
pub proof fn law_queue_key_in_range(team: Seq<u8>, priority: i32, created_at: i64, job: Seq<u8>)
    requires
        0 <= priority,
    ensures
        in_range(
            queue_key(team, priority, created_at, job),
            queue_prefix(team),
            end_key_spec(queue_prefix(team)),
        ),
{
    let prefix = queue_prefix(team);
    let key = queue_key(team, priority, created_at, job);
    let rest = i32_be(priority) + i64_be(created_at) + len_prefixed(job);
    assert(key =~= prefix + rest);
    assert(key.subrange(0, prefix.len() as int) =~= prefix);
    reveal_with_fuel(be_bytes, 5);
    lemma_be_bytes_len(priority as nat, 4);
    assert(key[prefix.len() as int] == i32_be(priority)[0]);
    assert(i32_be(priority)[0] < 0x80u8);
    lemma_prefix_range(key, prefix);
}

/// The pop that a waiting engine is in the middle of, where it is in the middle of one.
pub open spec fn pop_of(pending: PendingView) -> Option<PopView> {
    match pending {
        PendingView::PopCleanup { pop } => Some(pop),
        PendingView::PopProbe { pop } => Some(pop),
        PendingView::PopClaim { pop, handle } => Some(pop),
        PendingView::PopVerify { pop, handle } => Some(pop),
        _ => None,
    }
}

/// Whether a step is one of the pop `before`, further on or at its end: it has the same
/// worker and candidates and stands at no earlier job, or it ends the pop with nothing or
/// with the job that the pop was trying.
pub open spec fn goes_forward(before: PopView, step: StepView) -> bool {
    match step {
        StepView::Ask(_, next) => {
            &&& pop_of(next) matches Some(after)
            &&& after.worker == before.worker
            &&& after.candidates == before.candidates
            &&& after.next >= before.next
        },
        StepView::Done(outcome) => outcome matches OutcomeView::Job(won) && (won matches Some(
            claimed,
        ) ==> claimed.job == current(before).job),
    }
}

proof fn lemma_pop_try_goes_forward(before: PopView, pop: PopView)
    requires
        pop.worker == before.worker,
        pop.candidates == before.candidates,
        pop.next >= before.next,
    ensures
        goes_forward(before, pop_try(pop)),
{
}

proof fn lemma_pop_skip_goes_forward(pop: PopView)
    requires
        pop.next < pop.candidates.len() <= usize::MAX,
    ensures
        goes_forward(pop, pop_skip(pop)),
{
    lemma_pop_try_goes_forward(pop, PopView { next: (pop.next + 1) as usize, ..pop });
}

/// A pop keeps its worker and its candidates from step to step, and never turns back to a
/// job that it has left: it takes the candidates in the order of the scan.
pub proof fn law_pop_goes_forward(
    pending: PendingView,
    answer: Answer,
    result: Result<StepView, Failure>,
)
    requires
        pop_of(pending) matches Some(pop) && pop.candidates.len() <= usize::MAX,
        follows(pending, answer, result),
    ensures
        result matches Ok(step) ==> goes_forward(pop_of(pending).unwrap(), step),
{
    let before = pop_of(pending).unwrap();
    match pending {
        PendingView::PopCleanup { pop } => {
            assert(result == after_pop_cleanup(pop, answer));
            lemma_pop_try_goes_forward(pop, pop);
        },
        PendingView::PopProbe { pop } => {
            assert(follows_pop_probe(pop, answer, result));
            if pop.next < pop.candidates.len() {
                lemma_pop_skip_goes_forward(pop);
            }
        },
        PendingView::PopClaim { pop, handle } => {
            assert(result == after_pop_claim(pop, handle, answer));
        },
        PendingView::PopVerify { pop, handle } => {
            assert(result == after_pop_verify(pop, handle, answer));
            if pop.next < pop.candidates.len() {
                lemma_pop_skip_goes_forward(pop);
            }
        },
        _ => {},
    }
}

/// Blocked-crawl avoidance. A pop never returns a job of a crawl that its caller has blocked:
/// the jobs that it may try are the fresh jobs of the scan, in the order of the scan, without
/// those of blocked crawls, and the job that it returns is one of them.
pub proof fn law_pop_avoids_blocked_crawls(
    entries: Seq<Entry>,
    blocked: Seq<Seq<char>>,
    now: i64,
    pop: PopView,
    handle: Seq<char>,
    answer: Answer,
)
    requires
        pop.candidates == candidates_of(entries, blocked, now),
    ensures
        after_pop_verify(pop, handle, answer) matches Ok(
            StepView::Done(OutcomeView::Job(Some(claimed))),
        ) ==> !is_blocked(claimed.job, blocked) && exists|j: int|
            0 <= j < entries.len() && claimed.job == scanned(#[trigger] entries[j]).job,
{
    lemma_candidates(entries, blocked, now);
    match after_pop_verify(pop, handle, answer) {
        Ok(StepView::Done(OutcomeView::Job(Some(claimed)))) => {
            let c = pop.candidates[pop.next as int];
            assert(claimed.job == c.job);
            let j = choose|j: int|
                0 <= j < entries.len() && is_candidate(entries[j], blocked, now) && c
                    == scanned(#[trigger] entries[j]);
            assert(claimed.job == scanned(entries[j]).job);
        },
        _ => {},
    }
}

/// The candidates of a pop stand in the order of their keys: the store hands out the
/// entries of a scan in key order, and the pop keeps that order.
pub proof fn law_candidates_ascend(
    store: Store,
    begin: Seq<u8>,
    end: Seq<u8>,
    limit: nat,
    entries: Seq<Entry>,
    blocked: Seq<Seq<char>>,
    now: i64,
    i1: int,
    i2: int,
)
    requires
        is_range_read(store, begin, end, limit, entries),
        0 <= i1 < i2 < candidates_of(entries, blocked, now).len(),
    ensures
        lex_lt(
            candidates_of(entries, blocked, now)[i1].queue_key,
            candidates_of(entries, blocked, now)[i2].queue_key,
        ),
{
    lemma_candidates(entries, blocked, now);
    let all = candidates_of(entries, blocked, now);
    let (ja, jb) = choose|ja: int, jb: int|
        0 <= ja < jb < entries.len() && #[trigger] all[i1] == scanned(#[trigger] entries[ja])
            && #[trigger] all[i2] == scanned(#[trigger] entries[jb]);
    assert(lex_lt(entries[ja].key, entries[jb].key));
}

/// Single winner, at one moment. Of the pops that read the same first claim on a job, only
/// those of one worker win the job: the worker that the claim names.
pub proof fn law_one_claim_one_winner(
    first: Seq<Entry>,
    pop1: PopView,
    handle1: Seq<char>,
    pop2: PopView,
    handle2: Seq<char>,
)
    requires
        after_pop_verify(pop1, handle1, Answer::Range(first)) matches Ok(
            StepView::Done(OutcomeView::Job(Some(_))),
        ),
        after_pop_verify(pop2, handle2, Answer::Range(first)) matches Ok(
            StepView::Done(OutcomeView::Job(Some(_))),
        ),
    ensures
        pop1.worker == pop2.worker,
{
}

/// Whether `later` is `earlier` after more claims were committed in a range: every entry of
/// the range is still there as it was, and every entry that has come sorts after all that
/// were there.
pub open spec fn grown_after(earlier: Store, later: Store, begin: Seq<u8>, end: Seq<u8>) -> bool {
    &&& forall|k: Seq<u8>|
        #![trigger earlier.contains_key(k)]
        earlier.contains_key(k) && in_range(k, begin, end) ==> later.contains_key(k) && later[k]
            == earlier[k]
    &&& forall|k: Seq<u8>, old: Seq<u8>|
        #![trigger later.contains_key(k), earlier.contains_key(old)]
        later.contains_key(k) && in_range(k, begin, end) && !earlier.contains_key(k)
            && earlier.contains_key(old) && in_range(old, begin, end) ==> lex_lt(old, k)
}

/// The first claim stays the first. Once a range holds an entry, the first entry that a
/// scan of it returns is the same after any number of later claims.
pub proof fn law_first_claim_stays(
    earlier: Store,
    later: Store,
    begin: Seq<u8>,
    end: Seq<u8>,
    first: Seq<Entry>,
    again: Seq<Entry>,
)
    requires
        grown_after(earlier, later, begin, end),
        is_range_read(earlier, begin, end, 1, first),
        is_range_read(later, begin, end, 1, again),
        first.len() > 0,
    ensures
        again == first,
{
    let k = first[0].key;
    assert(earlier.contains_key(k));
    assert(later.contains_key(k) && in_range(k, begin, end));
    assert(again.len() == 1);
    let a = again[0].key;
    if a != k {
        assert(lex_lt(a, k));
        if earlier.contains_key(a) {
            assert(lex_lt(k, a)) by {
                assert(earlier.contains_key(a) && in_range(a, begin, end));
                assert(first.last().key == k);
            }
        } else {
            assert(lex_lt(k, a));
        }
        lemma_lex_lt_asymmetric(a, k);
    }
    assert(again[0] == first[0]);
    assert(again =~= first);
}

/// A claim that is committed under a versionstamp greater than those of the claims that a
/// job has leaves these in place and sorts after them.
pub proof fn law_later_claim_sorts_last(
    store: Store,
    job: Seq<u8>,
    worker: Seq<u8>,
    stamp: Seq<u8>,
    value: Seq<u8>,
)
    requires
        stamp.len() == 10,
        claims_prefix(job).len() < 0x1_0000_0000,
        forall|k: Seq<u8>|
            #![trigger store.contains_key(k)]
            store.contains_key(k) && in_range(
                k,
                claims_prefix(job),
                end_key_spec(claims_prefix(job)),
            ) ==> exists|s: Seq<u8>, w: Seq<u8>|
                #![trigger claim_key(job, s, w)]
                k == claim_key(job, s, w) && s.len() == 10 && lex_lt(s, stamp),
    ensures
        grown_after(
            store,
            apply(
                store,
                Change::SetVersionstampedKey {
                    key: claim_key_with_versionstamp(job, worker),
                    value,
                },
                stamp,
            ),
            claims_prefix(job),
            end_key_spec(claims_prefix(job)),
        ),
{
    let begin = claims_prefix(job);
    let end = end_key_spec(begin);
    let new_key = claim_key(job, stamp, worker);
    lemma_claim_lands(job, worker, stamp);
    let later = store.insert(new_key, value);
    assert forall|k: Seq<u8>|
        #![trigger store.contains_key(k)]
        store.contains_key(k) && in_range(k, begin, end) implies later.contains_key(k) && later[k]
            == store[k] by {
        let (s, w) = choose|s: Seq<u8>, w: Seq<u8>|
            #![trigger claim_key(job, s, w)]
            k == claim_key(job, s, w) && s.len() == 10 && lex_lt(s, stamp);
        law_claims_sort_by_versionstamp(job, s, w, stamp, worker);
        lemma_lex_lt_asymmetric(k, new_key);
    }
    assert forall|k: Seq<u8>, old: Seq<u8>|
        #![trigger later.contains_key(k), store.contains_key(old)]
        later.contains_key(k) && in_range(k, begin, end) && !store.contains_key(k)
            && store.contains_key(old) && in_range(old, begin, end) implies lex_lt(old, k) by {
        assert(k == new_key);
        let (s, w) = choose|s: Seq<u8>, w: Seq<u8>|
            #![trigger claim_key(job, s, w)]
            old == claim_key(job, s, w) && s.len() == 10 && lex_lt(s, stamp);
        law_claims_sort_by_versionstamp(job, s, w, stamp, worker);
    }
}

/// Single winner. Two pops that verify their claims on one job, the second after any number
/// of further claims on it, cannot both win it unless they are pops of one worker: both read
/// the first claim, which is the same for both.
pub proof fn law_single_winner(
    earlier: Store,
    later: Store,
    job: Seq<u8>,
    first: Seq<Entry>,
    again: Seq<Entry>,
    pop1: PopView,
    handle1: Seq<char>,
    pop2: PopView,
    handle2: Seq<char>,
)
    requires
        grown_after(earlier, later, claims_prefix(job), end_key_spec(claims_prefix(job))),
        is_range_read(earlier, claims_prefix(job), end_key_spec(claims_prefix(job)), 1, first),
        is_range_read(later, claims_prefix(job), end_key_spec(claims_prefix(job)), 1, again),
        after_pop_verify(pop1, handle1, Answer::Range(first)) matches Ok(
            StepView::Done(OutcomeView::Job(Some(_))),
        ),
        after_pop_verify(pop2, handle2, Answer::Range(again)) matches Ok(
            StepView::Done(OutcomeView::Job(Some(_))),
        ),
    ensures
        pop1.worker == pop2.worker,
{
    law_first_claim_stays(
        earlier,
        later,
        claims_prefix(job),
        end_key_spec(claims_prefix(job)),
        first,
        again,
    );
}

/// Completing a job that is gone. Where the record under the handle's key is missing, the
/// completion ends with `false`: it fails nothing and asks the store for no change.
pub proof fn law_complete_of_missing_job(handle: Seq<char>, store: Store)
    ensures
        match complete_start(handle) {
            Ok(StepView::Ask(Query::Get { key, snapshot, txn }, pending)) => lookup(store, key)
                is None ==> follows(
                pending,
                Answer::Value(lookup(store, key)),
                Ok(StepView::Done(OutcomeView::Flag(false))),
            ),
            Ok(_) => false,
            Err(_) => base64_bytes(handle) is None,
        },
{
}

/// Release leaves the queue intact. The one transaction of a release removes every key of
/// the job's claims range and changes no other key: job records, indexes and counters are as
/// they were.
pub proof fn law_release_leaves_queue(store: Store, job: Seq<char>, stamp: Seq<u8>)
    ensures
        match release_step(job) {
            StepView::Ask(Query::Commit { changes, best_effort, txn }, pending) => {
                let begin = claims_prefix(encode_utf8(job));
                let end = end_key_spec(begin);
                let after = apply_all(store, changes, stamp);
                &&& forall|k: Seq<u8>| in_range(k, begin, end) ==> !after.contains_key(k)
                &&& forall|k: Seq<u8>|
                    !in_range(k, begin, end) ==> #[trigger] lookup(after, k) == lookup(store, k)
                &&& forall|k: Seq<u8>|
                    k.len() > 0 && k[0] != CLAIMS_TAG ==> #[trigger] lookup(after, k)
                        == lookup(store, k)
                &&& follows(pending, Answer::Committed, Ok(StepView::Done(OutcomeView::Unit)))
            },
            _ => false,
        },
{
    let begin = claims_prefix(encode_utf8(job));
    let end = end_key_spec(begin);
    let change = Change::ClearRange { begin, end };
    lemma_apply_all_one(store, change, stamp);
    assert forall|k: Seq<u8>| k.len() > 0 && k[0] != CLAIMS_TAG implies !in_range(
        k,
        begin,
        end,
    ) by {
        lemma_prefix_range(k, begin);
        if has_prefix(k, begin) {
            assert(k.subrange(0, begin.len() as int)[0] == begin[0]);
        }
    }
}

/// Counter convergence, the write. Where a counter does not hold the count, the
/// reconciling writes the count over it: after the commit the counter reads as the count,
/// and the correction returned is the difference. Where it holds the count, nothing is
/// written and the correction is zero.
pub proof fn law_reconcile_converges(
    store: Store,
    counter_key: Seq<u8>,
    actual: i64,
    stamp: Seq<u8>,
)
    ensures
        match after_reconcile_read(
            counter_key,
            actual,
            Answer::Value(lookup(store, counter_key)),
        ) {
            Ok(StepView::Done(outcome)) => outcome == OutcomeView::Count(0)
                && counter_value(lookup(store, counter_key)) == actual,
            Ok(
                StepView::Ask(
                    Query::Commit { changes, best_effort, txn },
                    PendingView::Finish { outcome },
                ),
            ) => {
                &&& counter_value(
                    lookup(apply_all(store, changes, stamp), counter_key),
                ) == actual
                &&& outcome matches OutcomeView::Count(correction) && correction == actual
                    - counter_value(lookup(store, counter_key))
            },
            Ok(_) => false,
            Err(_) => {
                let drift = actual - counter_value(lookup(store, counter_key));
                drift < i64::MIN || drift > i64::MAX
            },
        },
{
    let change = Change::Put { key: counter_key, value: i64_le(actual) };
    lemma_apply_all_one(store, change, stamp);
    lemma_decode_encode_i64_le(actual);
}

/// Counter convergence, the count. Where the scan of what a counter counts comes back
/// shorter than its limit, it holds each key of the range once, and the count that the
/// reconciling goes on with is the number of its entries; for a counter of active jobs, the
/// number of those that expire after the time of the reconciling.
pub proof fn law_reconcile_counts(
    store: Store,
    prefix: Seq<u8>,
    counter_key: Seq<u8>,
    live_after: Option<i64>,
    limit: usize,
    entries: Seq<Entry>,
)
    requires
        is_range_read(store, prefix, end_key_spec(prefix), limit as nat, entries),
        entries.len() < limit <= i64::MAX,
    ensures
        after_reconcile_scan(counter_key, live_after, limit, Answer::Range(entries))
            matches Ok(StepView::Ask(_, PendingView::ReconcileRead { counter_key: k, actual }))
            && k == counter_key && actual == (match live_after {
            Some(now) => live_count(entries, now),
            None => entries.len(),
        }),
        forall|k: Seq<u8>|
            #![trigger store.contains_key(k)]
            store.contains_key(k) && in_range(k, prefix, end_key_spec(prefix)) ==> exists|i: int|
                0 <= i < entries.len() && #[trigger] entries[i].key == k,
        forall|i: int, j: int|
            0 <= i < j < entries.len() ==> #[trigger] entries[i].key != #[trigger] entries[j].key,
{
    assert forall|i: int, j: int| 0 <= i < j < entries.len() implies #[trigger] entries[i].key
        != #[trigger] entries[j].key by {
        lemma_lex_lt_asymmetric(entries[i].key, entries[j].key);
    }
    if let Some(now) = live_after {
        lemma_live_count_bound(entries, now);
    }
}

/// What a step of a sweep of claims does about a claim: it clears it, or it holds it among
/// the orphans that it will clear.
pub open spec fn reaps(step: StepView, claim_key: Seq<u8>) -> bool {
    match step {
        StepView::Ask(Query::Commit { changes, best_effort, txn }, _) => changes.contains(
            Change::Clear { key: claim_key },
        ),
        StepView::Ask(_, PendingView::OrphanCheck { sweep }) => sweep.orphans.contains(claim_key),
        _ => false,
    }
}

proof fn lemma_skip_unkeyed(
    claims: Seq<ClaimInfoView>,
    next: int,
    orphans: Seq<Seq<u8>>,
)
    requires
        0 <= next,
    ensures
        next <= skip_unkeyed(claims, next, orphans).0,
        skip_unkeyed(claims, next, orphans).0 <= claims.len() || skip_unkeyed(
            claims,
            next,
            orphans,
        ).0 == next,
        forall|key: Seq<u8>|
            orphans.contains(key) ==> skip_unkeyed(claims, next, orphans).1.contains(
                key,
            ),
        forall|i: int|
            next <= i < skip_unkeyed(claims, next, orphans).0
                ==> skip_unkeyed(claims, next, orphans).1.contains(
                #[trigger] claims[i].claim_key,
            ),
        skip_unkeyed(claims, next, orphans).0 < claims.len() ==> claims[skip_unkeyed(
            claims,
            next,
            orphans,
        ).0].queue_key.is_some(),
    decreases claims.len() - next,
{
    if next < claims.len() && claims[next].queue_key.is_none() {
        let more = orphans.push(claims[next].claim_key);
        lemma_skip_unkeyed(claims, next + 1, more);
        assert(more.contains(claims[next].claim_key)) by {
            assert(more[orphans.len() as int] == claims[next].claim_key);
        }
        assert forall|key: Seq<u8>| orphans.contains(key) implies more.contains(key) by {
            let i = choose|i: int| 0 <= i < orphans.len() && orphans[i] == key;
            assert(more[i] == key);
        }
    }
}

/// Orphans are not forgotten. A claim that a sweep holds among its orphans, and a claim at
/// which the sweep stands whose value refers to no queue key, is reaped by the step that the
/// sweep goes on with.
pub proof fn law_orphans_are_kept(sweep: OrphanView, claim_key: Seq<u8>)
    requires
        sweep.claims.len() <= usize::MAX,
        sweep.orphans.contains(claim_key) || (sweep.next < sweep.claims.len()
            && sweep.claims[sweep.next as int].queue_key.is_none()
            && sweep.claims[sweep.next as int].claim_key == claim_key),
    ensures
        orphan_advance(sweep) matches Ok(step) ==> reaps(step, claim_key),
{
    let (next, orphans) = skip_unkeyed(sweep.claims, sweep.next as int, sweep.orphans);
    lemma_skip_unkeyed(sweep.claims, sweep.next as int, sweep.orphans);
    if !sweep.orphans.contains(claim_key) {
        lemma_skip_unkeyed(
            sweep.claims,
            sweep.next + 1,
            sweep.orphans.push(sweep.claims[sweep.next as int].claim_key),
        );
        assert(orphans.contains(sweep.claims[sweep.next as int].claim_key));
    }
    assert(orphans.contains(claim_key));
    let i = choose|i: int| 0 <= i < orphans.len() && orphans[i] == claim_key;
    if next >= sweep.claims.len() {
        let changes = orphan_clears(orphans);
        assert(changes[i] == Change::Clear { key: claim_key });
    }
}

/// Orphaned claim reaping. A claim whose job a sweep has looked up and not found is reaped:
/// the sweep holds it among its orphans and clears them at the end of the batch.
pub proof fn law_orphaned_claim_is_reaped(sweep: OrphanView)
    requires
        sweep.next < sweep.claims.len() <= usize::MAX,
    ensures
        after_orphan_check(sweep, Answer::Value(None)) matches Ok(step) ==> reaps(
            step,
            sweep.claims[sweep.next as int].claim_key,
        ),
{
    let key = sweep.claims[sweep.next as int].claim_key;
    let more = sweep.orphans.push(key);
    assert(more[sweep.orphans.len() as int] == key);
    law_orphans_are_kept(
        OrphanView { next: (sweep.next + 1) as usize, orphans: more, ..sweep },
        key,
    );
}

/// What a sweep of claims clears is gone. After the commit that clears a list of orphans
/// none of their keys is in the store, and every other key is as it was.
pub proof fn law_orphans_are_cleared(
    store: Store,
    orphans: Seq<Seq<u8>>,
    stamp: Seq<u8>,
    key: Seq<u8>,
)
    ensures
        orphans.contains(key) ==> !apply_all(
            store,
            orphan_clears(orphans),
            stamp,
        ).contains_key(key),
        !orphans.contains(key) ==> lookup(
            apply_all(store, orphan_clears(orphans), stamp),
            key,
        ) == lookup(store, key),
{
    let changes = orphan_clears(orphans);
    lemma_cleared_stays_cleared(store, changes, stamp, key);
    if orphans.contains(key) {
        let i = choose|i: int| 0 <= i < orphans.len() && orphans[i] == key;
        assert(clears(changes[i], key));
    } else {
        assert forall|i: int| 0 <= i < changes.len() implies !may_write(
            #[trigger] changes[i],
            key,
            stamp,
        ) && !clears(changes[i], key) by {
            assert(orphans[i] != key);
        }
        lemma_untouched_stays(store, changes, stamp, key);
    }
}

/// An expiry key lies in the range that a sweep at `now` scans exactly where its time lies
/// before `now`, for times that are not negative.
pub proof fn law_expiry_keys_sort_by_time(expires_at: i64, team: Seq<u8>, job: Seq<u8>, now: i64)
    requires
        0 <= expires_at,
        0 <= now,
    ensures
        in_range(
            ttl_index_key(expires_at, team, job),
            seq![TTL_INDEX_TAG],
            ttl_index_prefix_until(now),
        ) <==> expires_at < now,
{
    let tag = seq![TTL_INDEX_TAG];
    let rest = len_prefixed(team) + len_prefixed(job);
    let key = ttl_index_key(expires_at, team, job);
    let end = ttl_index_prefix_until(now);
    assert(key =~= tag + (i64_be(expires_at) + rest));
    assert(end =~= tag + (i64_be(now) + Seq::<u8>::empty()));
    lemma_lex_lt_common_prefix(tag, i64_be(expires_at) + rest, i64_be(now) + Seq::<u8>::empty());
    lemma_be_bytes_len(expires_at as nat, 8);
    lemma_be_bytes_len(now as nat, 8);
    lemma_lex_lt_fields(i64_be(expires_at), rest, i64_be(now), Seq::<u8>::empty());
    lemma_i64_be_order(expires_at, now);
    assert(!lex_lt(rest, Seq::<u8>::empty())) by {
        if lex_lt(rest, Seq::<u8>::empty()) {
            let i = choose|i: int| precedes_at(rest, Seq::<u8>::empty(), i);
        }
    }
    assert(precedes_at(tag, key, 1));
}

/// An expiry key names its team and its job: what a sweep reads from the key is what the
/// push has put into it, for a team whose id is shorter than 2^32 bytes and a job whose id
/// is not empty.
pub proof fn law_expiry_key_reads_back(expires_at: i64, team: Seq<char>, job: Seq<char>)
    requires
        encode_utf8(team).len() < 0x1_0000_0000,
        encode_utf8(job).len() > 0,
    ensures
        ttl_key_ids(
            ttl_index_key(
                expires_at,
                encode_utf8(team),
                encode_utf8(job),
            ),
        ) == Some((encode_utf8(team), encode_utf8(job))),
{
    let t = encode_utf8(team);
    let j = encode_utf8(job);
    let key = ttl_index_key(expires_at, t, j);
    let n = t.len() as int;
    let tl = u32_be((t.len() % 0x1_0000_0000) as u32);
    let jl = u32_be((j.len() % 0x1_0000_0000) as u32);
    lemma_be_bytes_len(unsigned64(expires_at), 8);
    lemma_be_bytes_len(t.len(), 4);
    lemma_be_bytes_len((j.len() % 0x1_0000_0000) as nat, 4);
    lemma_pow256_values();
    lemma_be_round_trip(t.len(), 4);
    assert(key =~= seq![TTL_INDEX_TAG] + i64_be(expires_at) + tl + t + jl + j);
    assert(key.subrange(9, 13) =~= tl);
    assert(u32_be_at(key, 9) == n);
    assert(key.subrange(13, 13 + n) =~= t);
    assert(key.subrange(13 + n + 4, key.len() as int) =~= j);
    encode_utf8_valid_utf8(team);
    encode_utf8_valid_utf8(job);
}

/// Whether the value of an expiry entry reads as that of a job of this priority and time of
/// creation, and of no crawl.
pub open spec fn expiry_reads_as(value: Seq<u8>, priority: i32, created_at: i64) -> bool {
    json_parsed(value) matches Some(doc) && json_int(
        json_member(doc, "priority"@),
    ) == Some(priority as i64) && json_int(
        json_member(doc, "createdAt"@),
    ) == Some(created_at) && json_text(json_member(doc, "crawlId"@))
        is None
}

proof fn lemma_ttl_sweep_holds(entries: Seq<Entry>, at: int, change: Change)
    requires
        0 <= at < entries.len(),
        ttl_removal(entries[at]).contains(change),
    ensures
        ttl_sweep(entries).contains(change),
    decreases entries.len(),
{
    let head = ttl_sweep(entries.drop_last());
    let tail = ttl_removal(entries.last());
    if at == entries.len() - 1 {
        let i = choose|i: int| 0 <= i < tail.len() && tail[i] == change;
        assert((head + tail)[head.len() + i] == change);
    } else {
        assert(entries.drop_last()[at] == entries[at]);
        lemma_ttl_sweep_holds(entries.drop_last(), at, change);
        let i = choose|i: int| 0 <= i < head.len() && head[i] == change;
        assert((head + tail)[i] == change);
    }
}

proof fn lemma_ttl_sweep_writes_counters_only(
    entries: Seq<Entry>,
    key: Seq<u8>,
    stamp: Seq<u8>,
    i: int,
)
    requires
        key.len() > 0,
        key[0] != COUNTER_TAG,
        0 <= i < ttl_sweep(entries).len(),
    ensures
        !may_write(ttl_sweep(entries)[i], key, stamp),
    decreases entries.len(),
{
    let head = ttl_sweep(entries.drop_last());
    let tail = ttl_removal(entries.last());
    if i < head.len() {
        lemma_ttl_sweep_writes_counters_only(entries.drop_last(), key, stamp, i);
    } else {
        let change = tail[i - head.len()];
        match change {
            Change::Add { key: k, operand } => {
                assert(k[0] == COUNTER_TAG);
            },
            _ => {},
        }
    }
}

proof fn lemma_removal_of_read_entry(
    entry: Entry,
    team: Seq<u8>,
    job: Seq<u8>,
    priority: i32,
    created_at: i64,
)
    requires
        ttl_key_ids(entry.key) == Some((team, job)),
        expiry_reads_as(entry.value, priority, created_at),
    ensures
        ttl_removal(entry) == seq![
            Change::Clear { key: queue_key(team, priority, created_at, job) },
            counter_add(CounterKind::TeamQueued, team, -1),
            Change::Clear { key: entry.key },
        ],
{
    lemma_low_i32(priority);
    let head = seq![
        Change::Clear { key: queue_key(team, priority, created_at, job) },
        counter_add(CounterKind::TeamQueued, team, -1),
    ];
    let tail = seq![Change::Clear { key: entry.key }];
    assert(ttl_removal(entry) == head + Seq::<Change>::empty() + tail);
    assert(head + Seq::<Change>::empty() + tail =~= seq![head[0], head[1], tail[0]]);
}

proof fn lemma_expiry_removal(
    entry: Entry,
    team: Seq<char>,
    job: Seq<char>,
    priority: i32,
    created_at: i64,
    expires_at: i64,
)
    requires
        encode_utf8(team).len() < 0x1_0000_0000,
        encode_utf8(job).len() > 0,
        entry.key == ttl_index_key(
            expires_at,
            encode_utf8(team),
            encode_utf8(job),
        ),
        expiry_reads_as(entry.value, priority, created_at),
    ensures
        ttl_removal(entry) == seq![
            Change::Clear {
                key: queue_key(
                    encode_utf8(team),
                    priority,
                    created_at,
                    encode_utf8(job),
                ),
            },
            counter_add(
                CounterKind::TeamQueued,
                encode_utf8(team),
                -1,
            ),
            Change::Clear { key: entry.key },
        ],
{
    law_expiry_key_reads_back(expires_at, team, job);
    lemma_removal_of_read_entry(
        entry,
        encode_utf8(team),
        encode_utf8(job),
        priority,
        created_at,
    );
}

proof fn lemma_swept_key_is_gone(store: Store, entries: Seq<Entry>, key: Seq<u8>, stamp: Seq<u8>)
    requires
        key.len() > 0,
        key[0] != COUNTER_TAG,
        ttl_sweep(entries).contains(Change::Clear { key }),
    ensures
        !apply_all(store, ttl_sweep(entries), stamp).contains_key(key),
{
    let sweep = ttl_sweep(entries);
    assert forall|i: int| 0 <= i < sweep.len() implies !may_write(
        #[trigger] sweep[i],
        key,
        stamp,
    ) by {
        lemma_ttl_sweep_writes_counters_only(entries, key, stamp, i);
    }
    lemma_cleared_stays_cleared(store, sweep, stamp, key);
    let a = choose|i: int| 0 <= i < sweep.len() && sweep[i] == Change::Clear { key };
    assert(clears(sweep[a], key));
}

/// TTL liveness. A job that was pushed with a time-out and no crawl is gone after one sweep
/// past its time: its expiry entry lies in the range that the sweep scans, and the
/// transaction that clears the batch of the entry removes the job's record and the entry
/// and takes one off the team's counter. This is stated of an expiry entry whose value reads
/// back as it was written.
pub proof fn law_expired_job_is_swept(
    store: Store,
    team: Seq<char>,
    job: Seq<char>,
    priority: i32,
    created_at: i64,
    expires_at: i64,
    now: i64,
    entries: Seq<Entry>,
    at: int,
    stamp: Seq<u8>,
)
    requires
        0 <= expires_at < now,
        encode_utf8(team).len() < 0x1_0000_0000,
        encode_utf8(job).len() > 0,
        0 <= at < entries.len(),
        entries[at].key == ttl_index_key(
            expires_at,
            encode_utf8(team),
            encode_utf8(job),
        ),
        expiry_reads_as(entries[at].value, priority, created_at),
    ensures
        in_range(
            entries[at].key,
            seq![TTL_INDEX_TAG],
            ttl_index_prefix_until(now),
        ),
        ttl_sweep(entries).contains(
            counter_add(
                CounterKind::TeamQueued,
                encode_utf8(team),
                -1,
            ),
        ),
        !apply_all(store, ttl_sweep(entries), stamp).contains_key(
            queue_key(
                encode_utf8(team),
                priority,
                created_at,
                encode_utf8(job),
            ),
        ),
        !apply_all(store, ttl_sweep(entries), stamp).contains_key(entries[at].key),
{
    let t = encode_utf8(team);
    let j = encode_utf8(job);
    let record = queue_key(t, priority, created_at, j);
    let entry = entries[at].key;
    let removal = ttl_removal(entries[at]);
    let down = counter_add(CounterKind::TeamQueued, t, -1);
    law_expiry_keys_sort_by_time(expires_at, t, j, now);
    lemma_expiry_removal(entries[at], team, job, priority, created_at, expires_at);
    assert(removal[0] == Change::Clear { key: record });
    assert(removal[1] == down);
    assert(removal[2] == Change::Clear { key: entry });
    lemma_ttl_sweep_holds(entries, at, Change::Clear { key: record });
    lemma_ttl_sweep_holds(entries, at, down);
    lemma_ttl_sweep_holds(entries, at, Change::Clear { key: entry });
    assert(record[0] == QUEUE_TAG);
    assert(entry[0] == TTL_INDEX_TAG);
    lemma_swept_key_is_gone(store, entries, record, stamp);
    lemma_swept_key_is_gone(store, entries, entry, stamp);
}

/// The key after a key. `next_key` gives the smallest key that sorts strictly after its
/// argument: no key lies between the two.
pub proof fn law_next_key_is_next(key: Seq<u8>, other: Seq<u8>)
    ensures
        lex_lt(key, next_key_spec(key)),
        !(lex_lt(key, other) && lex_lt(other, next_key_spec(key))),
{
    let next = next_key_spec(key);
    let n = key.len() as int;
    assert(precedes_at(key, next, n));
    if lex_lt(key, other) && lex_lt(other, next) {
        let i = choose|i: int| precedes_at(key, other, i);
        let j = choose|j: int| precedes_at(other, next, j);
        if i < n {
            if j <= i {
                assert(next[j] == key[j]);
            } else {
                assert(next[i] == key[i]);
            }
        } else {
            if j < n {
                assert(next[j] == key[j]);
            } else if j == n {
                assert(next[n] == 0u8);
            }
        }
    }
}

/// Scans are exact. A key made of a prefix and an id shorter than 2^24 bytes lies in the
/// range from the prefix to the prefix followed by `0xff`: the byte after the prefix is the
/// first byte of the id's length, which is zero.
pub proof fn law_short_ids_are_scanned(prefix: Seq<u8>, id: Seq<u8>)
    requires
        short_id(id),
    ensures
        in_range(prefix + len_prefixed(id), prefix, end_key_spec(prefix)),
{
    let key = prefix + len_prefixed(id);
    lemma_u32_be_first_byte(id.len() as u32);
    assert(key.subrange(0, prefix.len() as int) =~= prefix);
    assert(key[prefix.len() as int] == u32_be(id.len() as u32)[0]);
    lemma_prefix_range(key, prefix);
}

/// Claims do not conflict. Two workers with different ids, each shorter than 2^32 bytes,
/// hand in different keys for their claims on a job, so the store sees no conflict between
/// their transactions.
pub proof fn law_claims_do_not_conflict(job: Seq<u8>, w1: Seq<u8>, w2: Seq<u8>)
    requires
        w1 != w2,
        w1.len() < 0x1_0000_0000,
        w2.len() < 0x1_0000_0000,
    ensures
        claim_key_with_versionstamp(job, w1) != claim_key_with_versionstamp(
            job,
            w2,
        ),
{
    let head = claims_prefix(job) + versionstamp_placeholder();
    let offset = u32_le((claims_prefix(job).len() % 0x1_0000_0000) as u32);
    let k1 = claim_key_with_versionstamp(job, w1);
    let k2 = claim_key_with_versionstamp(job, w2);
    let l1 = u32_be(w1.len() as u32);
    let l2 = u32_be(w2.len() as u32);
    lemma_be_bytes_len(w1.len(), 4);
    lemma_be_bytes_len(w2.len(), 4);
    assert(k1 =~= head + l1 + w1 + offset);
    assert(k2 =~= head + l2 + w2 + offset);
    if k1 == k2 {
        let h = head.len() as int;
        assert(k1.subrange(h, h + 4) =~= l1);
        assert(k2.subrange(h, h + 4) =~= l2);
        lemma_pow256_values();
        lemma_be_round_trip(w1.len(), 4);
        lemma_be_round_trip(w2.len(), 4);
        assert(w1.len() == w2.len());
        assert(k1.subrange(h + 4, h + 4 + w1.len()) =~= w1);
        assert(k2.subrange(h + 4, h + 4 + w2.len()) =~= w2);
    }
}

/// Crawl jobs do not expire by themselves. A job that is pushed with a crawl has no
/// time-out, whatever time-out its push names, and so gets no expiry entry.
pub proof fn law_crawl_jobs_have_no_expiry(timeout: Option<i64>, now: i64)
    ensures
        times_out_at(timeout, true, now) is None,
{
}

/// A push queues the job. After the one transaction of a push the job's record stands
/// under its queue key, and the team's counter, where it was missing or eight bytes long, reads
/// one more than before; where the job times out, its expiry entry stands under the time at
/// which it does.
pub proof fn law_push_queues_job(
    store: Store,
    job: JobView,
    record: Seq<u8>,
    ttl_value: Seq<u8>,
    crawl_value: Seq<u8>,
    stamp: Seq<u8>,
)
    requires
        lookup(store, team_counter(job)) matches Some(v) ==> v.len() == 8,
        counter_value(lookup(store, team_counter(job))) < i64::MAX,
    ensures
        ({
            let team = encode_utf8(job.team_id);
            let id = encode_utf8(job.id);
            let after = apply_all(
                store,
                push_plan(job, record, ttl_value, crawl_value),
                stamp,
            );
            &&& lookup(after, queue_key(team, job.priority, job.created_at, id)) == Some(record)
            &&& counter_value(lookup(after, team_counter(job)))
                == counter_value(lookup(store, team_counter(job))) + 1
            &&& job.times_out_at matches Some(t) ==> lookup(
                after,
                ttl_index_key(t, team, id),
            ) == Some(ttl_value)
        }),
{
    let team = encode_utf8(job.team_id);
    let id = encode_utf8(job.id);
    let record_key = queue_key(team, job.priority, job.created_at, id);
    let counter = team_counter(job);
    let put = Change::Put { key: record_key, value: record };
    let up = counter_add(CounterKind::TeamQueued, team, 1);
    let head = seq![put, up];
    let ttl = match job.times_out_at {
        Some(t) => seq![
            Change::Put { key: ttl_index_key(t, team, id), value: ttl_value },
        ],
        None => Seq::empty(),
    };
    let crawl = match job.crawl_id {
        Some(c) => seq![
            Change::Put {
                key: crawl_index_key(encode_utf8(c), id),
                value: crawl_value,
            },
            counter_add(
                CounterKind::CrawlQueued,
                encode_utf8(c),
                1,
            ),
        ],
        None => Seq::empty(),
    };
    let plan = push_plan(job, record, ttl_value, crawl_value);
    assert(plan == head + ttl + crawl);
    let s1 = apply(store, put, stamp);
    let s2 = apply(s1, up, stamp);
    assert(apply_all(store, head, stamp) == s2) by {
        assert(head.drop_last() =~= seq![put]);
        lemma_apply_all_one(store, put, stamp);
    }
    let s3 = apply_all(s2, ttl, stamp);
    let after = apply_all(s3, crawl, stamp);
    lemma_apply_all_concat(store, head, ttl, stamp);
    lemma_apply_all_concat(store, head + ttl, crawl, stamp);
    assert(record_key[0] == QUEUE_TAG);
    assert(counter[0] == COUNTER_TAG);
    assert(counter[1] == 0x01u8);
    assert(lookup(s2, record_key) == Some(record));
    lemma_add_counts(lookup(s1, counter), 1);
    assert(lookup(s1, counter) == lookup(store, counter));
    assert forall|i: int| 0 <= i < ttl.len() implies !may_write(
        #[trigger] ttl[i],
        record_key,
        stamp,
    ) && !clears(ttl[i], record_key) && !may_write(
        ttl[i],
        counter,
        stamp,
    ) && !clears(ttl[i], counter) by {
        let t = job.times_out_at.unwrap();
        assert(ttl_index_key(t, team, id)[0] == TTL_INDEX_TAG);
    }
    lemma_untouched_stays(s2, ttl, stamp, record_key);
    lemma_untouched_stays(s2, ttl, stamp, counter);
    assert forall|i: int| 0 <= i < crawl.len() implies !may_write(
        #[trigger] crawl[i],
        record_key,
        stamp,
    ) && !clears(crawl[i], record_key) && !may_write(
        crawl[i],
        counter,
        stamp,
    ) && !clears(crawl[i], counter) by {
        let c = encode_utf8(job.crawl_id.unwrap());
        assert(crawl_index_key(c, id)[0] == CRAWL_INDEX_TAG);
        assert(counter_key(CounterKind::CrawlQueued, c)[1] == 0x02u8);
    }
    lemma_untouched_stays(s3, crawl, stamp, record_key);
    lemma_untouched_stays(s3, crawl, stamp, counter);
    if let Some(t) = job.times_out_at {
        let ttl_key = ttl_index_key(t, team, id);
        assert(ttl_key[0] == TTL_INDEX_TAG);
        lemma_apply_all_one(s2, ttl[0], stamp);
        assert(ttl =~= seq![ttl[0]]);
        assert(lookup(s3, ttl_key) == Some(ttl_value));
        assert forall|i: int| 0 <= i < crawl.len() implies !may_write(
            #[trigger] crawl[i],
            ttl_key,
            stamp,
        ) && !clears(crawl[i], ttl_key) by {
            let c = encode_utf8(job.crawl_id.unwrap());
            assert(crawl_index_key(c, id)[0] == CRAWL_INDEX_TAG);
            assert(counter_key(CounterKind::CrawlQueued, c)[0]
                == COUNTER_TAG);
        }
        lemma_untouched_stays(s3, crawl, stamp, ttl_key);
    }
}

/// The key of the counter of a job's team.
pub open spec fn team_counter(job: JobView) -> Seq<u8> {
    counter_key(
        CounterKind::TeamQueued,
        encode_utf8(job.team_id),
    )
}

/// A key that ends in an id behind a prefix names the id at its head: what a sweep or a
/// sample reads from the key is the id that was put into it, where the id is shorter than 2^32
/// bytes.
pub proof fn law_key_names_its_owner(prefix: Seq<u8>, owner: Seq<char>, rest: Seq<u8>)
    requires
        encode_utf8(owner).len() < 0x1_0000_0000,
        encode_utf8(owner).len() + rest.len() > 0,
    ensures
        leading_id_bytes(prefix + len_prefixed(encode_utf8(owner)) + rest, prefix.len() as int)
            == Some(encode_utf8(owner)),
{
    let id = encode_utf8(owner);
    let n = prefix.len() as int;
    let key = prefix + len_prefixed(id) + rest;
    let length = u32_be(id.len() as u32);
    lemma_be_bytes_len(id.len(), 4);
    lemma_pow256_values();
    lemma_be_round_trip(id.len(), 4);
    assert(key =~= prefix + length + id + rest);
    assert(key.subrange(n, n + 4) =~= length);
    assert(key.subrange(n + 4, n + 4 + id.len()) =~= id);
    encode_utf8_valid_utf8(owner);
}

/// An active job is listed until it expires. The entry that marks a job as active until a
/// time is read as the job's id at every time before that, and as nothing from then on.
pub proof fn law_active_job_is_listed(
    crawl: bool,
    owner: Seq<char>,
    job: Seq<char>,
    expires_at: i64,
    at: i64,
)
    requires
        encode_utf8(job).len() > 0,
    ensures
        active_ids(
            seq![
                Entry {
                    key: active_key_of(crawl, encode_utf8(owner), encode_utf8(job)),
                    value: i64_be(expires_at),
                },
            ],
            active_prefix_of(crawl, encode_utf8(owner)).len() as int,
            at,
        ) == if expires_at > at {
            seq![job]
        } else {
            Seq::empty()
        },
{
    let prefix = active_prefix_of(crawl, encode_utf8(owner));
    let id = encode_utf8(job);
    let key = active_key_of(crawl, encode_utf8(owner), id);
    let entry = Entry { key, value: i64_be(expires_at) };
    let n = prefix.len() as int;
    lemma_decode_encode_i64_be(expires_at);
    lemma_be_bytes_len((id.len() % 0x1_0000_0000) as nat, 4);
    assert(key =~= prefix + u32_be((id.len() % 0x1_0000_0000) as u32) + id);
    assert(key.subrange(n + 4, key.len() as int) =~= id);
    encode_utf8_valid_utf8(job);
    encode_utf8_decode_utf8(job);
    assert(trailing_id(key, n) == Some(job));
    let one = seq![entry];
    assert(one.drop_last() =~= Seq::<Entry>::empty());
    assert(active_ids(Seq::<Entry>::empty(), n, at) =~= Seq::<Seq<char>>::empty());
    assert(Seq::<Seq<char>>::empty().push(job) =~= seq![job]);
}

/// Whether a claim is an orphan in a store: its value refers to no queue key, or to one
/// under which the store holds no record.
pub open spec fn is_orphan(store: Store, claim: ClaimInfoView) -> bool {
    match claim.queue_key {
        Some(key) => !store.contains_key(key),
        None => true,
    }
}

/// The sweep after the store has answered the lookup that it waits for.
pub open spec fn after_lookup(store: Store, asked: OrphanView) -> OrphanView {
    let claim = asked.claims[asked.next as int];
    OrphanView {
        next: (asked.next + 1) as usize,
        orphans: if lookup(store, claim.queue_key.unwrap()).is_none() {
            asked.orphans.push(claim.claim_key)
        } else {
            asked.orphans
        },
        ..asked
    }
}

/// The step with which a sweep of claims ends its batch, where every lookup on the way is
/// answered from `store`: the commit that clears the orphans of the batch, or the end of the
/// round where there are none.
pub open spec fn batch_end(store: Store, sweep: OrphanView) -> Result<StepView, Failure>
    decreases sweep.claims.len() - sweep.next,
{
    match orphan_advance(sweep) {
        Ok(
            StepView::Ask(
                Query::Get { key, snapshot, txn },
                PendingView::OrphanCheck { sweep: asked },
            ),
        ) => {
            if sweep.next <= asked.next < asked.claims.len() <= usize::MAX && asked.claims
                == sweep.claims {
                batch_end(store, after_lookup(store, asked))
            } else {
                Err(Failure::Other)
            }
        },
        other => other,
    }
}

/// Orphaned claim reaping, the batch. Every claim of a scanned batch that is an orphan in
/// the store, and every orphan that the sweep holds already, is cleared by the commit with
/// which the sweep ends the batch.
pub proof fn law_batch_reaps_orphans(store: Store, sweep: OrphanView, claim_key: Seq<u8>)
    requires
        sweep.claims.len() <= usize::MAX,
        sweep.orphans.contains(claim_key) || exists|i: int|
            sweep.next <= i < sweep.claims.len() && is_orphan(store, #[trigger] sweep.claims[i])
                && sweep.claims[i].claim_key == claim_key,
    ensures
        batch_end(store, sweep) matches Ok(step) ==> step matches StepView::Ask(
            Query::Commit { changes, best_effort, txn },
            _,
        ) && changes.contains(Change::Clear { key: claim_key }),
    decreases sweep.claims.len() - sweep.next,
{
    let claims = sweep.claims;
    let (n, found) = skip_unkeyed(claims, sweep.next as int, sweep.orphans);
    lemma_skip_unkeyed(claims, sweep.next as int, sweep.orphans);
    if n < claims.len() {
        let asked = OrphanView { next: n as usize, orphans: found, asked: true, ..sweep };
        let key = claims[n].queue_key.unwrap();
        assert(orphan_advance(sweep) == Ok::<StepView, Failure>(
            StepView::Ask(
                Query::Get {
                    key,
                    snapshot: true,
                    txn: if sweep.asked {
                        Txn::Current
                    } else {
                        Txn::Fresh
                    },
                },
                PendingView::OrphanCheck { sweep: asked },
            ),
        ));
        let then = after_lookup(store, asked);
        assert(batch_end(store, sweep) == batch_end(store, then));
        if found.contains(claim_key) {
            if lookup(store, key).is_none() {
                let j = choose|j: int| 0 <= j < found.len() && found[j] == claim_key;
                assert(then.orphans[j] == claim_key);
            }
        } else {
            let i = choose|i: int|
                sweep.next <= i < claims.len() && is_orphan(store, #[trigger] claims[i])
                    && claims[i].claim_key == claim_key;
            if i == n {
                assert(then.orphans[found.len() as int] == claim_key);
            } else {
                assert(i > n);
                assert(then.claims[i] == claims[i]);
            }
        }
        law_batch_reaps_orphans(store, then, claim_key);
    } else {
        assert(found.contains(claim_key));
        let j = choose|j: int| 0 <= j < found.len() && found[j] == claim_key;
        assert(orphan_clears(found)[j] == Change::Clear { key: claim_key });
    }
}

/// A lone claim wins. Where a job has no claim, and a worker's claim on it is committed
/// under a versionstamp that does not begin with the byte `0xff`, the first claim that the
/// worker then reads is its own; and where its value reads back as naming the worker, the
/// worker has won the job.
pub proof fn law_lone_claim_wins(
    store: Store,
    pop: PopView,
    handle: Seq<char>,
    value: Seq<u8>,
    stamp: Seq<u8>,
    first: Seq<Entry>,
)
    requires
        pop.next < pop.candidates.len(),
        stamp.len() == 10,
        stamp[0] != 0xffu8,
        claims_prefix(encode_utf8(current(pop).job.id)).len() < 0x1_0000_0000,
        forall|k: Seq<u8>|
            #![trigger store.contains_key(k)]
            store.contains_key(k) ==> !in_range(
                k,
                claims_prefix(encode_utf8(current(pop).job.id)),
                end_key_spec(claims_prefix(encode_utf8(current(pop).job.id))),
            ),
        is_range_read(
            apply(
                store,
                Change::SetVersionstampedKey {
                    key: claim_key_with_versionstamp(
                        encode_utf8(current(pop).job.id),
                        encode_utf8(pop.worker),
                    ),
                    value,
                },
                stamp,
            ),
            claims_prefix(encode_utf8(current(pop).job.id)),
            end_key_spec(claims_prefix(encode_utf8(current(pop).job.id))),
            1,
            first,
        ),
    ensures
        first == seq![
            Entry {
                key: claim_key(encode_utf8(current(pop).job.id), stamp, encode_utf8(pop.worker)),
                value,
            },
        ],
        claimant(value) == Some(Some(pop.worker)) ==> after_pop_verify(
            pop,
            handle,
            Answer::Range(first),
        ) == Ok::<StepView, Failure>(
            StepView::Done(
                OutcomeView::Job(
                    Some(ClaimedJobView { job: current(pop).job, queue_key: handle }),
                ),
            ),
        ),
{
    let job = encode_utf8(current(pop).job.id);
    let worker = encode_utf8(pop.worker);
    let begin = claims_prefix(job);
    let end = end_key_spec(begin);
    let key = claim_key(job, stamp, worker);
    lemma_claim_lands(job, worker, stamp);
    law_claim_in_range(job, stamp, worker);
    let after = store.insert(key, value);
    assert(after.contains_key(key) && in_range(key, begin, end));
    assert(first.len() == 1);
    assert(after.contains_key(first[0].key));
    if first[0].key != key {
        assert(store.contains_key(first[0].key));
    }
    assert(first[0] == Entry { key, value });
    assert(first =~= seq![Entry { key, value }]);
}

/// The key from which the batch `r` of a sweep begins: the beginning of the range for the
/// first batch, and the key after the last key of the batch before it for every other.
pub open spec fn page_begin(begin: Seq<u8>, pages: Seq<Seq<Entry>>, r: int) -> Seq<u8> {
    if r <= 0 {
        begin
    } else {
        next_key_spec(last_key(pages[r - 1]))
    }
}

/// Whether `pages` are the batches that a sweep of the range from `begin` to `end` reads
/// one after the other, batch `r` from the store as it is then, `stores[r]`: every batch but
/// the last is full, and nothing has come into or gone from the part of the range that the
/// sweep has not reached.
pub open spec fn is_paging(
    stores: Seq<Store>,
    begin: Seq<u8>,
    end: Seq<u8>,
    pages: Seq<Seq<Entry>>,
) -> bool {
    &&& pages.len() == stores.len()
    &&& pages.len() > 0
    &&& forall|r: int|
        0 <= r < pages.len() ==> is_range_read(
            stores[r],
            page_begin(begin, pages, r),
            end,
            BATCH as nat,
            #[trigger] pages[r],
        )
    &&& forall|r: int| 0 <= r < pages.len() - 1 ==> (#[trigger] pages[r]).len() == BATCH
    &&& forall|r: int, k: Seq<u8>|
        0 <= r < pages.len() && in_range(k, page_begin(begin, pages, r), end) ==> (
        #[trigger] stores[r].contains_key(k) <==> stores[0].contains_key(k))
}

/// Whether a key is the key of an entry of one of the batches.
pub open spec fn is_reached(pages: Seq<Seq<Entry>>, key: Seq<u8>) -> bool {
    exists|r: int, i: int|
        0 <= r < pages.len() && 0 <= i < pages[r].len() && (#[trigger] pages[r][i]).key == key
}

/// Whether the keys stand in their order, each before the next.
pub open spec fn ascending(keys: Seq<Seq<u8>>) -> bool {
    forall|i: int, j: int|
        0 <= i < j < keys.len() ==> lex_lt(#[trigger] keys[i], #[trigger] keys[j])
}

/// Whether a store holds fewer than `n` keys in a range: no `n` of its keys there can be
/// put in ascending order.
pub open spec fn holds_fewer_than(store: Store, begin: Seq<u8>, end: Seq<u8>, n: nat) -> bool {
    forall|keys: Seq<Seq<u8>>|
        #![trigger ascending(keys)]
        ascending(keys) && (forall|i: int|
            0 <= i < keys.len() ==> store.contains_key(#[trigger] keys[i]) && in_range(
                keys[i],
                begin,
                end,
            )) ==> keys.len() < n
}

/// The keys of the first `r` batches, in the order in which they were read.
pub open spec fn keys_read(pages: Seq<Seq<Entry>>, r: int) -> Seq<Seq<u8>>
    decreases r,
{
    if r <= 0 {
        Seq::empty()
    } else {
        keys_read(pages, r - 1) + Seq::new(pages[r - 1].len(), |i: int| pages[r - 1][i].key)
    }
}

proof fn lemma_lex_le_transitive(a: Seq<u8>, b: Seq<u8>, c: Seq<u8>)
    requires
        lex_le(a, b),
        lex_le(b, c),
    ensures
        lex_le(a, c),
        lex_lt(a, b) || lex_lt(b, c) ==> lex_lt(a, c),
{
    if a != b && b != c {
        lemma_lex_lt_transitive(a, b, c);
    }
}

proof fn lemma_page_begins_ascend(
    stores: Seq<Store>,
    begin: Seq<u8>,
    end: Seq<u8>,
    pages: Seq<Seq<Entry>>,
    r: int,
)
    requires
        is_paging(stores, begin, end, pages),
        0 <= r < pages.len(),
    ensures
        lex_le(begin, page_begin(begin, pages, r)),
    decreases r,
{
    if r > 0 {
        lemma_page_begins_ascend(stores, begin, end, pages, r - 1);
        let before = pages[r - 1];
        assert(before.len() == BATCH);
        let last = before[before.len() - 1];
        assert(in_range(last.key, page_begin(begin, pages, r - 1), end));
        law_next_key_is_next(last.key, last.key);
        lemma_lex_le_transitive(begin, page_begin(begin, pages, r - 1), last.key);
        lemma_lex_le_transitive(begin, last.key, next_key_spec(last.key));
    }
}

proof fn lemma_key_is_reached(
    stores: Seq<Store>,
    begin: Seq<u8>,
    end: Seq<u8>,
    pages: Seq<Seq<Entry>>,
    key: Seq<u8>,
    r: int,
)
    requires
        is_paging(stores, begin, end, pages),
        pages.last().len() < BATCH,
        0 <= r < pages.len(),
        stores[0].contains_key(key),
        in_range(key, page_begin(begin, pages, r), end),
    ensures
        is_reached(pages, key),
    decreases pages.len() - r,
{
    let page = pages[r];
    assert(stores[r].contains_key(key));
    assert(is_range_read(stores[r], page_begin(begin, pages, r), end, BATCH as nat, page));
    if exists|i: int| 0 <= i < page.len() && #[trigger] page[i].key == key {
        let i = choose|i: int| 0 <= i < page.len() && #[trigger] page[i].key == key;
        assert(pages[r][i].key == key);
    } else {
        assert(page.len() == BATCH && lex_lt(page.last().key, key));
        assert(r < pages.len() - 1);
        let last = page.last().key;
        law_next_key_is_next(last, key);
        lemma_lex_total(next_key_spec(last), key);
        assert(last_key(page) == last);
        lemma_key_is_reached(stores, begin, end, pages, key, r + 1);
    }
}

/// A sweep that ends with a batch that is not full has read every key of its range.
pub proof fn law_short_batch_ends_the_range(
    stores: Seq<Store>,
    begin: Seq<u8>,
    end: Seq<u8>,
    pages: Seq<Seq<Entry>>,
    key: Seq<u8>,
)
    requires
        is_paging(stores, begin, end, pages),
        pages.last().len() < BATCH,
        stores[0].contains_key(key),
        in_range(key, begin, end),
    ensures
        is_reached(pages, key),
{
    lemma_key_is_reached(stores, begin, end, pages, key, 0);
}

proof fn lemma_keys_read_ascend(
    stores: Seq<Store>,
    begin: Seq<u8>,
    end: Seq<u8>,
    pages: Seq<Seq<Entry>>,
    r: int,
)
    requires
        is_paging(stores, begin, end, pages),
        0 <= r <= pages.len(),
        forall|q: int| 0 <= q < r ==> (#[trigger] pages[q]).len() == BATCH,
    ensures
        keys_read(pages, r).len() == r * BATCH,
        ascending(keys_read(pages, r)),
        forall|i: int|
            0 <= i < keys_read(pages, r).len() ==> stores[0].contains_key(
                #[trigger] keys_read(pages, r)[i],
            ) && in_range(keys_read(pages, r)[i], begin, end),
        r > 0 ==> forall|i: int|
            0 <= i < keys_read(pages, r).len() ==> lex_le(
                #[trigger] keys_read(pages, r)[i],
                last_key(pages[r - 1]),
            ),
    decreases r,
{
    if r > 0 {
        lemma_keys_read_ascend(stores, begin, end, pages, r - 1);
        lemma_page_begins_ascend(stores, begin, end, pages, r - 1);
        let before = keys_read(pages, r - 1);
        let page = pages[r - 1];
        let from = page_begin(begin, pages, r - 1);
        let keys = Seq::new(page.len(), |i: int| page[i].key);
        let all = keys_read(pages, r);
        assert(all == before + keys);
        assert(is_range_read(stores[r - 1], from, end, BATCH as nat, page));
        let last = last_key(page);
        assert(last == page[page.len() - 1].key);
        assert forall|i: int| 0 <= i < all.len() implies stores[0].contains_key(
            #[trigger] all[i],
        ) && in_range(all[i], begin, end) && lex_le(all[i], last) by {
            if i < before.len() {
                assert(all[i] == before[i]);
                if r - 1 > 0 {
                    let earlier = last_key(pages[r - 2]);
                    law_next_key_is_next(earlier, earlier);
                    lemma_lex_le_transitive(before[i], earlier, from);
                    assert(in_range(last, from, end));
                    lemma_lex_le_transitive(before[i], from, last);
                }
            } else {
                let j = i - before.len();
                assert(all[i] == page[j].key);
                assert(in_range(page[j].key, from, end));
                assert(stores[r - 1].contains_key(page[j].key));
                lemma_lex_le_transitive(begin, from, page[j].key);
                if j < page.len() - 1 {
                    assert(lex_lt(page[j].key, page[page.len() - 1].key));
                }
            }
        }
        assert forall|i: int, j: int| 0 <= i < j < all.len() implies lex_lt(
            #[trigger] all[i],
            #[trigger] all[j],
        ) by {
            if j < before.len() {
                assert(all[i] == before[i] && all[j] == before[j]);
            } else if i >= before.len() {
                assert(all[i] == page[i - before.len()].key);
                assert(all[j] == page[j - before.len()].key);
            } else {
                assert(all[i] == before[i]);
                assert(all[j] == page[j - before.len()].key);
                assert(in_range(page[j - before.len()].key, from, end));
                if r - 1 > 0 {
                    let earlier = last_key(pages[r - 2]);
                    law_next_key_is_next(earlier, earlier);
                    lemma_lex_le_transitive(before[i], earlier, from);
                    lemma_lex_le_transitive(before[i], from, all[j]);
                }
            }
        }
        assert(all.len() == r * BATCH) by (nonlinear_arith)
            requires
                all.len() == before.len() + keys.len(),
                before.len() == (r - 1) * BATCH,
                keys.len() == BATCH,
        ;
    }
}

/// Ten batches reach every key. A sweep that reads its range batch by batch, each batch from
/// the key after the last key of the batch before it, and goes on until a batch is not full
/// or ten batches are read, has read every key of a range that holds fewer than a thousand.
/// The sweeps of expired jobs, of expired active entries and of orphaned claims read their
/// ranges so.
pub proof fn law_ten_batches_reach_every_key(
    stores: Seq<Store>,
    begin: Seq<u8>,
    end: Seq<u8>,
    pages: Seq<Seq<Entry>>,
    key: Seq<u8>,
)
    requires
        is_paging(stores, begin, end, pages),
        pages.last().len() < BATCH || pages.len() == MAX_ROUNDS,
        holds_fewer_than(stores[0], begin, end, (BATCH * MAX_ROUNDS) as nat),
        stores[0].contains_key(key),
        in_range(key, begin, end),
    ensures
        is_reached(pages, key),
{
    if pages.last().len() >= BATCH {
        assert(is_range_read(
            stores[pages.len() - 1],
            page_begin(begin, pages, pages.len() - 1),
            end,
            BATCH as nat,
            pages[pages.len() - 1],
        ));
        assert forall|q: int| 0 <= q < pages.len() implies (#[trigger] pages[q]).len() == BATCH by {
            if q == pages.len() - 1 {
                assert(pages[q] == pages.last());
            }
        }
        lemma_keys_read_ascend(stores, begin, end, pages, pages.len() as int);
        let keys = keys_read(pages, pages.len() as int);
        assert(ascending(keys));
        assert(keys.len() == 1000);
        assert(false);
    }
    law_short_batch_ends_the_range(stores, begin, end, pages, key);
}

/// The sweeps read batch after batch. After the commit of a full batch, with batches left,
/// each of the three sweeps asks for the batch that begins at the key after the last key of
/// the batch before, up to the end of its range.
pub proof fn law_sweeps_go_on_after_the_last_key(
    now: i64,
    crawl: bool,
    round: u32,
    cleaned: i64,
    last: Seq<u8>,
)
    requires
        round + 1 < MAX_ROUNDS,
    ensures
        after_expired_jobs_committed(now, round, cleaned, true, last, Answer::Committed) == Ok::<
            StepView,
            Failure,
        >(
            StepView::Ask(
                Query::GetRange {
                    begin: next_key_spec(last),
                    end: ttl_index_prefix_until(now),
                    limit: BATCH,
                    snapshot: false,
                    txn: Txn::Fresh,
                },
                PendingView::ExpiredJobs { now, round: (round + 1) as u32, cleaned },
            ),
        ),
        after_expired_active_committed(now, crawl, round, cleaned, true, last, Answer::Committed)
            == Ok::<StepView, Failure>(
            StepView::Ask(
                Query::GetRange {
                    begin: next_key_spec(last),
                    end: end_key_spec(seq![active_tag(crawl)]),
                    limit: BATCH,
                    snapshot: false,
                    txn: Txn::Fresh,
                },
                PendingView::ExpiredActive { now, crawl, round: (round + 1) as u32, cleaned },
            ),
        ),
        orphan_round_end(round, cleaned, true, last) == StepView::Ask(
            Query::GetRange {
                begin: next_key_spec(last),
                end: end_key_spec(seq![CLAIMS_TAG]),
                limit: BATCH,
                snapshot: false,
                txn: Txn::Fresh,
            },
            PendingView::OrphanScan { round: (round + 1) as u32, cleaned },
        ),
{
}

/// TTL liveness, the sweep. Where fewer than a thousand expiry entries lie before `now`, one
/// sweep reaches the entry of every job that has expired, and the commit of the batch that
/// holds the entry removes the job's record and the entry and takes one off the team's
/// counter. This is stated of an expiry entry whose value reads back as it was written.
pub proof fn law_sweep_clears_expired_job(
    stores: Seq<Store>,
    pages: Seq<Seq<Entry>>,
    team: Seq<char>,
    job: Seq<char>,
    priority: i32,
    created_at: i64,
    expires_at: i64,
    now: i64,
    stamp: Seq<u8>,
)
    requires
        0 <= expires_at < now,
        encode_utf8(team).len() < 0x1_0000_0000,
        encode_utf8(job).len() > 0,
        is_paging(stores, seq![TTL_INDEX_TAG], ttl_index_prefix_until(now), pages),
        pages.last().len() < BATCH || pages.len() == MAX_ROUNDS,
        holds_fewer_than(
            stores[0],
            seq![TTL_INDEX_TAG],
            ttl_index_prefix_until(now),
            (BATCH * MAX_ROUNDS) as nat,
        ),
        stores[0].contains_key(ttl_index_key(expires_at, encode_utf8(team), encode_utf8(job))),
        forall|r: int|
            0 <= r < stores.len() && (#[trigger] stores[r]).contains_key(
                ttl_index_key(expires_at, encode_utf8(team), encode_utf8(job)),
            ) ==> expiry_reads_as(
                stores[r][ttl_index_key(expires_at, encode_utf8(team), encode_utf8(job))],
                priority,
                created_at,
            ),
    ensures
        exists|r: int|
            0 <= r < pages.len() && ttl_sweep(#[trigger] pages[r]).contains(
                counter_add(CounterKind::TeamQueued, encode_utf8(team), -1),
            ) && !apply_all(stores[r], ttl_sweep(pages[r]), stamp).contains_key(
                queue_key(encode_utf8(team), priority, created_at, encode_utf8(job)),
            ) && !apply_all(stores[r], ttl_sweep(pages[r]), stamp).contains_key(
                ttl_index_key(expires_at, encode_utf8(team), encode_utf8(job)),
            ),
{
    let key = ttl_index_key(expires_at, encode_utf8(team), encode_utf8(job));
    let begin = seq![TTL_INDEX_TAG];
    let end = ttl_index_prefix_until(now);
    law_expiry_keys_sort_by_time(expires_at, encode_utf8(team), encode_utf8(job), now);
    law_ten_batches_reach_every_key(stores, begin, end, pages, key);
    let (r, i) = choose|r: int, i: int|
        0 <= r < pages.len() && 0 <= i < pages[r].len() && (#[trigger] pages[r][i]).key == key;
    assert(is_range_read(stores[r], page_begin(begin, pages, r), end, BATCH as nat, pages[r]));
    assert(stores[r].contains_key(pages[r][i].key));
    assert(stores[r][key] == pages[r][i].value);
    law_expired_job_is_swept(
        stores[r],
        team,
        job,
        priority,
        created_at,
        expires_at,
        now,
        pages[r],
        i,
        stamp,
    );
}

/// The sweep as it begins to look into a batch of claims.
pub open spec fn batch_of(entries: Seq<Entry>, round: u32, cleaned: i64) -> OrphanView {
    OrphanView {
        round,
        cleaned,
        full: entries.len() == BATCH,
        asked: false,
        claims: claims_to_check(entries),
        next: 0,
        orphans: Seq::empty(),
        last: last_key(entries),
    }
}

/// Whether the commit with which a sweep ends its batch clears a claim, where the lookups
/// on the way are answered from `store`.
pub open spec fn is_reaped(store: Store, sweep: OrphanView, claim_key: Seq<u8>) -> bool {
    batch_end(store, sweep) matches Ok(step) ==> step matches StepView::Ask(
        Query::Commit { changes, best_effort, txn },
        _,
    ) && changes.contains(Change::Clear { key: claim_key })
}

proof fn lemma_claim_is_checked(entries: Seq<Entry>, i: int)
    requires
        0 <= i < entries.len(),
        is_claim_key(entries[i].key),
    ensures
        claims_to_check(entries).len() <= entries.len(),
        exists|c: int|
            0 <= c < claims_to_check(entries).len() && #[trigger] claims_to_check(entries)[c]
                == (ClaimInfoView {
                claim_key: entries[i].key,
                queue_key: claimed_queue_key(entries[i].value),
            }),
    decreases entries.len(),
{
    let head = entries.drop_last();
    lemma_claims_bound(entries);
    if i == entries.len() - 1 {
        let c = claims_to_check(head).len() as int;
        assert(claims_to_check(entries)[c] == (ClaimInfoView {
            claim_key: entries[i].key,
            queue_key: claimed_queue_key(entries[i].value),
        }));
    } else {
        assert(head[i] == entries[i]);
        lemma_claim_is_checked(head, i);
        let c = choose|c: int|
            0 <= c < claims_to_check(head).len() && #[trigger] claims_to_check(head)[c]
                == (ClaimInfoView {
                claim_key: entries[i].key,
                queue_key: claimed_queue_key(entries[i].value),
            });
        assert(claims_to_check(entries)[c] == claims_to_check(head)[c]);
    }
}

proof fn lemma_claims_bound(entries: Seq<Entry>)
    ensures
        claims_to_check(entries).len() <= entries.len(),
    decreases entries.len(),
{
    if entries.len() > 0 {
        lemma_claims_bound(entries.drop_last());
    }
}

/// Whether a sweep that looks into a batch clears a claim with the commit that ends the
/// batch, whatever round it is in and whatever it has counted.
pub open spec fn batch_reaps(store: Store, entries: Seq<Entry>, claim_key: Seq<u8>) -> bool {
    forall|round: u32, cleaned: i64|
        is_reaped(store, #[trigger] batch_of(entries, round, cleaned), claim_key)
}

/// Orphaned claim reaping, the sweep. Where the claims subspace holds fewer than a thousand
/// keys, one sweep reaches every claim, and the commit that ends the batch of a claim clears
/// it where it is an orphan: where its value refers to no queue key, or to one under which
/// the store holds no record when the sweep looks it up.
pub proof fn law_sweep_reaps_orphan(
    stores: Seq<Store>,
    lookups: Seq<Store>,
    pages: Seq<Seq<Entry>>,
    claim_key: Seq<u8>,
)
    requires
        is_paging(stores, seq![CLAIMS_TAG], end_key_spec(seq![CLAIMS_TAG]), pages),
        pages.last().len() < BATCH || pages.len() == MAX_ROUNDS,
        holds_fewer_than(
            stores[0],
            seq![CLAIMS_TAG],
            end_key_spec(seq![CLAIMS_TAG]),
            (BATCH * MAX_ROUNDS) as nat,
        ),
        stores[0].contains_key(claim_key),
        in_range(claim_key, seq![CLAIMS_TAG], end_key_spec(seq![CLAIMS_TAG])),
        is_claim_key(claim_key),
        lookups.len() == stores.len(),
        forall|r: int|
            0 <= r < stores.len() && (#[trigger] stores[r]).contains_key(claim_key) ==> is_orphan(
                lookups[r],
                ClaimInfoView { claim_key, queue_key: claimed_queue_key(stores[r][claim_key]) },
            ),
    ensures
        exists|r: int|
            0 <= r < pages.len() && batch_reaps(lookups[r], #[trigger] pages[r], claim_key),
{
    let begin = seq![CLAIMS_TAG];
    let end = end_key_spec(begin);
    law_ten_batches_reach_every_key(stores, begin, end, pages, claim_key);
    let (r, i) = choose|r: int, i: int|
        0 <= r < pages.len() && 0 <= i < pages[r].len() && (#[trigger] pages[r][i]).key
            == claim_key;
    assert(is_range_read(stores[r], page_begin(begin, pages, r), end, BATCH as nat, pages[r]));
    assert(stores[r].contains_key(pages[r][i].key));
    assert(stores[r][claim_key] == pages[r][i].value);
    lemma_claim_is_checked(pages[r], i);
    let claim = ClaimInfoView { claim_key, queue_key: claimed_queue_key(pages[r][i].value) };
    let c = choose|c: int|
        0 <= c < claims_to_check(pages[r]).len() && #[trigger] claims_to_check(pages[r])[c]
            == claim;
    assert forall|round: u32, cleaned: i64|
        is_reaped(lookups[r], #[trigger] batch_of(pages[r], round, cleaned), claim_key) by {
        let sweep = batch_of(pages[r], round, cleaned);
        assert(sweep.claims[c] == claim);
        law_batch_reaps_orphans(lookups[r], sweep, claim_key);
    }
}

/// Completion takes the job out. The transaction of a completion is the one that has read
/// the job's record; after its commit the record is gone, so that a second completion by the
/// same handle finds none: it ends with `false` and asks the store for no change.
pub proof fn law_completion_removes_record(
    store: Store,
    queue_key: Seq<u8>,
    bytes: Seq<u8>,
    stamp: Seq<u8>,
)
    requires
        queue_key.len() > 0,
        queue_key[0] == QUEUE_TAG,
    ensures
        match after_complete(queue_key, Answer::Value(Some(bytes))) {
            Ok(StepView::Ask(Query::Commit { changes, best_effort, txn }, pending)) => {
                &&& txn == Txn::Current
                &&& !best_effort
                &&& !apply_all(store, changes, stamp).contains_key(queue_key)
                &&& after_complete(
                    queue_key,
                    Answer::Value(lookup(apply_all(store, changes, stamp), queue_key)),
                ) == Ok::<StepView, Failure>(StepView::Done(OutcomeView::Flag(false)))
                &&& follows(
                    pending,
                    Answer::Committed,
                    Ok(StepView::Done(OutcomeView::Flag(true))),
                )
            },
            Ok(_) => false,
            Err(_) => decode_job_spec(bytes).is_none(),
        },
{
    match decode_job_spec(bytes) {
        Some(job) => {
            let team = encode_utf8(job.team_id);
            let removal = job_removal(queue_key, team, job);
            let changes = removal.push(
                Change::ClearRange {
                    begin: claims_prefix(encode_utf8(job.id)),
                    end: end_key_spec(claims_prefix(encode_utf8(job.id))),
                },
            );
            assert forall|i: int| 0 <= i < changes.len() implies !may_write(
                #[trigger] changes[i],
                queue_key,
                stamp,
            ) by {
                match changes[i] {
                    Change::Add { key, operand } => {
                        assert(key[0] == COUNTER_TAG);
                    },
                    _ => {},
                }
            }
            lemma_cleared_stays_cleared(store, changes, stamp, queue_key);
            assert(changes[0] == Change::Clear { key: queue_key });
            assert(clears(changes[0], queue_key));
        },
        None => {},
    }
}

/// The handle opens the job. The handle that a pop puts into its claim, and returns with the
/// job that it wins, is the one by which a completion looks up that job's queue key.
pub proof fn law_handle_opens_the_job(
    pop: PopView,
    answer: Answer,
    result: Result<StepView, Failure>,
)
    requires
        follows_pop_probe(pop, answer, result),
    ensures
        result matches Ok(StepView::Ask(_, PendingView::PopClaim { pop: claiming, handle }))
            ==> complete_start(handle) == Ok::<StepView, Failure>(
            StepView::Ask(
                Query::Get { key: current(pop).queue_key, snapshot: false, txn: Txn::Fresh },
                PendingView::Complete { queue_key: current(pop).queue_key },
            ),
        ),
{
}

/// Single winner, among many. Of any number of pops that verify their claims on one job,
/// one after the other while claims are only added, all that win are pops of one worker.
pub proof fn law_single_winner_among_many(
    stores: Seq<Store>,
    job: Seq<u8>,
    reads: Seq<Seq<Entry>>,
    pops: Seq<PopView>,
    handles: Seq<Seq<char>>,
    a: int,
    b: int,
)
    requires
        reads.len() == stores.len(),
        pops.len() == stores.len(),
        handles.len() == stores.len(),
        forall|i: int, j: int|
            0 <= i < j < stores.len() ==> grown_after(
                #[trigger] stores[i],
                #[trigger] stores[j],
                claims_prefix(job),
                end_key_spec(claims_prefix(job)),
            ),
        forall|i: int|
            0 <= i < stores.len() ==> is_range_read(
                #[trigger] stores[i],
                claims_prefix(job),
                end_key_spec(claims_prefix(job)),
                1,
                reads[i],
            ),
        forall|i: int|
            0 <= i < stores.len() ==> after_pop_verify(
                #[trigger] pops[i],
                handles[i],
                Answer::Range(reads[i]),
            ) matches Ok(StepView::Done(OutcomeView::Job(Some(_)))),
        0 <= a < stores.len(),
        0 <= b < stores.len(),
    ensures
        pops[a].worker == pops[b].worker,
{
    let begin = claims_prefix(job);
    let end = end_key_spec(begin);
    assert(is_range_read(stores[a], begin, end, 1, reads[a]));
    assert(is_range_read(stores[b], begin, end, 1, reads[b]));
    if a < b {
        assert(grown_after(stores[a], stores[b], begin, end));
        law_single_winner(
            stores[a],
            stores[b],
            job,
            reads[a],
            reads[b],
            pops[a],
            handles[a],
            pops[b],
            handles[b],
        );
    } else if b < a {
        assert(grown_after(stores[b], stores[a], begin, end));
        law_single_winner(
            stores[b],
            stores[a],
            job,
            reads[b],
            reads[a],
            pops[b],
            handles[b],
            pops[a],
            handles[a],
        );
    }
}

/// Whether a step commits the claim of a pop on the job that it tries.
pub open spec fn claims_job(step: StepView, pop: PopView) -> bool {
    match step {
        StepView::Ask(
            Query::Commit { changes, best_effort, txn },
            PendingView::PopClaim { pop: claiming, handle },
        ) => claiming == pop && changes.len() == 1 && match changes[0] {
            Change::SetVersionstampedKey { key, value } => key == claim_key_with_versionstamp(
                encode_utf8(current(pop).job.id),
                encode_utf8(pop.worker),
            ),
            _ => false,
        },
        _ => false,
    }
}

/// A pop takes the first job without a claim. Where the job that a pop tries has a claim in
/// the store, the pop turns to the next job; where it has none, the pop claims it.
pub proof fn law_pop_claims_first_unclaimed(
    store: Store,
    pop: PopView,
    entries: Seq<Entry>,
    result: Result<StepView, Failure>,
)
    requires
        pop.next < pop.candidates.len(),
        is_range_read(
            store,
            claims_prefix(encode_utf8(current(pop).job.id)),
            end_key_spec(claims_prefix(encode_utf8(current(pop).job.id))),
            1,
            entries,
        ),
        follows_pop_probe(pop, Answer::Range(entries), result),
    ensures
        (exists|k: Seq<u8>|
            #[trigger] store.contains_key(k) && in_range(
                k,
                claims_prefix(encode_utf8(current(pop).job.id)),
                end_key_spec(claims_prefix(encode_utf8(current(pop).job.id))),
            )) ==> result == Ok::<StepView, Failure>(pop_skip(pop)),
        (forall|k: Seq<u8>|
            #[trigger] store.contains_key(k) ==> !in_range(
                k,
                claims_prefix(encode_utf8(current(pop).job.id)),
                end_key_spec(claims_prefix(encode_utf8(current(pop).job.id))),
            )) ==> (result matches Ok(step) ==> claims_job(step, pop)),
{
    let begin = claims_prefix(encode_utf8(current(pop).job.id));
    let end = end_key_spec(begin);
    if exists|k: Seq<u8>| #[trigger] store.contains_key(k) && in_range(k, begin, end) {
        let k = choose|k: Seq<u8>| #[trigger] store.contains_key(k) && in_range(k, begin, end);
        assert(store.contains_key(k) && in_range(k, begin, end));
        assert(entries.len() > 0);
    }
    if forall|k: Seq<u8>| #[trigger] store.contains_key(k) ==> !in_range(k, begin, end) {
        if entries.len() > 0 {
            assert(store.contains_key(entries[0].key));
        }
    }
}

proof fn lemma_active_sweep_holds(
    entries: Seq<Entry>,
    kind: CounterKind,
    now: i64,
    at: int,
    change: Change,
)
    requires
        0 <= at < entries.len(),
        active_removal(entries[at], kind, now).contains(change),
    ensures
        active_sweep(entries, kind, now).contains(change),
    decreases entries.len(),
{
    let head = active_sweep(entries.drop_last(), kind, now);
    let tail = active_removal(entries.last(), kind, now);
    if at == entries.len() - 1 {
        let i = choose|i: int| 0 <= i < tail.len() && tail[i] == change;
        assert((head + tail)[head.len() + i] == change);
    } else {
        assert(entries.drop_last()[at] == entries[at]);
        lemma_active_sweep_holds(entries.drop_last(), kind, now, at, change);
        let i = choose|i: int| 0 <= i < head.len() && head[i] == change;
        assert((head + tail)[i] == change);
    }
}

proof fn lemma_active_sweep_touches(
    entries: Seq<Entry>,
    kind: CounterKind,
    now: i64,
    key: Seq<u8>,
    stamp: Seq<u8>,
    i: int,
)
    requires
        key.len() > 0,
        key[0] != COUNTER_TAG,
        0 <= i < active_sweep(entries, kind, now).len(),
    ensures
        !may_write(active_sweep(entries, kind, now)[i], key, stamp),
        clears(active_sweep(entries, kind, now)[i], key) ==> exists|at: int|
            0 <= at < entries.len() && (#[trigger] entries[at]).key == key && is_stale(
                entries[at],
                now,
            ),
    decreases entries.len(),
{
    let head = active_sweep(entries.drop_last(), kind, now);
    let tail = active_removal(entries.last(), kind, now);
    if i < head.len() {
        lemma_active_sweep_touches(entries.drop_last(), kind, now, key, stamp, i);
        if clears(head[i], key) {
            let at = choose|at: int|
                0 <= at < entries.drop_last().len() && (#[trigger] entries.drop_last()[at]).key
                    == key && is_stale(entries.drop_last()[at], now);
            assert(entries[at] == entries.drop_last()[at]);
        }
    } else {
        let change = tail[i - head.len()];
        match change {
            Change::Add { key: k, operand } => {
                assert(k[0] == COUNTER_TAG);
            },
            _ => {},
        }
        if clears(change, key) {
            assert(entries[entries.len() - 1].key == key);
        }
    }
}

proof fn lemma_active_key_shape(crawl: bool, owner: Seq<char>, job: Seq<char>)
    requires
        encode_utf8(owner).len() < 0x1_0000_0000,
    ensures
        leading_id_bytes(active_key_of(crawl, encode_utf8(owner), encode_utf8(job)), 1) == Some(
            encode_utf8(owner),
        ),
        active_key_of(crawl, encode_utf8(owner), encode_utf8(job)).len() > 0,
        active_key_of(crawl, encode_utf8(owner), encode_utf8(job))[0] == active_tag(crawl),
{
    let key = active_key_of(crawl, encode_utf8(owner), encode_utf8(job));
    let tag = seq![active_tag(crawl)];
    assert(key == tag + len_prefixed(encode_utf8(owner)) + len_prefixed(encode_utf8(job)));
    lemma_be_bytes_len((encode_utf8(job).len() % 0x1_0000_0000) as nat, 4);
    law_key_names_its_owner(tag, owner, len_prefixed(encode_utf8(job)));
}

proof fn lemma_stale_entry_is_cleared(
    store: Store,
    kind: CounterKind,
    owner: Seq<u8>,
    now: i64,
    entries: Seq<Entry>,
    at: int,
    stamp: Seq<u8>,
)
    requires
        0 <= at < entries.len(),
        entries[at].key.len() > 0,
        entries[at].key[0] != COUNTER_TAG,
        is_stale(entries[at], now),
        leading_id_bytes(entries[at].key, 1) == Some(owner),
    ensures
        active_sweep(entries, kind, now).contains(counter_add(kind, owner, -1)),
        !apply_all(store, active_sweep(entries, kind, now), stamp).contains_key(entries[at].key),
{
    let sweep = active_sweep(entries, kind, now);
    let key = entries[at].key;
    let removal = active_removal(entries[at], kind, now);
    let down = counter_add(kind, owner, -1);
    assert(removal[0] == Change::Clear { key });
    assert(removal[1] == down);
    lemma_active_sweep_holds(entries, kind, now, at, Change::Clear { key });
    lemma_active_sweep_holds(entries, kind, now, at, down);
    assert forall|i: int| 0 <= i < sweep.len() implies !may_write(
        #[trigger] sweep[i],
        key,
        stamp,
    ) by {
        lemma_active_sweep_touches(entries, kind, now, key, stamp, i);
    }
    lemma_cleared_stays_cleared(store, sweep, stamp, key);
    let a = choose|i: int| 0 <= i < sweep.len() && sweep[i] == Change::Clear { key };
    assert(clears(sweep[a], key));
}

proof fn lemma_active_sweep_leaves(
    store: Store,
    kind: CounterKind,
    now: i64,
    entries: Seq<Entry>,
    key: Seq<u8>,
    stamp: Seq<u8>,
)
    requires
        key.len() > 0,
        key[0] != COUNTER_TAG,
        forall|i: int|
            0 <= i < entries.len() && (#[trigger] entries[i]).key == key ==> !is_stale(
                entries[i],
                now,
            ),
    ensures
        lookup(apply_all(store, active_sweep(entries, kind, now), stamp), key) == lookup(
            store,
            key,
        ),
{
    let sweep = active_sweep(entries, kind, now);
    assert forall|i: int| 0 <= i < sweep.len() implies !may_write(
        #[trigger] sweep[i],
        key,
        stamp,
    ) && !clears(sweep[i], key) by {
        lemma_active_sweep_touches(entries, kind, now, key, stamp, i);
    }
    lemma_untouched_stays(store, sweep, stamp, key);
}

/// Expired active entries are swept, and no others. The transaction that clears a batch of
/// active entries removes an entry of the batch that has expired before `now` and takes one
/// off its owner's counter; an entry of the batch that expires at `now` or later, and every
/// key outside the batch that is no counter, is after the commit as it was before.
pub proof fn law_expired_active_entry_is_swept(
    store: Store,
    crawl: bool,
    owner: Seq<char>,
    job: Seq<char>,
    expires_at: i64,
    now: i64,
    entries: Seq<Entry>,
    at: int,
    stamp: Seq<u8>,
)
    requires
        encode_utf8(owner).len() < 0x1_0000_0000,
        0 <= at < entries.len(),
        entries[at].key == active_key_of(crawl, encode_utf8(owner), encode_utf8(job)),
        entries[at].value == i64_be(expires_at),
        forall|i: int, j: int|
            0 <= i < j < entries.len() ==> (#[trigger] entries[i]).key != (
            #[trigger] entries[j]).key,
    ensures
        expires_at < now ==> active_sweep(entries, active_kind(crawl), now).contains(
            counter_add(active_kind(crawl), encode_utf8(owner), -1),
        ) && !apply_all(
            store,
            active_sweep(entries, active_kind(crawl), now),
            stamp,
        ).contains_key(entries[at].key),
        expires_at >= now ==> lookup(
            apply_all(store, active_sweep(entries, active_kind(crawl), now), stamp),
            entries[at].key,
        ) == lookup(store, entries[at].key),
        forall|key: Seq<u8>|
            key.len() > 0 && key[0] != COUNTER_TAG && (forall|i: int|
                0 <= i < entries.len() ==> (#[trigger] entries[i]).key != key) ==> #[trigger] lookup(
                apply_all(store, active_sweep(entries, active_kind(crawl), now), stamp),
                key,
            ) == lookup(store, key),
{
    let kind = active_kind(crawl);
    let key = entries[at].key;
    lemma_decode_encode_i64_be(expires_at);
    lemma_active_key_shape(crawl, owner, job);
    if expires_at < now {
        lemma_stale_entry_is_cleared(store, kind, encode_utf8(owner), now, entries, at, stamp);
    } else {
        assert forall|i: int| 0 <= i < entries.len() && (#[trigger] entries[i]).key
            == key implies !is_stale(entries[i], now) by {
            assert(i == at);
        }
        lemma_active_sweep_leaves(store, kind, now, entries, key, stamp);
    }
    assert forall|k: Seq<u8>|
        k.len() > 0 && k[0] != COUNTER_TAG && (forall|i: int|
            0 <= i < entries.len() ==> (#[trigger] entries[i]).key != k) implies #[trigger] lookup(
        apply_all(store, active_sweep(entries, kind, now), stamp),
        k,
    ) == lookup(store, k) by {
        lemma_active_sweep_leaves(store, kind, now, entries, k, stamp);
    }
}

proof fn lemma_active_key_in_range(crawl: bool, owner: Seq<u8>, job: Seq<u8>)
    requires
        short_id(owner),
    ensures
        in_range(
            active_key_of(crawl, owner, job),
            seq![active_tag(crawl)],
            end_key_spec(seq![active_tag(crawl)]),
        ),
{
    let key = active_key_of(crawl, owner, job);
    let begin = seq![active_tag(crawl)];
    assert(key =~= begin + len_prefixed(owner) + len_prefixed(job));
    lemma_u32_be_first_byte(owner.len() as u32);
    assert(key.subrange(0, 1) =~= begin);
    assert(key[1] == u32_be(owner.len() as u32)[0]);
    lemma_prefix_range(key, begin);
}

proof fn lemma_page_is_read(
    stores: Seq<Store>,
    begin: Seq<u8>,
    end: Seq<u8>,
    pages: Seq<Seq<Entry>>,
    r: int,
    i: int,
)
    requires
        is_paging(stores, begin, end, pages),
        0 <= r < pages.len(),
        0 <= i < pages[r].len(),
    ensures
        stores[r].contains_key(pages[r][i].key),
        stores[r][pages[r][i].key] == pages[r][i].value,
        forall|a: int, b: int|
            0 <= a < b < pages[r].len() ==> (#[trigger] pages[r][a]).key != (
            #[trigger] pages[r][b]).key,
{
    assert(is_range_read(stores[r], page_begin(begin, pages, r), end, BATCH as nat, pages[r]));
    assert(stores[r].contains_key(pages[r][i].key));
    assert forall|a: int, b: int| 0 <= a < b < pages[r].len() implies (#[trigger] pages[r][a]).key
        != (#[trigger] pages[r][b]).key by {
        lemma_lex_lt_asymmetric(pages[r][a].key, pages[r][b].key);
    }
}

/// Expired active entries, the sweep. Where a subspace of active entries holds fewer than a
/// thousand keys, one sweep reaches every entry, and the commit of the batch that holds an
/// entry that has expired before `now` removes it and takes one off its owner's counter.
pub proof fn law_sweep_clears_expired_active(
    stores: Seq<Store>,
    pages: Seq<Seq<Entry>>,
    crawl: bool,
    owner: Seq<char>,
    job: Seq<char>,
    expires_at: i64,
    now: i64,
    stamp: Seq<u8>,
)
    requires
        expires_at < now,
        encode_utf8(owner).len() < 0x100_0000,
        is_paging(
            stores,
            seq![active_tag(crawl)],
            end_key_spec(seq![active_tag(crawl)]),
            pages,
        ),
        pages.last().len() < BATCH || pages.len() == MAX_ROUNDS,
        holds_fewer_than(
            stores[0],
            seq![active_tag(crawl)],
            end_key_spec(seq![active_tag(crawl)]),
            (BATCH * MAX_ROUNDS) as nat,
        ),
        stores[0].contains_key(active_key_of(crawl, encode_utf8(owner), encode_utf8(job))),
        forall|r: int|
            0 <= r < stores.len() && (#[trigger] stores[r]).contains_key(
                active_key_of(crawl, encode_utf8(owner), encode_utf8(job)),
            ) ==> stores[r][active_key_of(crawl, encode_utf8(owner), encode_utf8(job))] == i64_be(
                expires_at,
            ),
    ensures
        exists|r: int|
            0 <= r < pages.len() && active_sweep(
                #[trigger] pages[r],
                active_kind(crawl),
                now,
            ).contains(counter_add(active_kind(crawl), encode_utf8(owner), -1)) && !apply_all(
                stores[r],
                active_sweep(pages[r], active_kind(crawl), now),
                stamp,
            ).contains_key(active_key_of(crawl, encode_utf8(owner), encode_utf8(job))),
{
    let key = active_key_of(crawl, encode_utf8(owner), encode_utf8(job));
    let begin = seq![active_tag(crawl)];
    let end = end_key_spec(begin);
    lemma_active_key_in_range(crawl, encode_utf8(owner), encode_utf8(job));
    law_ten_batches_reach_every_key(stores, begin, end, pages, key);
    let (r, i) = choose|r: int, i: int|
        0 <= r < pages.len() && 0 <= i < pages[r].len() && (#[trigger] pages[r][i]).key == key;
    lemma_page_is_read(stores, begin, end, pages, r, i);
    law_expired_active_entry_is_swept(
        stores[r],
        crawl,
        owner,
        job,
        expires_at,
        now,
        pages[r],
        i,
        stamp,
    );
}

/// Whether a job has a claim in the store.
pub open spec fn has_claim(store: Store, job_id: Seq<char>) -> bool {
    exists|k: Seq<u8>|
        #[trigger] store.contains_key(k) && in_range(
            k,
            claims_prefix(encode_utf8(job_id)),
            end_key_spec(claims_prefix(encode_utf8(job_id))),
        )
}

/// The pop once it has passed over every job that has a claim: it stands at the first job
/// from where it stood that has none, or behind the last.
pub open spec fn at_first_unclaimed(store: Store, pop: PopView) -> PopView
    decreases pop.candidates.len() - pop.next,
{
    if pop.next < pop.candidates.len() <= usize::MAX && has_claim(store, current(pop).job.id) {
        at_first_unclaimed(store, PopView { next: (pop.next + 1) as usize, ..pop })
    } else {
        pop
    }
}

/// A pop that runs alone claims the job of the smallest key. Of the jobs that it may try,
/// a pop passes over those that have a claim, one probe after the other, and claims the
/// first that has none; that job has the smallest queue key of all that have none.
pub proof fn law_lone_pop_claims_smallest_key(
    store: Store,
    scanned_from: Store,
    begin: Seq<u8>,
    end: Seq<u8>,
    limit: nat,
    entries: Seq<Entry>,
    blocked: Seq<Seq<char>>,
    now: i64,
    pop: PopView,
)
    requires
        is_range_read(scanned_from, begin, end, limit, entries),
        pop.candidates == candidates_of(entries, blocked, now),
        pop.candidates.len() <= usize::MAX,
        pop.next <= pop.candidates.len(),
    ensures
        ({
            let first = at_first_unclaimed(store, pop);
            &&& first.candidates == pop.candidates
            &&& first.worker == pop.worker
            &&& pop.next <= first.next <= pop.candidates.len()
            &&& forall|i: int|
                pop.next <= i < first.next ==> has_claim(
                    store,
                    (#[trigger] pop.candidates[i]).job.id,
                )
            &&& first.next < pop.candidates.len() ==> !has_claim(store, current(first).job.id)
            &&& forall|j: int|
                first.next < j < pop.candidates.len() ==> lex_lt(
                    current(first).queue_key,
                    (#[trigger] pop.candidates[j]).queue_key,
                )
            &&& first.next == pop.candidates.len() ==> pop_try(first) == StepView::Done(
                OutcomeView::Job(None),
            )
        }),
    decreases pop.candidates.len() - pop.next,
{
    let first = at_first_unclaimed(store, pop);
    if pop.next < pop.candidates.len() && has_claim(store, current(pop).job.id) {
        let next = PopView { next: (pop.next + 1) as usize, ..pop };
        law_lone_pop_claims_smallest_key(
            store,
            scanned_from,
            begin,
            end,
            limit,
            entries,
            blocked,
            now,
            next,
        );
        assert forall|i: int| pop.next <= i < first.next implies has_claim(
            store,
            (#[trigger] pop.candidates[i]).job.id,
        ) by {
            if i == pop.next {
                assert(pop.candidates[i] == current(pop));
            }
        }
    } else {
        assert(first == pop);
        assert forall|j: int| first.next < j < pop.candidates.len() implies lex_lt(
            current(first).queue_key,
            (#[trigger] pop.candidates[j]).queue_key,
        ) by {
            law_candidates_ascend(
                scanned_from,
                begin,
                end,
                limit,
                entries,
                blocked,
                now,
                first.next as int,
                j,
            );
        }
    }
}

} // verus!
