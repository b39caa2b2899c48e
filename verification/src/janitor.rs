//! The janitor's sweeps: what a batch of expired or orphaned entries is cleared by.

use crate::codec::{
    decode_i64_be, decode_i64_be_spec, decode_u32_be, low_i32, truncate_i32, u32_be_at,
};
use crate::json::{
    json_as_i64, json_as_str, json_from_slice, json_index, json_int, json_member, json_parsed,
    json_text,
};
use crate::keys::{build_crawl_index_key, build_queue_key, crawl_index_key, queue_key, CounterKind};
use crate::plan::{add_to_counter, counter_add, empty_plan, push_change};
use crate::pop::{claimed_queue_key, read_claimed_queue_key};
use crate::scan::{leading_id_bytes, read_leading_id};
use crate::store::{copy_bytes, keys_view, value_view, Change, Entry, KeyValue, Mutation};
use crate::text::{text_or_empty, utf8_text_or_empty};
use vstd::prelude::*;
use vstd::slice::slice_subrange;
use vstd::utf8::encode_utf8;

verus! {

/// The team and the job that an expiry key names: behind the tag and the eight bytes of the
/// time, the team with its length, then four bytes and the job. Bytes that are not text read
/// as the empty id.
pub open spec fn ttl_key_ids(key: Seq<u8>) -> Option<(Seq<u8>, Seq<u8>)> {
    if key.len() > 13 {
        let n = u32_be_at(key, 9);
        if key.len() > 13 + n + 4 {
            Some(
                (
                    text_or_empty(key.subrange(13, 13 + n)),
                    text_or_empty(key.subrange(13 + n + 4, key.len() as int)),
                ),
            )
        } else {
            None
        }
    } else {
        None
    }
}

/// Reads the team and the job that an expiry key names.
pub fn parse_ttl_key<'a>(key: &'a [u8]) -> (ids: Option<(&'a str, &'a str)>)
    ensures
        match ids {
            Some((team, job)) => ttl_key_ids(key@) == Some((encode_utf8(team@), encode_utf8(job@))),
            None => ttl_key_ids(key@).is_none(),
        },
{
    if key.len() <= 13 {
        return None;
    }
    let n = decode_u32_be(key, 9);
    if (key.len() - 13) as u64 <= n as u64 + 4 {
        return None;
    }
    let team = utf8_text_or_empty(slice_subrange(key, 13, 13 + n as usize));
    let job = utf8_text_or_empty(slice_subrange(key, 13 + n as usize + 4, key.len()));
    Some((team, job))
}

/// A number of a document, or zero where the member is no number.
pub open spec fn int_or_zero(member: serde_json::Value) -> i64 {
    match json_int(member) {
        Some(n) => n,
        None => 0,
    }
}

/// What clears the job of one expiry entry: its record, its share of the team's counter, its
/// crawl entry and share of the crawl's counter where the entry names a crawl, and the entry
/// itself. An entry whose value is not JSON, or whose key is too short, is left alone.
pub open spec fn ttl_removal(entry: Entry) -> Seq<Change> {
    match (json_parsed(entry.value), ttl_key_ids(entry.key)) {
        (Some(doc), Some((team, job))) => {
            let priority = low_i32(int_or_zero(json_member(doc, "priority"@)));
            let created_at = int_or_zero(json_member(doc, "createdAt"@));
            seq![
                Change::Clear { key: queue_key(team, priority, created_at, job) },
                counter_add(CounterKind::TeamQueued, team, -1),
            ] + (match json_text(json_member(doc, "crawlId"@)) {
                Some(c) => seq![
                    Change::Clear { key: crawl_index_key(encode_utf8(c), job) },
                    counter_add(CounterKind::CrawlQueued, encode_utf8(c), -1),
                ],
                None => Seq::empty(),
            }) + seq![Change::Clear { key: entry.key }]
        },
        _ => Seq::empty(),
    }
}

/// Whether a sweep clears the job of an expiry entry.
pub open spec fn is_swept(entry: Entry) -> bool {
    json_parsed(entry.value).is_some() && ttl_key_ids(entry.key).is_some()
}

/// What clears the jobs of a batch of expiry entries.
pub open spec fn ttl_sweep(entries: Seq<Entry>) -> Seq<Change>
    decreases entries.len(),
{
    if entries.len() == 0 {
        Seq::empty()
    } else {
        ttl_sweep(entries.drop_last()) + ttl_removal(entries.last())
    }
}

/// How many jobs a sweep of a batch of expiry entries clears.
pub open spec fn ttl_swept(entries: Seq<Entry>) -> nat
    decreases entries.len(),
{
    if entries.len() == 0 {
        0
    } else {
        ttl_swept(entries.drop_last()) + if is_swept(entries.last()) {
            1nat
        } else {
            0nat
        }
    }
}

/// Appends what clears the job of one expiry entry, and says whether there was anything.
fn push_ttl_removal(plan: &mut Vec<Mutation>, entry: &KeyValue) -> (swept: bool)
    ensures
        final(plan).deep_view() == old(plan).deep_view() + ttl_removal(entry.deep_view()),
        swept == is_swept(entry.deep_view()),
{
    let ghost before = plan.deep_view();
    let doc = match json_from_slice(entry.value.as_slice()) {
        Ok(doc) => doc,
        Err(_) => {
            assert(before + Seq::<Change>::empty() =~= before);
            return false;
        },
    };
    let (team_id, job_id) = match parse_ttl_key(entry.key.as_slice()) {
        Some(ids) => ids,
        None => {
            assert(before + Seq::<Change>::empty() =~= before);
            return false;
        },
    };
    let ghost team = encode_utf8(team_id@);
    let ghost job = encode_utf8(job_id@);
    let priority = truncate_i32(
        match json_as_i64(json_index(&doc, "priority")) {
            Some(n) => n,
            None => 0,
        },
    );
    let created_at = match json_as_i64(json_index(&doc, "createdAt")) {
        Some(n) => n,
        None => 0,
    };
    push_change(
        plan,
        Mutation::Clear { key: build_queue_key(team_id, priority, created_at, job_id) },
    );
    push_change(plan, add_to_counter(CounterKind::TeamQueued, team_id, -1));
    let ghost head = seq![
        Change::Clear { key: queue_key(team, priority, created_at, job) },
        counter_add(CounterKind::TeamQueued, team, -1),
    ];
    assert(plan.deep_view() =~= before + head);
    let ghost crawl = match json_text(json_member(doc, "crawlId"@)) {
        Some(c) => seq![
            Change::Clear { key: crawl_index_key(encode_utf8(c), job) },
            counter_add(CounterKind::CrawlQueued, encode_utf8(c), -1),
        ],
        None => Seq::empty(),
    };
    if let Some(c) = json_as_str(json_index(&doc, "crawlId")) {
        push_change(plan, Mutation::Clear { key: build_crawl_index_key(c, job_id) });
        push_change(plan, add_to_counter(CounterKind::CrawlQueued, c, -1));
    }
    assert(plan.deep_view() =~= before + head + crawl);
    push_change(plan, Mutation::Clear { key: copy_bytes(entry.key.as_slice()) });
    assert(plan.deep_view() =~= before + (head + crawl + seq![Change::Clear { key: entry.key@ }]));
    true
}

/// Plans the clearing of the jobs of a batch of expiry entries, and counts them.
pub fn plan_ttl_sweep(entries: &Vec<KeyValue>) -> (r: (Vec<Mutation>, usize))
    ensures
        r.0.deep_view() == ttl_sweep(entries.deep_view()),
        r.1 == ttl_swept(entries.deep_view()),
        r.1 <= entries.len(),
{
    let mut plan = empty_plan();
    let mut swept: usize = 0;
    let ghost all = entries.deep_view();
    let mut i: usize = 0;
    while i < entries.len()
        invariant
            i <= entries.len(),
            all == entries.deep_view(),
            plan.deep_view() == ttl_sweep(all.take(i as int)),
            swept == ttl_swept(all.take(i as int)),
            swept <= i,
        decreases entries.len() - i,
    {
        assert(all.take(i + 1).drop_last() =~= all.take(i as int));
        assert(all.take(i + 1).last() == entries[i as int].deep_view());
        if push_ttl_removal(&mut plan, &entries[i]) {
            swept += 1;
        }
        i += 1;
    }
    assert(all.take(i as int) =~= all);
    (plan, swept)
}

/// Whether a sweep clears an active entry: it has expired before `now`, and its key names
/// an owner.
pub open spec fn is_stale(entry: Entry, now: i64) -> bool {
    decode_i64_be_spec(entry.value) < now && leading_id_bytes(entry.key, 1).is_some()
}

/// What clears one active entry: the entry itself and its share of its owner's counter.
pub open spec fn active_removal(entry: Entry, kind: CounterKind, now: i64) -> Seq<Change> {
    if is_stale(entry, now) {
        seq![
            Change::Clear { key: entry.key },
            counter_add(kind, leading_id_bytes(entry.key, 1).unwrap(), -1),
        ]
    } else {
        Seq::empty()
    }
}

/// What clears the expired among a batch of active entries.
pub open spec fn active_sweep(entries: Seq<Entry>, kind: CounterKind, now: i64) -> Seq<Change>
    decreases entries.len(),
{
    if entries.len() == 0 {
        Seq::empty()
    } else {
        active_sweep(entries.drop_last(), kind, now) + active_removal(entries.last(), kind, now)
    }
}

/// How many of a batch of active entries a sweep clears.
pub open spec fn active_swept(entries: Seq<Entry>, now: i64) -> nat
    decreases entries.len(),
{
    if entries.len() == 0 {
        0
    } else {
        active_swept(entries.drop_last(), now) + if is_stale(entries.last(), now) {
            1nat
        } else {
            0nat
        }
    }
}

/// Plans the clearing of the expired among a batch of active entries, and counts them.
pub fn plan_active_sweep(entries: &Vec<KeyValue>, kind: CounterKind, now: i64) -> (r: (
    Vec<Mutation>,
    usize,
))
    ensures
        r.0.deep_view() == active_sweep(entries.deep_view(), kind, now),
        r.1 == active_swept(entries.deep_view(), now),
        r.1 <= entries.len(),
{
    let mut plan = empty_plan();
    let mut swept: usize = 0;
    let ghost all = entries.deep_view();
    let mut i: usize = 0;
    while i < entries.len()
        invariant
            i <= entries.len(),
            all == entries.deep_view(),
            plan.deep_view() == active_sweep(all.take(i as int), kind, now),
            swept == active_swept(all.take(i as int), now),
            swept <= i,
        decreases entries.len() - i,
    {
        let entry = &entries[i];
        assert(all.take(i + 1).drop_last() =~= all.take(i as int));
        assert(all.take(i + 1).last() == entry.deep_view());
        let ghost before = plan.deep_view();
        let mut cleared = false;
        if decode_i64_be(entry.value.as_slice()) < now {
            if let Some(owner) = read_leading_id(entry.key.as_slice(), 1) {
                push_change(&mut plan, Mutation::Clear { key: copy_bytes(entry.key.as_slice()) });
                push_change(&mut plan, add_to_counter(kind, owner, -1));
                swept += 1;
                cleared = true;
            }
        }
        assert(plan.deep_view() =~= before + active_removal(entry.deep_view(), kind, now));
        i += 1;
    }
    assert(all.take(i as int) =~= all);
    (plan, swept)
}

/// A claim that a sweep looks into: its key, and the queue key that its value refers to, if
/// it refers to one.
#[derive(Clone, Debug)]
pub struct ClaimInfo {
    pub claim_key: Vec<u8>,
    pub queue_key: Option<Vec<u8>>,
}

/// A claim, as the contracts speak of it.
pub struct ClaimInfoView {
    pub claim_key: Seq<u8>,
    pub queue_key: Option<Seq<u8>>,
}

impl DeepView for ClaimInfo {
    type V = ClaimInfoView;

    open spec fn deep_view(&self) -> ClaimInfoView {
        ClaimInfoView {
            claim_key: self.claim_key@,
            queue_key: value_view(self.queue_key),
        }
    }
}

/// Whether a key is long enough for a claim: the tag, a job id with its length, and a
/// versionstamp.
pub open spec fn is_claim_key(key: Seq<u8>) -> bool {
    key.len() > 15 && key.len() >= 5 + u32_be_at(key, 1) + 10
}

/// Whether a key is long enough for a claim.
pub fn check_claim_key(key: &[u8]) -> (r: bool)
    ensures
        r == is_claim_key(key@),
{
    if key.len() <= 15 {
        return false;
    }
    let n = decode_u32_be(key, 1);
    (key.len() - 15) as u64 >= n as u64
}

/// The claims of a scan that a sweep looks into, in the order of the scan.
pub open spec fn claims_to_check(entries: Seq<Entry>) -> Seq<ClaimInfoView>
    decreases entries.len(),
{
    if entries.len() == 0 {
        Seq::empty()
    } else {
        let rest = claims_to_check(entries.drop_last());
        let last = entries.last();
        if is_claim_key(last.key) {
            rest.push(
                ClaimInfoView { claim_key: last.key, queue_key: claimed_queue_key(last.value) },
            )
        } else {
            rest
        }
    }
}

/// Reads the claims of a scan.
pub fn read_claims(entries: &Vec<KeyValue>) -> (claims: Vec<ClaimInfo>)
    ensures
        claims.deep_view() == claims_to_check(entries.deep_view()),
{
    let mut claims: Vec<ClaimInfo> = Vec::new();
    let ghost all = entries.deep_view();
    let mut i: usize = 0;
    assert(claims.deep_view() =~= claims_to_check(all.take(0)));
    while i < entries.len()
        invariant
            i <= entries.len(),
            all == entries.deep_view(),
            claims.deep_view() == claims_to_check(all.take(i as int)),
        decreases entries.len() - i,
    {
        let entry = &entries[i];
        assert(all.take(i + 1).drop_last() =~= all.take(i as int));
        assert(all.take(i + 1).last() == entry.deep_view());
        let ghost before = claims.deep_view();
        if check_claim_key(entry.key.as_slice()) {
            let info = ClaimInfo {
                claim_key: copy_bytes(entry.key.as_slice()),
                queue_key: read_claimed_queue_key(entry.value.as_slice()),
            };
            claims.push(info);
            assert(claims.deep_view() =~= before.push(info.deep_view()));
        }
        i += 1;
    }
    assert(all.take(i as int) =~= all);
    claims
}

/// What clears a list of orphaned claims: each of their keys.
pub open spec fn orphan_clears(orphans: Seq<Seq<u8>>) -> Seq<Change> {
    Seq::new(orphans.len(), |i: int| Change::Clear { key: orphans[i] })
}

/// Plans the clearing of orphaned claims.
pub fn plan_orphan_clears(orphans: &Vec<Vec<u8>>) -> (plan: Vec<Mutation>)
    ensures
        plan.deep_view() == orphan_clears(keys_view(orphans@)),
{
    let mut plan: Vec<Mutation> = Vec::new();
    let mut i: usize = 0;
    while i < orphans.len()
        invariant
            i <= orphans.len(),
            plan.len() == i,
            forall|j: int|
                0 <= j < i ==> plan@[j].deep_view() == (Change::Clear { key: orphans@[j]@ }),
        decreases orphans.len() - i,
    {
        plan.push(Mutation::Clear { key: copy_bytes(orphans[i].as_slice()) });
        i += 1;
    }
    assert(plan.deep_view() =~= orphan_clears(keys_view(orphans@)));
    plan
}

} // verus!
