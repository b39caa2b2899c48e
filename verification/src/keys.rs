//! The key schema: seven subspaces in one ordered namespace, each under a one-byte tag.
//!
//! Ids stand in keys behind a four-byte big-endian length. Numbers by which keys must sort
//! stand in them big-endian.

use crate::codec::{
    encode_i32_be, encode_i64_be, encode_u32_be, encode_u32_le, i32_be, i64_be, u32_be, u32_le,
};
use vstd::prelude::*;
use vstd::utf8::encode_utf8;

verus! {

/// Job records.
pub const QUEUE_TAG: u8 = 0x01;

/// The jobs of a crawl.
pub const CRAWL_INDEX_TAG: u8 = 0x02;

/// Counters.
pub const COUNTER_TAG: u8 = 0x03;

/// The jobs that a team's workers are running.
pub const ACTIVE_TAG: u8 = 0x04;

/// The jobs of a crawl that workers are running.
pub const ACTIVE_CRAWL_TAG: u8 = 0x05;

/// Jobs by the time at which they expire.
pub const TTL_INDEX_TAG: u8 = 0x06;

/// Claims.
pub const CLAIMS_TAG: u8 = 0x07;

/// The length of a versionstamp: eight bytes of commit version and two of batch order.
pub const VERSIONSTAMP_LEN: usize = 10;

/// Which of the four counters of an id a key names.
#[derive(Clone, Copy, Debug, PartialEq, Eq, Structural)]
pub enum CounterKind {
    /// The queued jobs of a team.
    TeamQueued,
    /// The queued jobs of a crawl.
    CrawlQueued,
    /// The running jobs of a team.
    TeamActive,
    /// The running jobs of a crawl.
    CrawlActive,
}

impl CounterKind {
    /// The byte that stands for the kind in a counter key.
    pub open spec fn tag_spec(self) -> u8 {
        match self {
            CounterKind::TeamQueued => 0x01,
            CounterKind::CrawlQueued => 0x02,
            CounterKind::TeamActive => 0x03,
            CounterKind::CrawlActive => 0x04,
        }
    }

    /// The byte that stands for the kind in a counter key.
    pub fn tag(self) -> (t: u8)
        ensures
            t == self.tag_spec(),
    {
        match self {
            CounterKind::TeamQueued => 0x01,
            CounterKind::CrawlQueued => 0x02,
            CounterKind::TeamActive => 0x03,
            CounterKind::CrawlActive => 0x04,
        }
    }
}

/// An id as it stands in a key: its length in four bytes, then its bytes. A length of 2^32 or
/// more does not fit and is cut to its low 32 bits.
pub open spec fn len_prefixed(id: Seq<u8>) -> Seq<u8> {
    u32_be((id.len() % 0x1_0000_0000) as u32) + id
}

/// An id short enough for range scans to be exact: below 2^24 bytes the first byte of its
/// length is zero, so no key goes on with `0xff` after a prefix.
pub open spec fn short_id(id: Seq<u8>) -> bool {
    id.len() < 0x100_0000
}

/// The ten bytes `0xff` that the store replaces by the versionstamp when it commits.
pub open spec fn versionstamp_placeholder() -> Seq<u8> {
    Seq::new(10, |i: int| 0xffu8)
}

pub open spec fn next_key_spec(key: Seq<u8>) -> Seq<u8> {
    key.push(0x00u8)
}

pub open spec fn end_key_spec(prefix: Seq<u8>) -> Seq<u8> {
    prefix.push(0xffu8)
}

pub open spec fn queue_prefix(team: Seq<u8>) -> Seq<u8> {
    seq![QUEUE_TAG] + len_prefixed(team)
}

pub open spec fn queue_key(team: Seq<u8>, priority: i32, created_at: i64, job: Seq<u8>) -> Seq<
    u8,
> {
    queue_prefix(team) + i32_be(priority) + i64_be(created_at) + len_prefixed(job)
}

pub open spec fn crawl_index_prefix(crawl: Seq<u8>) -> Seq<u8> {
    seq![CRAWL_INDEX_TAG] + len_prefixed(crawl)
}

pub open spec fn crawl_index_key(crawl: Seq<u8>, job: Seq<u8>) -> Seq<u8> {
    crawl_index_prefix(crawl) + len_prefixed(job)
}

pub open spec fn counter_prefix(kind: CounterKind) -> Seq<u8> {
    seq![COUNTER_TAG, kind.tag_spec()]
}

pub open spec fn counter_key(kind: CounterKind, id: Seq<u8>) -> Seq<u8> {
    counter_prefix(kind) + len_prefixed(id)
}

pub open spec fn active_prefix(team: Seq<u8>) -> Seq<u8> {
    seq![ACTIVE_TAG] + len_prefixed(team)
}

pub open spec fn active_key(team: Seq<u8>, job: Seq<u8>) -> Seq<u8> {
    active_prefix(team) + len_prefixed(job)
}

pub open spec fn active_crawl_prefix(crawl: Seq<u8>) -> Seq<u8> {
    seq![ACTIVE_CRAWL_TAG] + len_prefixed(crawl)
}

pub open spec fn active_crawl_key(crawl: Seq<u8>, job: Seq<u8>) -> Seq<u8> {
    active_crawl_prefix(crawl) + len_prefixed(job)
}

pub open spec fn ttl_index_prefix_until(expires_at: i64) -> Seq<u8> {
    seq![TTL_INDEX_TAG] + i64_be(expires_at)
}

pub open spec fn ttl_index_key(expires_at: i64, team: Seq<u8>, job: Seq<u8>) -> Seq<u8> {
    ttl_index_prefix_until(expires_at) + len_prefixed(team) + len_prefixed(job)
}

pub open spec fn claims_prefix(job: Seq<u8>) -> Seq<u8> {
    seq![CLAIMS_TAG] + len_prefixed(job)
}

/// A claim as the store keeps it once it is committed: the versionstamp stands before the
/// worker, so the claims of a job sort by the order in which they were committed.
pub open spec fn claim_key(job: Seq<u8>, stamp: Seq<u8>, worker: Seq<u8>) -> Seq<u8> {
    claims_prefix(job) + stamp + len_prefixed(worker)
}

/// A claim as a worker submits it: the placeholder stands where the versionstamp will, the
/// worker after it, and the last four bytes say where the placeholder starts.
pub open spec fn claim_key_with_versionstamp(job: Seq<u8>, worker: Seq<u8>) -> Seq<u8> {
    claims_prefix(job) + versionstamp_placeholder() + len_prefixed(worker) + u32_le(
        (claims_prefix(job).len() % 0x1_0000_0000) as u32,
    )
}

/// The smallest key that sorts strictly after `key`.
pub fn next_key(key: &[u8]) -> (next: Vec<u8>)
    ensures
        next@ == next_key_spec(key@),
{
    let mut next = vstd::slice::slice_to_vec(key);
    next.push(0x00u8);
    next
}

/// The upper bound of a scan of all keys under `prefix`.
pub fn end_key(prefix: &[u8]) -> (end: Vec<u8>)
    ensures
        end@ == end_key_spec(prefix@),
{
    let mut end = vstd::slice::slice_to_vec(prefix);
    end.push(0xffu8);
    end
}

fn push_bytes(key: &mut Vec<u8>, bytes: &[u8])
    ensures
        final(key)@ == old(key)@ + bytes@,
{
    let mut i: usize = 0;
    while i < bytes.len()
        invariant
            i <= bytes@.len(),
            key@ == old(key)@ + bytes@.subrange(0, i as int),
        decreases bytes@.len() - i,
    {
        key.push(bytes[i]);
        i += 1;
        assert(key@ =~= old(key)@ + bytes@.subrange(0, i as int));
    }
    assert(bytes@.subrange(0, i as int) =~= bytes@);
}

fn push_len_prefixed(key: &mut Vec<u8>, id: &[u8])
    ensures
        final(key)@ == old(key)@ + len_prefixed(id@),
{
    let len: u32 = ((id.len() as u64) % 0x1_0000_0000u64) as u32;
    let prefix = encode_u32_be(len);
    push_bytes(key, prefix.as_slice());
    push_bytes(key, id);
    assert(key@ =~= old(key)@ + len_prefixed(id@));
}

fn tagged(tag: u8, id: &str) -> (key: Vec<u8>)
    ensures
        key@ == seq![tag] + len_prefixed(encode_utf8(id@)),
{
    let mut key: Vec<u8> = Vec::new();
    key.push(tag);
    assert(key@ =~= seq![tag]);
    push_len_prefixed(&mut key, id.as_bytes());
    key
}

pub fn build_queue_prefix(team_id: &str) -> (key: Vec<u8>)
    ensures
        key@ == queue_prefix(encode_utf8(team_id@)),
{
    tagged(QUEUE_TAG, team_id)
}

pub fn build_queue_key(team_id: &str, priority: i32, created_at: i64, job_id: &str) -> (key: Vec<
    u8,
>)
    ensures
        key@ == queue_key(encode_utf8(team_id@), priority, created_at, encode_utf8(job_id@)),
{
    let mut key = tagged(QUEUE_TAG, team_id);
    let p = encode_i32_be(priority);
    push_bytes(&mut key, p.as_slice());
    let c = encode_i64_be(created_at);
    push_bytes(&mut key, c.as_slice());
    push_len_prefixed(&mut key, job_id.as_bytes());
    key
}

pub fn build_crawl_index_prefix(crawl_id: &str) -> (key: Vec<u8>)
    ensures
        key@ == crawl_index_prefix(encode_utf8(crawl_id@)),
{
    tagged(CRAWL_INDEX_TAG, crawl_id)
}

pub fn build_crawl_index_key(crawl_id: &str, job_id: &str) -> (key: Vec<u8>)
    ensures
        key@ == crawl_index_key(encode_utf8(crawl_id@), encode_utf8(job_id@)),
{
    let mut key = tagged(CRAWL_INDEX_TAG, crawl_id);
    push_len_prefixed(&mut key, job_id.as_bytes());
    key
}

pub fn build_counter_prefix(kind: CounterKind) -> (key: Vec<u8>)
    ensures
        key@ == counter_prefix(kind),
{
    let mut key: Vec<u8> = Vec::new();
    key.push(COUNTER_TAG);
    key.push(kind.tag());
    assert(key@ =~= counter_prefix(kind));
    key
}

pub fn build_counter_key(kind: CounterKind, id: &str) -> (key: Vec<u8>)
    ensures
        key@ == counter_key(kind, encode_utf8(id@)),
{
    let mut key = build_counter_prefix(kind);
    push_len_prefixed(&mut key, id.as_bytes());
    key
}

pub fn build_active_prefix(team_id: &str) -> (key: Vec<u8>)
    ensures
        key@ == active_prefix(encode_utf8(team_id@)),
{
    tagged(ACTIVE_TAG, team_id)
}

pub fn build_active_key(team_id: &str, job_id: &str) -> (key: Vec<u8>)
    ensures
        key@ == active_key(encode_utf8(team_id@), encode_utf8(job_id@)),
{
    let mut key = tagged(ACTIVE_TAG, team_id);
    push_len_prefixed(&mut key, job_id.as_bytes());
    key
}

pub fn build_active_crawl_prefix(crawl_id: &str) -> (key: Vec<u8>)
    ensures
        key@ == active_crawl_prefix(encode_utf8(crawl_id@)),
{
    tagged(ACTIVE_CRAWL_TAG, crawl_id)
}

pub fn build_active_crawl_key(crawl_id: &str, job_id: &str) -> (key: Vec<u8>)
    ensures
        key@ == active_crawl_key(encode_utf8(crawl_id@), encode_utf8(job_id@)),
{
    let mut key = tagged(ACTIVE_CRAWL_TAG, crawl_id);
    push_len_prefixed(&mut key, job_id.as_bytes());
    key
}

pub fn build_ttl_index_prefix_until(expires_at: i64) -> (key: Vec<u8>)
    ensures
        key@ == ttl_index_prefix_until(expires_at),
{
    let mut key: Vec<u8> = Vec::new();
    key.push(TTL_INDEX_TAG);
    assert(key@ =~= seq![TTL_INDEX_TAG]);
    let e = encode_i64_be(expires_at);
    push_bytes(&mut key, e.as_slice());
    key
}

pub fn build_ttl_index_key(expires_at: i64, team_id: &str, job_id: &str) -> (key: Vec<u8>)
    ensures
        key@ == ttl_index_key(expires_at, encode_utf8(team_id@), encode_utf8(job_id@)),
{
    let mut key = build_ttl_index_prefix_until(expires_at);
    push_len_prefixed(&mut key, team_id.as_bytes());
    push_len_prefixed(&mut key, job_id.as_bytes());
    key
}

/// The prefix of all claims of a job.
pub fn build_claims_prefix(job_id: &str) -> (key: Vec<u8>)
    ensures
        key@ == claims_prefix(encode_utf8(job_id@)),
{
    tagged(CLAIMS_TAG, job_id)
}

/// The key of a claim as it is handed to the store, which puts the versionstamp in place of
/// the placeholder and drops the offset when it commits. Two workers hand in different keys,
/// so their claims do not conflict; once committed, the claims of a job sort by versionstamp.
pub fn build_claim_key_with_versionstamp(job_id: &str, worker_id: &str) -> (key: Vec<u8>)
    ensures
        key@ == claim_key_with_versionstamp(encode_utf8(job_id@), encode_utf8(worker_id@)),
{
    let mut key = tagged(CLAIMS_TAG, job_id);
    let offset: u32 = ((key.len() as u64) % 0x1_0000_0000u64) as u32;
    let mut i: usize = 0;
    while i < VERSIONSTAMP_LEN
        invariant
            i <= 10,
            key@ == claims_prefix(encode_utf8(job_id@)) + Seq::new(i as nat, |j: int| 0xffu8),
        decreases 10 - i,
    {
        key.push(0xffu8);
        i += 1;
        assert(key@ =~= claims_prefix(encode_utf8(job_id@)) + Seq::new(
            i as nat,
            |j: int| 0xffu8,
        ));
    }
    push_len_prefixed(&mut key, worker_id.as_bytes());
    let o = encode_u32_le(offset);
    push_bytes(&mut key, o.as_slice());
    key
}

} // verus!
