//! Reading the answers of the store: the ids and counts that a scan or a lookup stands for.

use crate::codec::{
    decode_i64_be, decode_i64_be_spec, decode_i64_le, decode_i64_le_spec, decode_u32_be, u32_be_at,
};
use crate::job::{decode_job, decode_job_spec};
use crate::store::{value_view, Entry, KeyValue};
use crate::text::utf8_text;
use vstd::prelude::*;
use vstd::slice::slice_subrange;
use vstd::utf8::{decode_utf8, encode_utf8, encode_utf8_decode_utf8, valid_utf8};

verus! {

/// The number that a counter holds: zero where it is missing or shorter than eight bytes.
pub open spec fn counter_value(stored: Option<Seq<u8>>) -> i64 {
    match stored {
        Some(v) => decode_i64_le_spec(v),
        None => 0,
    }
}

/// Reads a counter.
pub fn read_counter(stored: &Option<Vec<u8>>) -> (n: i64)
    ensures
        n == counter_value(value_view(*stored)),
{
    match stored {
        Some(v) => decode_i64_le(v.as_slice()),
        None => 0,
    }
}

/// The id at the end of a key: what follows `prefix_len` bytes and a four-byte length, where
/// that is text and not empty.
pub open spec fn trailing_id(key: Seq<u8>, prefix_len: int) -> Option<Seq<char>> {
    if key.len() > prefix_len + 4 && valid_utf8(key.subrange(prefix_len + 4, key.len() as int)) {
        Some(decode_utf8(key.subrange(prefix_len + 4, key.len() as int)))
    } else {
        None
    }
}

/// Reads the id at the end of a key.
pub fn read_trailing_id(key: &[u8], prefix_len: usize) -> (id: Option<String>)
    ensures
        id.deep_view() == trailing_id(key@, prefix_len as int),
{
    if key.len() < 4 || key.len() - 4 <= prefix_len {
        return None;
    }
    let tail = slice_subrange(key, prefix_len + 4, key.len());
    match utf8_text(tail) {
        Some(s) => {
            proof {
                encode_utf8_decode_utf8(s@);
            }
            Some(s.to_owned())
        },
        None => None,
    }
}

/// The id in a key behind `prefix_len` bytes: the bytes that the four-byte length there
/// counts, where the key holds that many and they are text.
pub open spec fn leading_id_bytes(key: Seq<u8>, prefix_len: int) -> Option<Seq<u8>> {
    if key.len() > prefix_len + 4 {
        let n = u32_be_at(key, prefix_len as int);
        let from = prefix_len + 4;
        if from + n <= key.len() && valid_utf8(key.subrange(from as int, from + n)) {
            Some(key.subrange(from as int, from + n))
        } else {
            None
        }
    } else {
        None
    }
}

/// Reads the id in a key behind `prefix_len` bytes.
pub fn read_leading_id<'a>(key: &'a [u8], prefix_len: usize) -> (id: Option<&'a str>)
    ensures
        match id {
            Some(s) => leading_id_bytes(key@, prefix_len as int) == Some(
                encode_utf8(s@),
            ),
            None => leading_id_bytes(key@, prefix_len as int).is_none(),
        },
{
    if key.len() < 4 || key.len() - 4 <= prefix_len {
        return None;
    }
    let n = decode_u32_be(key, prefix_len);
    let from = prefix_len + 4;
    if (n as u64) > ((key.len() - from) as u64) {
        return None;
    }
    let bytes = slice_subrange(key, from, from + n as usize);
    utf8_text(bytes)
}

/// The ids of the active jobs in a scan of the keys under a prefix of `prefix_len` bytes:
/// those whose entry expires after `now`.
pub open spec fn active_ids(entries: Seq<Entry>, prefix_len: int, now: i64) -> Seq<Seq<char>>
    decreases entries.len(),
{
    if entries.len() == 0 {
        Seq::empty()
    } else {
        let rest = active_ids(entries.drop_last(), prefix_len, now);
        let last = entries.last();
        if decode_i64_be_spec(last.value) > now && trailing_id(last.key, prefix_len).is_some() {
            rest.push(trailing_id(last.key, prefix_len).unwrap())
        } else {
            rest
        }
    }
}

/// Reads the ids of the active jobs in a scan.
pub fn read_active_ids(entries: &Vec<KeyValue>, prefix_len: usize, now: i64) -> (ids: Vec<String>)
    ensures
        ids.deep_view() == active_ids(entries.deep_view(), prefix_len as int, now),
{
    let mut ids: Vec<String> = Vec::new();
    let ghost all = entries.deep_view();
    let mut i: usize = 0;
    assert(ids.deep_view() =~= active_ids(all.take(0), prefix_len as int, now));
    while i < entries.len()
        invariant
            i <= entries.len(),
            all == entries.deep_view(),
            ids.deep_view() == active_ids(all.take(i as int), prefix_len as int, now),
        decreases entries.len() - i,
    {
        let entry = &entries[i];
        assert(all.take(i + 1).drop_last() =~= all.take(i as int));
        assert(all.take(i + 1).last() == entry.deep_view());
        let ghost before = ids.deep_view();
        if decode_i64_be(entry.value.as_slice()) > now {
            match read_trailing_id(entry.key.as_slice(), prefix_len) {
                Some(id) => {
                    ids.push(id);
                    assert(ids.deep_view() =~= before.push(id@));
                },
                None => {},
            }
        }
        i += 1;
    }
    assert(all.take(i as int) =~= all);
    ids
}

/// How many entries of a scan expire after `now`.
pub open spec fn live_count(entries: Seq<Entry>, now: i64) -> nat
    decreases entries.len(),
{
    if entries.len() == 0 {
        0
    } else {
        live_count(entries.drop_last(), now) + if decode_i64_be_spec(entries.last().value) > now {
            1nat
        } else {
            0nat
        }
    }
}

pub proof fn lemma_live_count_bound(entries: Seq<Entry>, now: i64)
    ensures
        live_count(entries, now) <= entries.len(),
    decreases entries.len(),
{
    if entries.len() > 0 {
        lemma_live_count_bound(entries.drop_last(), now);
    }
}

/// Counts the entries of a scan that expire after `now`.
pub fn count_live(entries: &Vec<KeyValue>, now: i64) -> (n: usize)
    ensures
        n == live_count(entries.deep_view(), now),
{
    let ghost all = entries.deep_view();
    let mut n: usize = 0;
    let mut i: usize = 0;
    while i < entries.len()
        invariant
            i <= entries.len(),
            all == entries.deep_view(),
            n == live_count(all.take(i as int), now),
            n <= i,
        decreases entries.len() - i,
    {
        assert(all.take(i + 1).drop_last() =~= all.take(i as int));
        assert(all.take(i + 1).last() == entries[i as int].deep_view());
        if decode_i64_be(entries[i].value.as_slice()) > now {
            n += 1;
        }
        i += 1;
    }
    assert(all.take(i as int) =~= all);
    n
}

/// The ids of the jobs in a scan of a queue: those of the entries whose value is a job
/// record, in the order of the scan.
pub open spec fn queued_ids(entries: Seq<Entry>) -> Seq<Seq<char>>
    decreases entries.len(),
{
    if entries.len() == 0 {
        Seq::empty()
    } else {
        let rest = queued_ids(entries.drop_last());
        match decode_job_spec(entries.last().value) {
            Some(job) => rest.push(job.id),
            None => rest,
        }
    }
}

/// Reads the ids of the jobs in a scan of a queue.
pub fn read_queued_ids(entries: &Vec<KeyValue>) -> (ids: Vec<String>)
    ensures
        ids.deep_view() == queued_ids(entries.deep_view()),
{
    let mut ids: Vec<String> = Vec::new();
    let ghost all = entries.deep_view();
    let mut i: usize = 0;
    assert(ids.deep_view() =~= queued_ids(all.take(0)));
    while i < entries.len()
        invariant
            i <= entries.len(),
            all == entries.deep_view(),
            ids.deep_view() == queued_ids(all.take(i as int)),
        decreases entries.len() - i,
    {
        let entry = &entries[i];
        assert(all.take(i + 1).drop_last() =~= all.take(i as int));
        assert(all.take(i + 1).last() == entry.deep_view());
        let ghost before = ids.deep_view();
        match decode_job(entry.value.as_slice()) {
            Ok(job) => {
                ids.push(job.id);
                assert(ids.deep_view() =~= before.push(job.id@));
            },
            Err(_) => {},
        }
        i += 1;
    }
    assert(all.take(i as int) =~= all);
    ids
}

/// The ids whose counters a scan of counter keys has found, in the order of the scan.
pub open spec fn counter_ids(entries: Seq<Entry>) -> Seq<Seq<char>>
    decreases entries.len(),
{
    if entries.len() == 0 {
        Seq::empty()
    } else {
        let rest = counter_ids(entries.drop_last());
        match leading_id_bytes(entries.last().key, 2) {
            Some(id) => rest.push(decode_utf8(id)),
            None => rest,
        }
    }
}

/// Reads the ids whose counters a scan has found.
pub fn read_counter_ids(entries: &Vec<KeyValue>) -> (ids: Vec<String>)
    ensures
        ids.deep_view() == counter_ids(entries.deep_view()),
{
    let mut ids: Vec<String> = Vec::new();
    let ghost all = entries.deep_view();
    let mut i: usize = 0;
    assert(ids.deep_view() =~= counter_ids(all.take(0)));
    while i < entries.len()
        invariant
            i <= entries.len(),
            all == entries.deep_view(),
            ids.deep_view() == counter_ids(all.take(i as int)),
        decreases entries.len() - i,
    {
        let entry = &entries[i];
        assert(all.take(i + 1).drop_last() =~= all.take(i as int));
        assert(all.take(i + 1).last() == entry.deep_view());
        let ghost before = ids.deep_view();
        match read_leading_id(entry.key.as_slice(), 2) {
            Some(id) => {
                proof {
                    encode_utf8_decode_utf8(id@);
                }
                ids.push(id.to_owned());
                assert(ids.deep_view() =~= before.push(id@));
            },
            None => {},
        }
        i += 1;
    }
    assert(all.take(i as int) =~= all);
    ids
}

} // verus!
