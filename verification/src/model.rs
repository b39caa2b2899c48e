//! The store as the engine takes it to be: an ordered map from keys to values, changed by
//! transactions that commit one after the other, each under a versionstamp of its own.
//!
//! Nothing here runs. These definitions say what a mutation means, so that what the engine
//! plans can be stated as what becomes of the store.

use crate::codec::{
    i64_le, le_bytes, le_value, lemma_le_bytes_len, lemma_le_round_trip, lemma_le_value_bound,
    lemma_pow256_values, pow256, signed64, u32_le, unsigned64,
};
use crate::keys::{
    claim_key, claim_key_with_versionstamp, claims_prefix, len_prefixed, versionstamp_placeholder,
};
use crate::order::{in_range, lex_lt};
use crate::scan::counter_value;
use crate::store::{Change, Entry};
use vstd::prelude::*;

verus! {

/// The contents of the store.
pub type Store = Map<Seq<u8>, Seq<u8>>;

/// `n` zero bytes.
pub open spec fn zeros(n: nat) -> Seq<u8> {
    Seq::new(n, |i: int| 0u8)
}

/// A stored value as an atomic add takes it: cut or filled with zero bytes to the length of
/// the operand, and all zero where nothing is stored.
pub open spec fn fit(existing: Option<Seq<u8>>, len: nat) -> Seq<u8> {
    match existing {
        None => zeros(len),
        Some(v) => if v.len() >= len {
            v.subrange(0, len as int)
        } else {
            v + zeros((len - v.len()) as nat)
        },
    }
}

/// What an atomic add leaves under a key: the sum of the two little-endian numbers, as many
/// bytes as the operand has, wrapping round.
pub open spec fn add_le(existing: Option<Seq<u8>>, operand: Seq<u8>) -> Seq<u8> {
    le_bytes(
        (le_value(fit(existing, operand.len())) + le_value(operand)) % pow256(operand.len()),
        operand.len(),
    )
}

/// The key under which a versionstamped write lands: the last four bytes, a little-endian
/// offset, are dropped, and the ten bytes at that offset are replaced by the stamp. A key
/// too short for that is refused.
pub open spec fn stamped_key(key: Seq<u8>, stamp: Seq<u8>) -> Option<Seq<u8>> {
    if key.len() < 4 || stamp.len() != 10 {
        None
    } else {
        let body = key.subrange(0, key.len() - 4);
        let at = le_value(key.subrange(key.len() - 4, key.len() as int)) as int;
        if at + 10 <= body.len() {
            Some(body.subrange(0, at) + stamp + body.subrange(at + 10, body.len() as int))
        } else {
            None
        }
    }
}

/// The value under `key`, if there is one.
pub open spec fn lookup(store: Store, key: Seq<u8>) -> Option<Seq<u8>> {
    if store.contains_key(key) {
        Some(store[key])
    } else {
        None
    }
}

/// The store after one change of a transaction that commits under `stamp`.
pub open spec fn apply(store: Store, change: Change, stamp: Seq<u8>) -> Store {
    match change {
        Change::Put { key, value } => store.insert(key, value),
        Change::Clear { key } => store.remove(key),
        Change::ClearRange { begin, end } => Map::new(
            |k: Seq<u8>| store.contains_key(k) && !in_range(k, begin, end),
            |k: Seq<u8>| store[k],
        ),
        Change::Add { key, operand } => store.insert(key, add_le(lookup(store, key), operand)),
        Change::SetVersionstampedKey { key, value } => match stamped_key(key, stamp) {
            Some(k) => store.insert(k, value),
            None => store,
        },
    }
}

/// The store after the changes of a transaction that commits under `stamp`, in their order.
pub open spec fn apply_all(store: Store, changes: Seq<Change>, stamp: Seq<u8>) -> Store
    decreases changes.len(),
{
    if changes.len() == 0 {
        store
    } else {
        apply(apply_all(store, changes.drop_last(), stamp), changes.last(), stamp)
    }
}

/// Whether `entries` is what a range read of `store` returns: the first `limit` entries from
/// `begin` up to, not including, `end`, in key order.
pub open spec fn is_range_read(
    store: Store,
    begin: Seq<u8>,
    end: Seq<u8>,
    limit: nat,
    entries: Seq<Entry>,
) -> bool {
    &&& entries.len() <= limit
    &&& forall|i: int|
        0 <= i < entries.len() ==> {
            &&& store.contains_key(#[trigger] entries[i].key)
            &&& store[entries[i].key] == entries[i].value
            &&& in_range(entries[i].key, begin, end)
        }
    &&& forall|i: int, j: int|
        0 <= i < j < entries.len() ==> lex_lt(#[trigger] entries[i].key, #[trigger] entries[j].key)
    &&& forall|k: Seq<u8>|
        #[trigger] store.contains_key(k) && in_range(k, begin, end) ==> {
            ||| exists|i: int| 0 <= i < entries.len() && #[trigger] entries[i].key == k
            ||| (entries.len() == limit && limit > 0 && lex_lt(entries.last().key, k))
        }
}

proof fn lemma_offset_reads_back(offset: u32)
    ensures
        u32_le(offset).len() == 4,
        le_value(u32_le(offset)) == offset,
{
    lemma_pow256_values();
    lemma_le_bytes_len(offset as nat, 4);
    lemma_le_round_trip(offset as nat, 4);
}

proof fn lemma_stamp_lands(prefix: Seq<u8>, tail: Seq<u8>, stamp: Seq<u8>, trailer: Seq<u8>)
    requires
        stamp.len() == 10,
        trailer.len() == 4,
        le_value(trailer) == prefix.len(),
    ensures
        stamped_key(prefix + versionstamp_placeholder() + tail + trailer, stamp) == Some(
            prefix + stamp + tail,
        ),
{
    let body = prefix + versionstamp_placeholder() + tail;
    let key = body + trailer;
    let at = prefix.len() as int;
    assert(key.subrange(0, key.len() - 4) =~= body);
    assert(key.subrange(key.len() - 4, key.len() as int) =~= trailer);
    assert(body.subrange(0, at) =~= prefix);
    assert(body.subrange(at + 10, body.len() as int) =~= tail);
}

/// The store puts the versionstamp where the engine left the placeholder: a claim handed in
/// for a job and a worker lands under the job's claims prefix, the stamp, then the worker.
pub proof fn lemma_claim_lands(job: Seq<u8>, worker: Seq<u8>, stamp: Seq<u8>)
    requires
        stamp.len() == 10,
        claims_prefix(job).len() < 0x1_0000_0000,
    ensures
        stamped_key(claim_key_with_versionstamp(job, worker), stamp) == Some(
            claim_key(job, stamp, worker),
        ),
{
    let prefix = claims_prefix(job);
    let offset = (prefix.len() % 0x1_0000_0000) as u32;
    lemma_offset_reads_back(offset);
    lemma_stamp_lands(prefix, len_prefixed(worker), stamp, u32_le(offset));
}

/// A transaction of one change.
pub proof fn lemma_apply_all_one(store: Store, change: Change, stamp: Seq<u8>)
    ensures
        apply_all(store, seq![change], stamp) == apply(store, change, stamp),
{
    assert(seq![change].drop_last() =~= Seq::<Change>::empty());
    assert(apply_all(store, Seq::<Change>::empty(), stamp) == store);
}

/// The changes of a transaction take effect in their order: first those of its first part,
/// then those of the rest.
pub proof fn lemma_apply_all_concat(store: Store, a: Seq<Change>, b: Seq<Change>, stamp: Seq<u8>)
    ensures
        apply_all(store, a + b, stamp) == apply_all(apply_all(store, a, stamp), b, stamp),
    decreases b.len(),
{
    if b.len() == 0 {
        assert(a + b =~= a);
    } else {
        lemma_apply_all_concat(store, a, b.drop_last(), stamp);
        assert((a + b).drop_last() =~= a + b.drop_last());
        assert((a + b).last() == b.last());
    }
}

/// Whether a change can put something under `key`: a clear cannot, and a write or an add
/// can only under its own key.
pub open spec fn may_write(change: Change, key: Seq<u8>, stamp: Seq<u8>) -> bool {
    match change {
        Change::Put { key: k, value } => k == key,
        Change::Clear { key: k } => false,
        Change::ClearRange { begin, end } => false,
        Change::Add { key: k, operand } => k == key,
        Change::SetVersionstampedKey { key: k, value } => stamped_key(k, stamp) == Some(key),
    }
}

/// Whether a change removes `key`.
pub open spec fn clears(change: Change, key: Seq<u8>) -> bool {
    match change {
        Change::Clear { key: k } => k == key,
        Change::ClearRange { begin, end } => in_range(key, begin, end),
        _ => false,
    }
}

/// A key that no change of a transaction can write, and that one of them clears, is gone
/// when the transaction has committed.
pub proof fn lemma_cleared_stays_cleared(
    store: Store,
    changes: Seq<Change>,
    stamp: Seq<u8>,
    key: Seq<u8>,
)
    requires
        forall|i: int| 0 <= i < changes.len() ==> !may_write(#[trigger] changes[i], key, stamp),
    ensures
        apply_all(store, changes, stamp).contains_key(key) ==> store.contains_key(key) && forall|
            i: int,
        |
            0 <= i < changes.len() ==> !clears(#[trigger] changes[i], key),
        apply_all(store, changes, stamp).contains_key(key) ==> apply_all(store, changes, stamp)[key]
            == store[key],
    decreases changes.len(),
{
    if changes.len() > 0 {
        let head = changes.drop_last();
        assert forall|i: int| 0 <= i < head.len() implies !may_write(
            #[trigger] head[i],
            key,
            stamp,
        ) by {
            assert(head[i] == changes[i]);
        }
        lemma_cleared_stays_cleared(store, head, stamp, key);
        let before = apply_all(store, head, stamp);
        let last = changes.last();
        assert(!may_write(changes[changes.len() - 1], key, stamp));
        if apply_all(store, changes, stamp).contains_key(key) {
            assert(before.contains_key(key));
            assert(!clears(last, key));
            assert forall|i: int| 0 <= i < changes.len() implies !clears(
                #[trigger] changes[i],
                key,
            ) by {
                if i < head.len() {
                    assert(head[i] == changes[i]);
                }
            }
        }
    }
}

/// A key that no change of a transaction touches is after the commit as it was before.
pub proof fn lemma_untouched_stays(store: Store, changes: Seq<Change>, stamp: Seq<u8>, key: Seq<u8>)
    requires
        forall|i: int|
            0 <= i < changes.len() ==> !may_write(#[trigger] changes[i], key, stamp) && !clears(
                changes[i],
                key,
            ),
    ensures
        lookup(apply_all(store, changes, stamp), key) == lookup(store, key),
    decreases changes.len(),
{
    if changes.len() > 0 {
        let head = changes.drop_last();
        assert forall|i: int| 0 <= i < head.len() implies !may_write(
            #[trigger] head[i],
            key,
            stamp,
        ) && !clears(head[i], key) by {
            assert(head[i] == changes[i]);
        }
        lemma_untouched_stays(store, head, stamp, key);
        assert(!may_write(changes[changes.len() - 1], key, stamp));
    }
}

proof fn lemma_zeros_value()
    ensures
        le_value(zeros(8)) == 0,
{
    reveal_with_fuel(le_value, 9);
    assert(zeros(8).drop_first() =~= zeros(7));
    assert(zeros(7).drop_first() =~= zeros(6));
    assert(zeros(6).drop_first() =~= zeros(5));
    assert(zeros(5).drop_first() =~= zeros(4));
    assert(zeros(4).drop_first() =~= zeros(3));
    assert(zeros(3).drop_first() =~= zeros(2));
    assert(zeros(2).drop_first() =~= zeros(1));
    assert(zeros(1).drop_first() =~= zeros(0));
}

proof fn lemma_wrapping_sum(stored: nat, delta: i64)
    requires
        stored < 0x1_0000_0000_0000_0000,
        i64::MIN <= signed64(stored) + delta <= i64::MAX,
    ensures
        signed64(
            ((stored + unsigned64(delta)) % 0x1_0000_0000_0000_0000) as nat,
        ) == signed64(stored) + delta,
{
}

/// An atomic add counts. Adding `delta` to a counter that is missing or eight bytes long
/// changes the number that it reads as by `delta`, where the sum fits in 64 bits.
pub proof fn lemma_add_counts(existing: Option<Seq<u8>>, delta: i64)
    requires
        existing matches Some(v) ==> v.len() == 8,
        i64::MIN <= counter_value(existing) + delta <= i64::MAX,
    ensures
        counter_value(Some(add_le(existing, i64_le(delta))))
            == counter_value(existing) + delta,
{
    let operand = i64_le(delta);
    lemma_pow256_values();
    lemma_le_bytes_len(unsigned64(delta), 8);
    lemma_le_round_trip(unsigned64(delta), 8);
    let fitted = fit(existing, 8);
    match existing {
        Some(v) => {
            assert(fitted =~= v);
            assert(v.subrange(0, 8) =~= v);
        },
        None => {
            lemma_zeros_value();
        },
    }
    lemma_le_value_bound(fitted);
    let stored = le_value(fitted);
    assert(counter_value(existing) == signed64(stored));
    lemma_wrapping_sum(stored, delta);
    let sum = ((stored + unsigned64(delta)) % 0x1_0000_0000_0000_0000) as nat;
    let written = add_le(existing, operand);
    assert(written == le_bytes(sum, 8));
    lemma_le_bytes_len(sum, 8);
    lemma_le_round_trip(sum, 8);
    assert(written.subrange(0, 8) =~= written);
}

} // verus!
