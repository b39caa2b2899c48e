//! What the engine asks of the store and what the store answers.
//!
//! The engine never talks to the store. It hands out requests, and whoever holds the
//! connection performs them and hands back the answers.

use vstd::prelude::*;

verus! {

/// A key with its value, as a range read returns it.
#[derive(Clone, Debug)]
pub struct KeyValue {
    pub key: Vec<u8>,
    pub value: Vec<u8>,
}

/// A key with its value, as the contracts speak of it.
pub struct Entry {
    pub key: Seq<u8>,
    pub value: Seq<u8>,
}

impl DeepView for KeyValue {
    type V = Entry;

    open spec fn deep_view(&self) -> Entry {
        Entry { key: self.key@, value: self.value@ }
    }
}

/// One change to the store. The changes of a transaction take effect together, when it
/// commits.
#[derive(Clone, Debug)]
pub enum Mutation {
    /// Writes a value.
    Put { key: Vec<u8>, value: Vec<u8> },
    /// Removes a key.
    Clear { key: Vec<u8> },
    /// Removes every key from `begin` up to, not including, `end`.
    ClearRange { begin: Vec<u8>, end: Vec<u8> },
    /// Adds `operand`, a little-endian number, to the little-endian number under `key`,
    /// without reading it.
    Add { key: Vec<u8>, operand: Vec<u8> },
    /// Writes a value under `key` once the store has put the versionstamp of the commit into
    /// it, at the offset that the last four bytes of `key` give.
    SetVersionstampedKey { key: Vec<u8>, value: Vec<u8> },
}

/// A change to the store, as the contracts speak of it.
pub enum Change {
    Put { key: Seq<u8>, value: Seq<u8> },
    Clear { key: Seq<u8> },
    ClearRange { begin: Seq<u8>, end: Seq<u8> },
    Add { key: Seq<u8>, operand: Seq<u8> },
    SetVersionstampedKey { key: Seq<u8>, value: Seq<u8> },
}

impl DeepView for Mutation {
    type V = Change;

    open spec fn deep_view(&self) -> Change {
        match self {
            Mutation::Put { key, value } => Change::Put { key: key@, value: value@ },
            Mutation::Clear { key } => Change::Clear { key: key@ },
            Mutation::ClearRange { begin, end } => Change::ClearRange { begin: begin@, end: end@ },
            Mutation::Add { key, operand } => Change::Add { key: key@, operand: operand@ },
            Mutation::SetVersionstampedKey { key, value } => Change::SetVersionstampedKey {
                key: key@,
                value: value@,
            },
        }
    }
}

/// The transaction that a request belongs to.
#[derive(Clone, Copy, Debug, PartialEq, Eq, Structural)]
pub enum Txn {
    /// A transaction of its own, begun for this request.
    Fresh,
    /// The transaction of the request before it.
    Current,
}

/// What the engine asks of the store.
#[derive(Clone, Debug)]
pub enum Request {
    /// The first `limit` entries from `begin` up to, not including, `end`, in key order.
    GetRange { begin: Vec<u8>, end: Vec<u8>, limit: usize, snapshot: bool, txn: Txn },
    /// The value under `key`.
    Get { key: Vec<u8>, snapshot: bool, txn: Txn },
    /// Applies the mutations and commits. Where `best_effort` is set a failure is reported to
    /// the engine, which goes on; where it is not, a failure ends the operation.
    Commit { mutations: Vec<Mutation>, best_effort: bool, txn: Txn },
}

/// A request, as the contracts speak of it.
pub enum Query {
    GetRange { begin: Seq<u8>, end: Seq<u8>, limit: usize, snapshot: bool, txn: Txn },
    Get { key: Seq<u8>, snapshot: bool, txn: Txn },
    Commit { changes: Seq<Change>, best_effort: bool, txn: Txn },
}

impl DeepView for Request {
    type V = Query;

    open spec fn deep_view(&self) -> Query {
        match self {
            Request::GetRange { begin, end, limit, snapshot, txn } => Query::GetRange {
                begin: begin@,
                end: end@,
                limit: *limit,
                snapshot: *snapshot,
                txn: *txn,
            },
            Request::Get { key, snapshot, txn } => Query::Get {
                key: key@,
                snapshot: *snapshot,
                txn: *txn,
            },
            Request::Commit { mutations, best_effort, txn } => Query::Commit {
                changes: mutations.deep_view(),
                best_effort: *best_effort,
                txn: *txn,
            },
        }
    }
}

/// What the store answers.
#[derive(Clone, Debug)]
pub enum Response {
    /// The entries of a range read, in key order.
    Range(Vec<KeyValue>),
    /// The value under a key, if there is one.
    Value(Option<Vec<u8>>),
    /// The transaction is committed.
    Committed,
    /// A transaction that was to be committed at best effort is not committed.
    CommitFailed,
}

/// An answer, as the contracts speak of it.
pub enum Answer {
    Range(Seq<Entry>),
    Value(Option<Seq<u8>>),
    Committed,
    CommitFailed,
}

impl DeepView for Response {
    type V = Answer;

    open spec fn deep_view(&self) -> Answer {
        match self {
            Response::Range(entries) => Answer::Range(entries.deep_view()),
            Response::Value(value) => Answer::Value(value_view(*value)),
            Response::Committed => Answer::Committed,
            Response::CommitFailed => Answer::CommitFailed,
        }
    }
}

/// A list of keys, as the contracts speak of it.
pub open spec fn keys_view(keys: Seq<Vec<u8>>) -> Seq<Seq<u8>> {
    Seq::new(keys.len(), |i: int| keys[i]@)
}

/// A stored value, if there is one, as the contracts speak of it.
pub open spec fn value_view(value: Option<Vec<u8>>) -> Option<Seq<u8>> {
    match value {
        Some(v) => Some(v@),
        None => None,
    }
}

/// Copies bytes into a vector of their own.
pub fn copy_bytes(bytes: &[u8]) -> (copy: Vec<u8>)
    ensures
        copy@ == bytes@,
{
    vstd::slice::slice_to_vec(bytes)
}

} // verus!
