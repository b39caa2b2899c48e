//! A multi-tenant, priority-ordered job queue on an ordered, transactional key-value store,
//! as a verified engine without I/O.
//!
//! Producers push jobs for a team; workers pop them, one job to one worker, by appending
//! versionstamped claims that never conflict; a janitor sweeps what has expired or was
//! orphaned and reconciles the counters. The engine plans every request to the store and
//! reads every answer, and leaves the talking to its caller: see `engine` and `queue`.
//!
//! `keys` and `codec` hold the key schema, `model` says what the store is taken to do, and
//! `laws` what follows for the queue. `client` and `search` belong to the client of the
//! scraping service that feeds the queue.

pub mod client;
pub mod clock;
pub mod codec;
pub mod engine;
pub mod error;
pub mod handle;
pub mod janitor;
pub mod job;
pub mod json;
pub mod keys;
pub mod laws;
pub mod model;
pub mod order;
pub mod plan;
pub mod pop;
pub mod queue;
pub mod resume;
pub mod scan;
pub mod sdk_error;
pub mod search;
pub mod store;
pub mod text;

pub use engine::{Outcome, Pending, Step};
pub use error::FdbError;
pub use job::{ClaimedJob, FdbQueueJob};
pub use queue::FdbQueue;
pub use store::{KeyValue, Mutation, Request, Response, Txn};
pub use client::Client;
pub use sdk_error::{FirecrawlAPIError, FirecrawlError};
pub use search::{SearchData, SearchOptions, SearchResponse, SearchResultOrDocument};
