use std::collections::BTreeMap;

use base64::Engine;
use fdb_queue::codec::{decode_i64_le, encode_i64_le};
use fdb_queue::keys::{
    build_claim_key_with_versionstamp, build_claims_prefix, build_counter_key, build_queue_key,
    build_ttl_index_key, end_key, CounterKind,
};
use fdb_queue::{
    ClaimedJob, FdbError, FdbQueue, KeyValue, Mutation, Outcome, Pending, Request, Response, Step,
};

/// An ordered store in memory that commits one transaction after the other.
struct MemStore {
    data: BTreeMap<Vec<u8>, Vec<u8>>,
    commits: u64,
    requests: Vec<String>,
}

impl MemStore {
    fn new() -> Self {
        MemStore { data: BTreeMap::new(), commits: 0, requests: Vec::new() }
    }

    fn stamp(&self) -> [u8; 10] {
        let mut stamp = [0u8; 10];
        stamp[..8].copy_from_slice(&self.commits.to_be_bytes());
        stamp
    }

    fn range(&self, begin: &[u8], end: &[u8], limit: usize) -> Vec<KeyValue> {
        if begin >= end {
            return Vec::new();
        }
        self.data
            .range(begin.to_vec()..end.to_vec())
            .take(limit)
            .map(|(k, v)| KeyValue { key: k.clone(), value: v.clone() })
            .collect()
    }

    fn commit(&mut self, mutations: &[Mutation]) {
        self.commits += 1;
        let stamp = self.stamp();
        for m in mutations {
            match m {
                Mutation::Put { key, value } => {
                    self.data.insert(key.clone(), value.clone());
                }
                Mutation::Clear { key } => {
                    self.data.remove(key);
                }
                Mutation::ClearRange { begin, end } => {
                    let doomed: Vec<Vec<u8>> =
                        self.range(begin, end, usize::MAX).into_iter().map(|kv| kv.key).collect();
                    for k in doomed {
                        self.data.remove(&k);
                    }
                }
                Mutation::Add { key, operand } => {
                    let mut old = self.data.get(key).cloned().unwrap_or_default();
                    old.resize(operand.len(), 0);
                    let mut carry = 0u16;
                    let mut sum = vec![0u8; operand.len()];
                    for i in 0..operand.len() {
                        let s = old[i] as u16 + operand[i] as u16 + carry;
                        sum[i] = (s & 0xff) as u8;
                        carry = s >> 8;
                    }
                    self.data.insert(key.clone(), sum);
                }
                Mutation::SetVersionstampedKey { key, value } => {
                    let n = key.len();
                    let at = u32::from_le_bytes([key[n - 4], key[n - 3], key[n - 2], key[n - 1]])
                        as usize;
                    let mut k = key[..n - 4].to_vec();
                    k[at..at + 10].copy_from_slice(&stamp);
                    self.data.insert(k, value.clone());
                }
            }
        }
    }

    fn answer(&mut self, request: &Request) -> Response {
        match request {
            Request::GetRange { begin, end, limit, .. } => {
                self.requests.push("range".to_string());
                Response::Range(self.range(begin, end, *limit))
            }
            Request::Get { key, .. } => {
                self.requests.push("get".to_string());
                Response::Value(self.data.get(key).cloned())
            }
            Request::Commit { mutations, .. } => {
                self.requests.push("commit".to_string());
                self.commit(mutations);
                Response::Committed
            }
        }
    }

    fn run(&mut self, first: Step) -> Result<Outcome, FdbError> {
        let mut step = first;
        loop {
            match step {
                Step::Done(outcome) => return Ok(outcome),
                Step::Ask(request, pending) => {
                    let response = self.answer(&request);
                    step = pending.resume(response)?;
                }
            }
        }
    }

    fn count(&mut self, first: Step) -> i64 {
        match self.run(first) {
            Ok(Outcome::Count(n)) => n,
            _ => panic!("no count"),
        }
    }

    fn ids(&mut self, first: Step) -> Vec<String> {
        match self.run(first) {
            Ok(Outcome::Ids(ids)) => ids,
            _ => panic!("no ids"),
        }
    }

    fn push(&mut self, team: &str, job: &str, priority: i32, timeout: Option<i64>, crawl: Option<&str>, now: i64) {
        let data = serde_json::Value::from("payload");
        let step = FdbQueue::push_job_at(team, job, data, priority, false, None, timeout, crawl, now)
            .unwrap();
        assert!(matches!(self.run(step), Ok(Outcome::Unit)));
    }

    fn pop(&mut self, team: &str, worker: &str, blocked: &[&str], now: i64) -> Option<ClaimedJob> {
        let blocked: Vec<String> = blocked.iter().map(|s| s.to_string()).collect();
        match self.run(FdbQueue::pop_next_job_at(team, worker, &blocked, now)) {
            Ok(Outcome::Job(job)) => job,
            _ => panic!("no pop outcome"),
        }
    }

    fn complete(&mut self, handle: &str) -> bool {
        match self.run(FdbQueue::complete_job(handle).unwrap()) {
            Ok(Outcome::Flag(done)) => done,
            _ => panic!("no flag"),
        }
    }

    fn claims_of(&self, job: &str, limit: usize) -> Vec<KeyValue> {
        let prefix = build_claims_prefix(job);
        self.range(&prefix, &end_key(&prefix), limit)
    }

    fn keys_with_tag(&self, tag: u8) -> usize {
        self.data.keys().filter(|k| k[0] == tag).count()
    }
}

#[test]
fn pops_follow_key_order_of_priorities() {
    let mut store = MemStore::new();
    store.push("T1", "a", 3, None, None, 1000);
    store.push("T1", "b", 1, None, None, 1001);
    store.push("T1", "c", 2, None, None, 1002);
    let first = store.pop("T1", "w1", &[], 2000).unwrap();
    let second = store.pop("T1", "w1", &[], 2000).unwrap();
    let third = store.pop("T1", "w1", &[], 2000).unwrap();
    assert_eq!(
        vec![first.job.priority, second.job.priority, third.job.priority],
        vec![1, 2, 3]
    );
    assert_eq!(vec![first.job.id, second.job.id, third.job.id], vec!["b", "c", "a"]);
    assert!(store.pop("T1", "w1", &[], 2000).is_none());
}

#[test]
fn equal_priorities_pop_in_order_of_creation_then_id() {
    let mut store = MemStore::new();
    store.push("T1", "late", 5, None, None, 2000);
    store.push("T1", "early", 5, None, None, 1000);
    store.push("T1", "zz", 5, None, None, 1500);
    store.push("T1", "aa", 5, None, None, 1500);
    let order: Vec<String> =
        (0..4).map(|_| store.pop("T1", "w", &[], 3000).unwrap().job.id).collect();
    assert_eq!(order, vec!["early", "aa", "zz", "late"]);
    assert_eq!(
        store.ids(FdbQueue::get_team_queued_job_ids("T1", 10)),
        vec!["early", "aa", "zz", "late"]
    );
    assert_eq!(store.ids(FdbQueue::get_team_queued_job_ids("T1", 2)), vec!["early", "aa"]);
}

#[test]
fn expired_job_is_not_popped_and_is_swept() {
    let mut store = MemStore::new();
    store.push("T1", "j", 1, Some(100), None, 1000);
    assert_eq!(store.keys_with_tag(0x06), 1);
    assert_eq!(store.count(FdbQueue::get_team_queue_count("T1")), 1);
    assert!(store.pop("T1", "w", &[], 1150).is_none());
    assert_eq!(store.count(FdbQueue::clean_expired_jobs_at(1150)), 0);
    assert_eq!(store.count(FdbQueue::get_team_queue_count("T1")), 0);
    assert_eq!(store.keys_with_tag(0x01), 0);
    assert_eq!(store.keys_with_tag(0x06), 0);
}

#[test]
fn sweep_clears_expired_job_record_entry_and_count() {
    let mut store = MemStore::new();
    store.push("T1", "j", 1, Some(100), None, 1000);
    store.push("T1", "k", 1, Some(5000), None, 1000);
    assert_eq!(store.count(FdbQueue::clean_expired_jobs_at(1101)), 1);
    assert_eq!(store.count(FdbQueue::get_team_queue_count("T1")), 1);
    assert_eq!(store.ids(FdbQueue::get_team_queued_job_ids("T1", 10)), vec!["k"]);
    assert_eq!(store.keys_with_tag(0x06), 1);
    assert!(store.data.contains_key(&build_ttl_index_key(6000, "T1", "k")));
    assert_eq!(store.count(FdbQueue::clean_expired_jobs_at(1101)), 0);
}

#[test]
fn job_at_its_time_out_is_still_fresh() {
    let mut store = MemStore::new();
    store.push("T1", "j", 1, Some(100), None, 1000);
    assert_eq!(store.count(FdbQueue::clean_expired_jobs_at(1100)), 0);
    assert_eq!(store.pop("T1", "w", &[], 1100).unwrap().job.times_out_at, Some(1100));
}

#[test]
fn one_of_fifty_concurrent_pops_wins() {
    let mut store = MemStore::new();
    store.push("T1", "only", 1, None, None, 1000);
    let blocked: Vec<String> = Vec::new();
    let mut steps: Vec<Option<Step>> = (0..50)
        .map(|i| Some(FdbQueue::pop_next_job_at("T1", &format!("worker-{}", i), &blocked, 2000)))
        .collect();
    let mut winners: Vec<ClaimedJob> = Vec::new();
    let mut losers = 0;
    let mut running = 50;
    while running > 0 {
        for slot in steps.iter_mut() {
            match slot.take() {
                None => {}
                Some(Step::Done(Outcome::Job(Some(job)))) => {
                    winners.push(job);
                    running -= 1;
                }
                Some(Step::Done(_)) => {
                    losers += 1;
                    running -= 1;
                }
                Some(Step::Ask(request, pending)) => {
                    let response = store.answer(&request);
                    *slot = Some(pending.resume(response).unwrap());
                }
            }
        }
    }
    assert_eq!(winners.len(), 1);
    assert_eq!(losers, 49);
    assert_eq!(winners[0].job.id, "only");
    assert_eq!(store.keys_with_tag(0x07), 50);
    let first_claim = store.claims_of("only", 1);
    let value: serde_json::Value = serde_json::from_slice(&first_claim[0].value).unwrap();
    assert_eq!(value["workerId"].as_str(), Some("worker-0"));
    assert!(store.pop("T1", "worker-99", &[], 2000).is_none());
}

#[test]
fn blocked_crawl_is_passed_over() {
    let mut store = MemStore::new();
    store.push("T1", "j", 1, None, Some("C1"), 1000);
    assert_eq!(store.count(FdbQueue::get_crawl_queue_count("C1")), 1);
    assert!(store.pop("T1", "w", &["C1"], 2000).is_none());
    let claimed = store.pop("T1", "w", &[], 2000).unwrap();
    assert_eq!(claimed.job.id, "j");
    assert_eq!(claimed.job.crawl_id.as_deref(), Some("C1"));
    assert!(store.complete(&claimed.queue_key));
    assert_eq!(store.count(FdbQueue::get_crawl_queue_count("C1")), 0);
    assert_eq!(store.count(FdbQueue::get_team_queue_count("T1")), 0);
    assert_eq!(store.keys_with_tag(0x02), 0);
    assert_eq!(store.keys_with_tag(0x07), 0);
}

#[test]
fn blocked_crawl_leaves_later_candidates() {
    let mut store = MemStore::new();
    store.push("T1", "first", 1, None, Some("C1"), 1000);
    store.push("T1", "second", 2, None, Some("C2"), 1000);
    store.push("T1", "third", 3, None, None, 1000);
    assert_eq!(store.pop("T1", "w", &["C1"], 2000).unwrap().job.id, "second");
    assert_eq!(store.pop("T1", "w", &["C1", "C2"], 2000).unwrap().job.id, "third");
    assert!(store.pop("T1", "w", &["C1"], 2000).is_none());
    assert_eq!(store.pop("T1", "w", &[], 2000).unwrap().job.id, "first");
}

#[test]
fn crawl_job_gets_no_expiry_entry() {
    let mut store = MemStore::new();
    store.push("T1", "j", 1, Some(100), Some("C1"), 1000);
    assert_eq!(store.keys_with_tag(0x06), 0);
    assert_eq!(store.keys_with_tag(0x02), 1);
    let claimed = store.pop("T1", "w", &[], 99_999).unwrap();
    assert_eq!(claimed.job.times_out_at, None);
}

#[test]
fn time_out_of_zero_or_of_the_largest_number_is_none() {
    let mut store = MemStore::new();
    store.push("T1", "a", 1, Some(0), None, 1000);
    store.push("T1", "b", 1, Some(i64::MAX), None, 1000);
    store.push("T1", "c", 1, Some(-5), None, 1000);
    assert_eq!(store.keys_with_tag(0x06), 0);
}

#[test]
fn reconcile_corrects_drift_after_lost_counts() {
    let mut store = MemStore::new();
    for i in 0..10 {
        store.push("T1", &format!("job-{}", i), 1, None, None, 1000 + i);
    }
    for _ in 0..3 {
        let claimed = store.pop("T1", "w", &[], 2000).unwrap();
        assert!(store.complete(&claimed.queue_key));
    }
    assert_eq!(store.count(FdbQueue::get_team_queue_count("T1")), 7);
    assert_eq!(store.count(FdbQueue::reconcile_team_queue_counter("T1")), 0);
    store.data.insert(build_counter_key(CounterKind::TeamQueued, "T1"), encode_i64_le(10).to_vec());
    assert_eq!(store.count(FdbQueue::reconcile_team_queue_counter("T1")), -3);
    assert_eq!(store.count(FdbQueue::get_team_queue_count("T1")), 7);
    store.data.remove(&build_counter_key(CounterKind::TeamQueued, "T1"));
    assert_eq!(store.count(FdbQueue::reconcile_team_queue_counter("T1")), 7);
    assert_eq!(store.count(FdbQueue::get_team_queue_count("T1")), 7);
}

#[test]
fn reconcile_of_every_sampled_counter_converges() {
    let mut store = MemStore::new();
    store.push("alpha", "a1", 1, None, Some("crawl-1"), 1000);
    store.push("alpha", "a2", 1, None, Some("crawl-1"), 1001);
    store.push("beta", "b1", 1, None, None, 1002);
    store.data.insert(build_counter_key(CounterKind::TeamQueued, "alpha"), encode_i64_le(40).to_vec());
    store.data.insert(build_counter_key(CounterKind::TeamQueued, "beta"), encode_i64_le(-2).to_vec());
    store.data.insert(build_counter_key(CounterKind::CrawlQueued, "crawl-1"), encode_i64_le(0).to_vec());
    let teams = store.ids(FdbQueue::sample_team_counters(10, None));
    assert_eq!(teams, vec!["beta", "alpha"]);
    let crawls = store.ids(FdbQueue::sample_crawl_counters(10, None));
    assert_eq!(crawls, vec!["crawl-1"]);
    assert_eq!(store.count(FdbQueue::reconcile_team_queue_counter("alpha")), -38);
    assert_eq!(store.count(FdbQueue::reconcile_team_queue_counter("beta")), 3);
    assert_eq!(store.count(FdbQueue::reconcile_crawl_queue_counter("crawl-1")), 2);
    assert_eq!(store.count(FdbQueue::get_team_queue_count("alpha")), 2);
    assert_eq!(store.count(FdbQueue::get_team_queue_count("beta")), 1);
    assert_eq!(store.count(FdbQueue::get_crawl_queue_count("crawl-1")), 2);
    assert_eq!(store.ids(FdbQueue::sample_team_counters(1, None)), vec!["beta"]);
    assert_eq!(store.ids(FdbQueue::sample_team_counters(10, Some("beta"))), vec!["alpha"]);
    assert!(store.ids(FdbQueue::sample_team_counters(10, Some("alpha"))).is_empty());
}

#[test]
fn orphaned_claim_is_reaped() {
    let mut store = MemStore::new();
    let key = build_claim_key_with_versionstamp("ghost", "w1");
    let mut claim = serde_json::Value::Null;
    claim["workerId"] = serde_json::Value::from("w1");
    claim["queueKey"] = serde_json::Value::from("AQAAAAJUMQ==");
    claim["claimedAt"] = serde_json::Value::from(5);
    store.commit(&[Mutation::SetVersionstampedKey {
        key,
        value: serde_json::to_vec(&claim).unwrap(),
    }]);
    assert_eq!(store.keys_with_tag(0x07), 1);
    assert_eq!(store.count(FdbQueue::clean_orphaned_claims()), 1);
    assert_eq!(store.keys_with_tag(0x07), 0);
    assert_eq!(store.count(FdbQueue::clean_orphaned_claims()), 0);
}

#[test]
fn claim_on_a_queued_job_is_kept_and_claim_without_a_key_is_reaped() {
    let mut store = MemStore::new();
    store.push("T1", "live", 1, None, None, 1000);
    assert!(store.pop("T1", "w1", &[], 2000).is_some());
    store.commit(&[Mutation::SetVersionstampedKey {
        key: build_claim_key_with_versionstamp("junk", "w2"),
        value: b"not json".to_vec(),
    }]);
    assert_eq!(store.keys_with_tag(0x07), 2);
    assert_eq!(store.count(FdbQueue::clean_orphaned_claims()), 1);
    assert_eq!(store.keys_with_tag(0x07), 1);
    assert_eq!(store.claims_of("live", 10).len(), 1);
}

#[test]
fn complete_of_a_missing_job_is_false() {
    let mut store = MemStore::new();
    store.push("T1", "j", 1, None, None, 1000);
    let claimed = store.pop("T1", "w", &[], 2000).unwrap();
    assert!(store.complete(&claimed.queue_key));
    let before = store.data.clone();
    assert!(!store.complete(&claimed.queue_key));
    assert_eq!(store.data, before);
}

#[test]
fn complete_refuses_a_handle_that_is_not_base64() {
    match FdbQueue::complete_job("not base64!") {
        Err(FdbError::Other(reason)) => assert_eq!(reason, "Invalid queue key"),
        _ => panic!("accepted"),
    }
}

#[test]
fn complete_fails_on_a_record_that_is_no_job() {
    let mut store = MemStore::new();
    let key = build_queue_key("T1", 1, 1000, "j");
    store.data.insert(key.clone(), b"{\"id\": 7}".to_vec());
    use_handle_of(&mut store, &key);
}

fn use_handle_of(store: &mut MemStore, key: &[u8]) {
    let handle = fdb_queue::handle::key_handle(key).unwrap();
    match store.run(FdbQueue::complete_job(&handle).unwrap()) {
        Err(FdbError::Serialization(_)) => {}
        _ => panic!("no serialization error"),
    }
}

#[test]
fn handle_is_the_queue_key_in_base64() {
    let mut store = MemStore::new();
    store.push("T1", "j", 7, None, None, 1000);
    let claimed = store.pop("T1", "w", &[], 2000).unwrap();
    let key = base64::engine::general_purpose::STANDARD.decode(&claimed.queue_key).unwrap();
    assert_eq!(key, build_queue_key("T1", 7, 1000, "j"));
    assert_eq!(claimed.job.team_id, "T1");
    assert_eq!(claimed.job.created_at, 1000);
    assert_eq!(claimed.job.data, serde_json::Value::from("payload"));
}

#[test]
fn release_clears_claims_and_leaves_the_queue() {
    let mut store = MemStore::new();
    store.push("T1", "j", 1, None, None, 1000);
    store.push("T1", "other", 2, None, None, 1000);
    assert_eq!(store.pop("T1", "w1", &[], 2000).unwrap().job.id, "j");
    assert_eq!(store.pop("T1", "w1", &[], 2000).unwrap().job.id, "other");
    let queue_before: Vec<(Vec<u8>, Vec<u8>)> = store
        .data
        .iter()
        .filter(|(k, _)| k[0] != 0x07)
        .map(|(k, v)| (k.clone(), v.clone()))
        .collect();
    assert!(matches!(store.run(FdbQueue::release_job("j")), Ok(Outcome::Unit)));
    let queue_after: Vec<(Vec<u8>, Vec<u8>)> = store
        .data
        .iter()
        .filter(|(k, _)| k[0] != 0x07)
        .map(|(k, v)| (k.clone(), v.clone()))
        .collect();
    assert_eq!(queue_before, queue_after);
    assert!(store.claims_of("j", 10).is_empty());
    assert_eq!(store.keys_with_tag(0x07), 1);
    assert_eq!(store.count(FdbQueue::get_team_queue_count("T1")), 2);
    assert_eq!(store.pop("T1", "w2", &[], 2000).unwrap().job.id, "j");
}

#[test]
fn active_jobs_are_tracked_until_they_expire() {
    let mut store = MemStore::new();
    assert!(matches!(
        store.run(FdbQueue::push_active_job_at("T1", "a", 100, 1000).unwrap()),
        Ok(Outcome::Unit)
    ));
    assert!(matches!(
        store.run(FdbQueue::push_active_job_at("T1", "b", 500, 1000).unwrap()),
        Ok(Outcome::Unit)
    ));
    assert_eq!(store.count(FdbQueue::get_active_job_count("T1")), 2);
    assert_eq!(store.ids(FdbQueue::get_active_jobs_at("T1", 1050)), vec!["a", "b"]);
    assert_eq!(store.ids(FdbQueue::get_active_jobs_at("T1", 1100)), vec!["b"]);
    assert_eq!(store.count(FdbQueue::reconcile_team_active_counter_at("T1", 1100)), -1);
    assert_eq!(store.count(FdbQueue::get_active_job_count("T1")), 1);
    assert!(matches!(store.run(FdbQueue::remove_active_job("T1", "b")), Ok(Outcome::Unit)));
    assert!(matches!(store.run(FdbQueue::remove_active_job("T1", "b")), Ok(Outcome::Unit)));
    assert_eq!(store.count(FdbQueue::get_active_job_count("T1")), 0);
    assert!(matches!(store.run(FdbQueue::remove_active_job("T1", "a")), Ok(Outcome::Unit)));
    assert_eq!(store.count(FdbQueue::get_active_job_count("T1")), 0);
    assert_eq!(
        decode_i64_le(&store.data[&build_counter_key(CounterKind::TeamActive, "T1")]),
        -1
    );
}

#[test]
fn expired_active_entries_of_teams_and_crawls_are_swept() {
    let mut store = MemStore::new();
    store.run(FdbQueue::push_active_job_at("T1", "a", 100, 1000).unwrap()).unwrap();
    store.run(FdbQueue::push_active_job_at("T1", "b", 900, 1000).unwrap()).unwrap();
    store.run(FdbQueue::push_crawl_active_job_at("C1", "a", 100, 1000).unwrap()).unwrap();
    store.run(FdbQueue::push_crawl_active_job_at("C1", "c", 100, 1000).unwrap()).unwrap();
    assert_eq!(store.ids(FdbQueue::get_crawl_active_jobs_at("C1", 1000)), vec!["a", "c"]);
    assert_eq!(store.count(FdbQueue::clean_expired_active_jobs_at(1100)), 0);
    assert_eq!(store.count(FdbQueue::clean_expired_active_jobs_at(1101)), 3);
    assert_eq!(store.count(FdbQueue::get_active_job_count("T1")), 1);
    assert_eq!(store.keys_with_tag(0x04), 1);
    assert_eq!(store.keys_with_tag(0x05), 0);
    assert_eq!(store.count(FdbQueue::reconcile_crawl_active_counter_at("C1", 1101)), 0);
    assert!(matches!(store.run(FdbQueue::remove_crawl_active_job("C1", "a")), Ok(Outcome::Unit)));
}

#[test]
fn stale_counters_are_left_alone() {
    assert!(matches!(FdbQueue::clean_stale_counters(), Step::Done(Outcome::Count(0))));
}

#[test]
fn health_check_reads_one_key() {
    let mut store = MemStore::new();
    assert!(matches!(store.run(FdbQueue::health_check()), Ok(Outcome::Flag(true))));
    assert_eq!(store.requests, vec!["get"]);
    assert!(store.data.is_empty());
}

#[test]
fn answer_of_the_wrong_kind_is_refused() {
    match FdbQueue::release_job("j") {
        Step::Ask(_, pending) => match pending.resume(Response::Value(None)) {
            Err(FdbError::Other(_)) => {}
            _ => panic!("accepted"),
        },
        Step::Done(_) => panic!("done"),
    }
    match FdbQueue::get_team_queue_count("T1") {
        Step::Ask(_, Pending::Counter { floor: false }) => {}
        _ => panic!("not a counter lookup"),
    }
}

#[test]
fn record_that_is_no_job_is_passed_over_by_pop() {
    let mut store = MemStore::new();
    store.data.insert(build_queue_key("T1", 0, 1, "broken"), b"{}".to_vec());
    store.push("T1", "good", 1, None, None, 1000);
    assert_eq!(store.pop("T1", "w", &[], 2000).unwrap().job.id, "good");
    assert_eq!(store.ids(FdbQueue::get_team_queued_job_ids("T1", 10)), vec!["good"]);
}

#[test]
fn clock_reading_operations_begin_like_the_timed_ones() {
    let blocked: Vec<String> = Vec::new();
    match FdbQueue::pop_next_job("T1", "w", &blocked).unwrap() {
        Step::Ask(Request::GetRange { limit: 100, snapshot: true, .. }, Pending::PopScan { now, .. }) => {
            assert!(now > 1_600_000_000_000)
        }
        _ => panic!("not a pop scan"),
    }
    let mut store = MemStore::new();
    let step = FdbQueue::push_job("T1", "j", serde_json::Value::Null, 1, true, Some("ch"), Some(60_000), None)
        .unwrap();
    store.run(step).unwrap();
    let claimed = store.pop("T1", "w", &[], 0).unwrap();
    assert_eq!(claimed.job.times_out_at, Some(claimed.job.created_at + 60_000));
    assert_eq!(claimed.job.listen_channel_id.as_deref(), Some("ch"));
    assert!(claimed.job.listenable);
}

/// Carries an operation up to the commit of its first claim, and returns what waits for the
/// answer to that commit.
fn until_claim(store: &mut MemStore, first: Step) -> (Request, Pending) {
    let mut step = first;
    loop {
        match step {
            Step::Ask(request, pending) => {
                if let Request::Commit { mutations, .. } = &request {
                    if matches!(mutations.first(), Some(Mutation::SetVersionstampedKey { .. })) {
                        return (request, pending);
                    }
                }
                let response = store.answer(&request);
                step = pending.resume(response).unwrap();
            }
            Step::Done(_) => panic!("no claim"),
        }
    }
}

fn earlier_claim(job: &str, worker: &str, value: &[u8]) -> (Vec<u8>, Vec<u8>) {
    let mut key = build_claims_prefix(job);
    key.extend_from_slice(&[0u8; 10]);
    key.extend_from_slice(&(worker.len() as u32).to_be_bytes());
    key.extend_from_slice(worker.as_bytes());
    (key, value.to_vec())
}

#[test]
fn worker_that_loses_a_job_turns_to_the_next() {
    let mut store = MemStore::new();
    store.push("T1", "first", 1, None, None, 1000);
    store.push("T1", "second", 2, None, None, 1000);
    let blocked: Vec<String> = Vec::new();
    let (request, pending) =
        until_claim(&mut store, FdbQueue::pop_next_job_at("T1", "slow", &blocked, 2000));
    let (key, value) = earlier_claim("first", "fast", b"{\"workerId\":\"fast\"}");
    store.data.insert(key, value);
    let response = store.answer(&request);
    let claimed = match store.run(pending.resume(response).unwrap()) {
        Ok(Outcome::Job(Some(claimed))) => claimed,
        _ => panic!("nothing claimed"),
    };
    assert_eq!(claimed.job.id, "second");
    assert_eq!(store.claims_of("first", 10).len(), 2);
    assert_eq!(store.claims_of("second", 10).len(), 1);
}

#[test]
fn first_claim_that_is_not_json_fails_the_pop() {
    let mut store = MemStore::new();
    store.push("T1", "first", 1, None, None, 1000);
    let blocked: Vec<String> = Vec::new();
    let (request, pending) =
        until_claim(&mut store, FdbQueue::pop_next_job_at("T1", "w", &blocked, 2000));
    let (key, value) = earlier_claim("first", "x", b"garbage");
    store.data.insert(key, value);
    let response = store.answer(&request);
    match store.run(pending.resume(response).unwrap()) {
        Err(FdbError::Serialization(_)) => {}
        _ => panic!("no serialization error"),
    }
}

#[test]
fn claim_is_written_under_the_versionstamp_of_its_commit() {
    let mut store = MemStore::new();
    store.push("T1", "j", 1, None, None, 1000);
    let claimed = store.pop("T1", "w9", &[], 2000).unwrap();
    let claims = store.claims_of("j", 10);
    assert_eq!(claims.len(), 1);
    let mut expected = build_claims_prefix("j");
    expected.extend_from_slice(&store.stamp());
    expected.extend_from_slice(&[0, 0, 0, 2, b'w', b'9']);
    assert_eq!(claims[0].key, expected);
    let value: serde_json::Value = serde_json::from_slice(&claims[0].value).unwrap();
    assert_eq!(value["workerId"], "w9");
    assert_eq!(value["queueKey"], claimed.queue_key.as_str());
    assert_eq!(value["claimedAt"], 2000);
}

#[test]
fn sweeps_stop_after_ten_full_batches() {
    let mut store = MemStore::new();
    for i in 0..1050 {
        store.data.insert(
            build_ttl_index_key(i, "T1", &format!("job-{}", i)),
            b"{\"priority\":1,\"createdAt\":5,\"crawlId\":null}".to_vec(),
        );
    }
    assert_eq!(store.count(FdbQueue::clean_expired_jobs_at(5000)), 1000);
    assert_eq!(store.keys_with_tag(0x06), 50);
    assert_eq!(store.count(FdbQueue::clean_expired_jobs_at(5000)), 50);
    assert_eq!(
        decode_i64_le(&store.data[&build_counter_key(CounterKind::TeamQueued, "T1")]),
        -1050
    );
}

#[test]
fn range_longer_than_its_limit_is_refused() {
    let blocked: Vec<String> = Vec::new();
    match FdbQueue::pop_next_job_at("T1", "w", &blocked, 0) {
        Step::Ask(_, pending) => {
            let too_many: Vec<KeyValue> =
                (0..101u8).map(|i| KeyValue { key: vec![1, i], value: vec![] }).collect();
            assert!(matches!(pending.resume(Response::Range(too_many)), Err(FdbError::Other(_))));
        }
        Step::Done(_) => panic!("done"),
    }
}

#[test]
fn orphan_behind_a_full_batch_of_live_claims_is_reaped() {
    let mut store = MemStore::new();
    for i in 0..150 {
        let team = if i < 75 { "T1" } else { "T2" };
        store.push(team, &format!("job-{:03}", i), 1, None, None, 1000 + i);
        assert!(store.pop(team, "w", &[], 5000).is_some());
    }
    assert_eq!(store.keys_with_tag(0x07), 150);
    let (key, value) = earlier_claim("zz-ghost", "w", b"{\"queueKey\":\"AQAAAAJUMQ==\"}");
    store.data.insert(key.clone(), value);
    assert_eq!(store.count(FdbQueue::clean_orphaned_claims()), 1);
    assert!(!store.data.contains_key(&key));
    assert_eq!(store.keys_with_tag(0x07), 150);
}

#[test]
fn orphan_sweep_asks_for_the_batch_after_the_last_key() {
    let mut store = MemStore::new();
    for i in 0..100 {
        store.push("T1", &format!("job-{:03}", i), 1, None, None, 1000 + i);
        assert!(store.pop("T1", "w", &[], 5000).is_some());
    }
    let last = store.data.keys().filter(|k| k[0] == 0x07).last().unwrap().clone();
    let mut step = FdbQueue::clean_orphaned_claims();
    let mut scans: Vec<Vec<u8>> = Vec::new();
    loop {
        match step {
            Step::Done(Outcome::Count(n)) => {
                assert_eq!(n, 0);
                break;
            }
            Step::Done(_) => panic!("no count"),
            Step::Ask(request, pending) => {
                if let Request::GetRange { begin, end, limit, .. } = &request {
                    assert_eq!(end, &vec![0x07u8, 0xff]);
                    assert_eq!(*limit, 100);
                    scans.push(begin.clone());
                }
                let response = store.answer(&request);
                step = pending.resume(response).unwrap();
            }
        }
    }
    let mut after_last = last.clone();
    after_last.push(0);
    assert_eq!(scans, vec![vec![0x07u8], after_last]);
}

#[test]
fn expired_active_entry_behind_a_full_batch_of_live_ones_is_swept() {
    let mut store = MemStore::new();
    for i in 0..120 {
        store.run(FdbQueue::push_active_job_at("A", &format!("job-{:03}", i), 10_000, 1000).unwrap())
            .unwrap();
    }
    store.run(FdbQueue::push_active_job_at("B", "late", 10, 1000).unwrap()).unwrap();
    for i in 0..120 {
        store
            .run(FdbQueue::push_crawl_active_job_at("C", &format!("job-{:03}", i), 10_000, 1000).unwrap())
            .unwrap();
    }
    store.run(FdbQueue::push_crawl_active_job_at("D", "late", 10, 1000).unwrap()).unwrap();
    assert_eq!(store.count(FdbQueue::clean_expired_active_jobs_at(2000)), 2);
    assert_eq!(store.count(FdbQueue::get_active_job_count("B")), 0);
    assert_eq!(store.count(FdbQueue::get_active_job_count("A")), 120);
    assert_eq!(store.keys_with_tag(0x04), 120);
    assert_eq!(store.keys_with_tag(0x05), 120);
}

#[test]
fn expiry_sweep_goes_on_behind_entries_that_it_cannot_read() {
    let mut store = MemStore::new();
    for i in 0..100 {
        store.data.insert(build_ttl_index_key(i, "T1", &format!("bad-{}", i)), b"junk".to_vec());
    }
    store.push("T1", "good", 1, Some(100), None, 1000);
    assert_eq!(store.count(FdbQueue::clean_expired_jobs_at(5000)), 1);
    assert_eq!(store.count(FdbQueue::get_team_queue_count("T1")), 0);
    assert_eq!(store.keys_with_tag(0x01), 0);
    assert_eq!(store.keys_with_tag(0x06), 100);
}

#[test]
fn completion_clears_in_the_transaction_that_read_the_record() {
    let mut store = MemStore::new();
    store.push("T1", "j", 1, None, None, 1000);
    let claimed = store.pop("T1", "w", &[], 2000).unwrap();
    let (lookup, pending) = match FdbQueue::complete_job(&claimed.queue_key).unwrap() {
        Step::Ask(request, pending) => (request, pending),
        Step::Done(_) => panic!("done"),
    };
    assert!(matches!(
        &lookup,
        Request::Get { snapshot: false, txn: fdb_queue::Txn::Fresh, key } if key == &build_queue_key("T1", 1, 1000, "j")
    ));
    let answer = store.answer(&lookup);
    match pending.resume(answer).unwrap() {
        Step::Ask(Request::Commit { best_effort: false, txn: fdb_queue::Txn::Current, mutations }, _) => {
            assert_eq!(mutations.len(), 3)
        }
        _ => panic!("no commit in the transaction of the lookup"),
    }
}

#[test]
fn second_completion_of_a_job_is_false_and_changes_nothing() {
    let mut store = MemStore::new();
    store.push("T1", "j", 1, None, Some("C"), 1000);
    store.push("T1", "k", 1, None, Some("C"), 1001);
    let claimed = store.pop("T1", "w", &[], 2000).unwrap();
    assert!(store.complete(&claimed.queue_key));
    let before = store.data.clone();
    assert!(!store.complete(&claimed.queue_key));
    assert_eq!(store.data, before);
    assert_eq!(store.count(FdbQueue::get_team_queue_count("T1")), 1);
    assert_eq!(store.count(FdbQueue::get_crawl_queue_count("C")), 1);
}

#[test]
fn pushes_beyond_the_end_of_time_are_refused() {
    let data = serde_json::Value::Null;
    match FdbQueue::push_job_at("T", "j", data.clone(), 1, false, None, Some(10), None, i64::MAX - 9) {
        Err(FdbError::Other(reason)) => assert_eq!(reason, "the time-out does not fit in 64 bits"),
        _ => panic!("accepted"),
    }
    assert!(FdbQueue::push_job_at("T", "j", data.clone(), 1, false, None, Some(10), None, i64::MAX - 10).is_ok());
    assert!(FdbQueue::push_job_at("T", "j", data.clone(), 1, false, None, Some(10), Some("c"), i64::MAX).is_ok());
    assert!(FdbQueue::push_job_at("T", "j", data, 1, false, None, Some(i64::MAX), None, i64::MAX).is_ok());
    match FdbQueue::push_active_job_at("T", "j", 1, i64::MAX) {
        Err(FdbError::Other(reason)) => assert_eq!(reason, "the expiry time does not fit in 64 bits"),
        _ => panic!("accepted"),
    }
    match FdbQueue::push_crawl_active_job_at("C", "j", -1, i64::MIN) {
        Err(FdbError::Other(reason)) => assert_eq!(reason, "the expiry time does not fit in 64 bits"),
        _ => panic!("accepted"),
    }
    assert!(FdbQueue::push_active_job_at("T", "j", -1, i64::MAX).is_ok());
}
