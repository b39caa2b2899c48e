use fdb_queue::handle::{handle_key, key_handle};
use fdb_queue::janitor::{check_claim_key, parse_ttl_key, read_claims};
use fdb_queue::job::{decode_job, encode_job, job_document, job_from_document};
use fdb_queue::pop::{
    claim_document, is_blocked_crawl, partition, plan_expired_cleanup, read_claimant,
    read_claimed_queue_key,
};
use fdb_queue::scan::{
    count_live, read_active_ids, read_counter, read_counter_ids, read_leading_id,
    read_queued_ids, read_trailing_id,
};
use fdb_queue::text::{same_text, utf8_text_or_empty};
use fdb_queue::{FdbError, FdbQueueJob, KeyValue, Mutation};

fn job() -> FdbQueueJob {
    let mut data = serde_json::Value::Null;
    data["url"] = serde_json::Value::from("https://example.com");
    FdbQueueJob {
        id: "job-1".to_string(),
        data,
        priority: 5,
        listenable: true,
        created_at: 1000,
        times_out_at: Some(1500),
        listen_channel_id: None,
        crawl_id: Some("crawl-1".to_string()),
        team_id: "team-1".to_string(),
    }
}

#[test]
fn job_record_has_the_nine_members() {
    let bytes = encode_job(&job()).unwrap();
    let doc: serde_json::Value = serde_json::from_slice(&bytes).unwrap();
    assert_eq!(doc.as_object().unwrap().len(), 9);
    assert_eq!(doc["id"], "job-1");
    assert_eq!(doc["teamId"], "team-1");
    assert_eq!(doc["data"]["url"], "https://example.com");
    assert_eq!(doc["priority"], 5);
    assert_eq!(doc["listenable"], true);
    assert_eq!(doc["createdAt"], 1000);
    assert_eq!(doc["timesOutAt"], 1500);
    assert!(doc["listenChannelId"].is_null());
    assert_eq!(doc["crawlId"], "crawl-1");
    assert_eq!(job_document(&job()), doc);
}

#[test]
fn job_record_reads_back() {
    let bytes = encode_job(&job()).unwrap();
    let read = decode_job(&bytes).unwrap();
    assert_eq!(read.id, "job-1");
    assert_eq!(read.team_id, "team-1");
    assert_eq!(read.data, job().data);
    assert_eq!(read.priority, 5);
    assert!(read.listenable);
    assert_eq!(read.created_at, 1000);
    assert_eq!(read.times_out_at, Some(1500));
    assert_eq!(read.listen_channel_id, None);
    assert_eq!(read.crawl_id.as_deref(), Some("crawl-1"));
}

#[test]
fn job_record_may_leave_optional_members_out() {
    let text = b"{\"id\":\"a\",\"teamId\":\"t\",\"data\":[1],\"priority\":-3,\"listenable\":false,\"createdAt\":7}";
    let read = decode_job(text).unwrap();
    assert_eq!(read.priority, -3);
    assert_eq!(read.times_out_at, None);
    assert_eq!(read.crawl_id, None);
    assert_eq!(read.listen_channel_id, None);
    assert!(read.data.is_array());
}

#[test]
fn malformed_job_records_are_refused() {
    assert!(decode_job(b"not json").is_err());
    assert!(decode_job(b"[]").is_err());
    assert!(decode_job(b"{\"teamId\":\"t\",\"priority\":1,\"listenable\":false,\"createdAt\":7}").is_err());
    assert!(decode_job(b"{\"id\":\"a\",\"teamId\":\"t\",\"priority\":4294967296,\"listenable\":false,\"createdAt\":7}").is_err());
    assert!(decode_job(b"{\"id\":\"a\",\"teamId\":\"t\",\"priority\":1,\"listenable\":\"no\",\"createdAt\":7}").is_err());
    assert!(decode_job(b"{\"id\":\"a\",\"teamId\":\"t\",\"priority\":1,\"listenable\":false,\"createdAt\":7,\"crawlId\":5}").is_err());
    assert!(decode_job(b"{\"id\":\"a\",\"teamId\":\"t\",\"priority\":1,\"listenable\":false,\"createdAt\":7,\"timesOutAt\":\"x\"}").is_err());
    assert!(decode_job(b"{\"id\":\"a\",\"teamId\":\"t\",\"priority\":1,\"listenable\":false,\"createdAt\":7}").is_err());
    assert!(decode_job(b"{\"id\":\"a\",\"teamId\":\"t\",\"data\":null,\"priority\":1,\"listenable\":false,\"createdAt\":7}").is_ok());
    let doc: serde_json::Value = serde_json::from_slice(b"{\"id\": 1}").unwrap();
    assert!(job_from_document(&doc).is_none());
}

#[test]
fn handle_is_standard_base64_with_padding() {
    assert_eq!(key_handle(&[0x01, 0, 0, 0, 2, b'T', b'1']).unwrap(), "AQAAAAJUMQ==");
    assert_eq!(key_handle(&[]).unwrap(), "");
    assert_eq!(handle_key("AQAAAAJUMQ==").unwrap(), vec![0x01, 0, 0, 0, 2, b'T', b'1']);
    assert!(handle_key("AQAAAAJUMQ").is_none());
    assert!(handle_key("***").is_none());
}

#[test]
fn claim_value_names_worker_handle_and_time() {
    let doc = claim_document("w1", "AQAAAAJUMQ==", 77);
    assert_eq!(doc["workerId"], "w1");
    assert_eq!(doc["queueKey"], "AQAAAAJUMQ==");
    assert_eq!(doc["claimedAt"], 77);
    let bytes = serde_json::to_vec(&doc).unwrap();
    assert_eq!(read_claimant(&bytes).unwrap().as_deref(), Some("w1"));
    assert_eq!(read_claimed_queue_key(&bytes).unwrap(), vec![0x01, 0, 0, 0, 2, b'T', b'1']);
}

#[test]
fn claim_values_that_say_less() {
    assert!(read_claimant(b"oops").is_err());
    assert_eq!(read_claimant(b"{}").unwrap(), None);
    assert_eq!(read_claimant(b"{\"workerId\": 3}").unwrap(), None);
    assert!(read_claimed_queue_key(b"oops").is_none());
    assert!(read_claimed_queue_key(b"{\"queueKey\": \"%%\"}").is_none());
    assert!(read_claimed_queue_key(b"{\"workerId\": \"w\"}").is_none());
}

#[test]
fn partition_sorts_fresh_expired_blocked_and_broken() {
    let record = |id: &str, times_out_at: Option<i64>, crawl: Option<&str>| {
        let mut j = job();
        j.id = id.to_string();
        j.times_out_at = times_out_at;
        j.crawl_id = crawl.map(String::from);
        encode_job(&j).unwrap()
    };
    let entries = vec![
        KeyValue { key: vec![1], value: record("fresh", Some(2000), None) },
        KeyValue { key: vec![2], value: record("late", Some(999), Some("blocked")) },
        KeyValue { key: vec![3], value: b"junk".to_vec() },
        KeyValue { key: vec![4], value: record("blocked", None, Some("blocked")) },
        KeyValue { key: vec![5], value: record("edge", Some(1000), Some("free")) },
    ];
    let blocked = vec!["other".to_string(), "blocked".to_string()];
    let (candidates, expired) = partition(&entries, &blocked, 1000);
    let ids: Vec<&str> = candidates.iter().map(|c| c.job.id.as_str()).collect();
    assert_eq!(ids, vec!["fresh", "edge"]);
    assert_eq!(candidates[1].queue_key, vec![5]);
    assert_eq!(expired.len(), 1);
    assert_eq!(expired[0].job.id, "late");
    assert_eq!(expired[0].queue_key, vec![2]);
    let plan = plan_expired_cleanup("team-9", &expired);
    assert_eq!(plan.len(), 5);
    assert!(matches!(&plan[0], Mutation::Clear { key } if key == &vec![2u8]));
    assert!(matches!(&plan[1], Mutation::Add { key, operand }
        if key == &fdb_queue::keys::build_counter_key(fdb_queue::keys::CounterKind::TeamQueued, "team-9")
            && operand == &vec![0xffu8; 8]));
    assert!(matches!(&plan[2], Mutation::Clear { key }
        if key == &fdb_queue::keys::build_ttl_index_key(999, "team-9", "late")));
    assert!(matches!(&plan[3], Mutation::Clear { key }
        if key == &fdb_queue::keys::build_crawl_index_key("blocked", "late")));
    assert!(matches!(&plan[4], Mutation::Add { key, .. }
        if key == &fdb_queue::keys::build_counter_key(fdb_queue::keys::CounterKind::CrawlQueued, "blocked")));
}

#[test]
fn blocked_crawls_are_found_by_their_text() {
    let blocked = vec!["a".to_string(), "bc".to_string()];
    assert!(is_blocked_crawl(&Some("bc".to_string()), &blocked));
    assert!(!is_blocked_crawl(&Some("b".to_string()), &blocked));
    assert!(!is_blocked_crawl(&None, &blocked));
    assert!(!is_blocked_crawl(&Some("a".to_string()), &Vec::new()));
}

#[test]
fn text_helpers() {
    assert!(same_text("abc", "abc"));
    assert!(!same_text("abc", "abd"));
    assert!(!same_text("abc", "ab"));
    assert!(same_text("", ""));
    assert_eq!(utf8_text_or_empty(b"ok"), "ok");
    assert_eq!(utf8_text_or_empty(&[0xff, 0xfe]), "");
    assert_eq!(utf8_text_or_empty(&[0xc3, 0xa9]), "é");
}

#[test]
fn expiry_keys_are_parsed() {
    let key = fdb_queue::keys::build_ttl_index_key(5, "team", "job");
    assert_eq!(parse_ttl_key(&key), Some(("team", "job")));
    let no_job = fdb_queue::keys::build_ttl_index_key(5, "team", "");
    assert_eq!(parse_ttl_key(&no_job), None);
    assert_eq!(parse_ttl_key(&key[..13]), None);
    let mut broken = key.clone();
    broken[13] = 0xff;
    assert_eq!(parse_ttl_key(&broken), Some(("", "job")));
    let mut long = key.clone();
    long[9] = 0xff;
    assert_eq!(parse_ttl_key(&long), None);
}

#[test]
fn ids_are_read_from_keys() {
    let active = fdb_queue::keys::build_active_key("team", "job");
    assert_eq!(read_leading_id(&active, 1), Some("team"));
    assert_eq!(read_trailing_id(&active, 9).as_deref(), Some("job"));
    assert_eq!(read_trailing_id(&active, 12), None);
    assert_eq!(read_trailing_id(&[1, 2], 5), None);
    assert_eq!(read_leading_id(&[4, 0, 0, 0, 9, b'x'], 1), None);
    assert_eq!(read_leading_id(&[4, 0, 0, 0, 1, 0xff], 1), None);
    assert_eq!(read_leading_id(&[4, 0, 0, 0], 1), None);
    assert_eq!(read_leading_id(&[4, 0, 0, 0, 0, b'x'], 1), Some(""));
}

#[test]
fn scans_are_read() {
    let at = |n: i64| n.to_be_bytes().to_vec();
    let entries = vec![
        KeyValue { key: fdb_queue::keys::build_active_key("t", "a"), value: at(10) },
        KeyValue { key: fdb_queue::keys::build_active_key("t", "b"), value: at(20) },
        KeyValue { key: fdb_queue::keys::build_active_key("t", "c"), value: vec![1, 2] },
        KeyValue { key: fdb_queue::keys::build_active_key("t", "d"), value: at(21) },
    ];
    assert_eq!(count_live(&entries, 19), 2);
    assert_eq!(count_live(&entries, 20), 1);
    assert_eq!(count_live(&entries, -1), 4);
    let prefix = fdb_queue::keys::build_active_prefix("t").len();
    assert_eq!(read_active_ids(&entries, prefix, 10), vec!["b", "d"]);
    assert!(read_queued_ids(&entries).is_empty());
    assert_eq!(read_counter(&None), 0);
    assert_eq!(read_counter(&Some(vec![1, 2, 3])), 0);
    assert_eq!(read_counter(&Some((-4i64).to_le_bytes().to_vec())), -4);
    let counters = vec![
        KeyValue {
            key: fdb_queue::keys::build_counter_key(fdb_queue::keys::CounterKind::TeamQueued, "x"),
            value: vec![],
        },
        KeyValue { key: vec![3, 1, 0, 0, 0, 7, b'y'], value: vec![] },
        KeyValue { key: vec![3, 1], value: vec![] },
    ];
    assert_eq!(read_counter_ids(&counters), vec!["x"]);
}

#[test]
fn claim_keys_are_recognised_by_their_length() {
    let stored: Vec<u8> = {
        let mut k = fdb_queue::keys::build_claims_prefix("j");
        k.extend_from_slice(&[0; 10]);
        k.extend_from_slice(&[0, 0, 0, 1, b'w']);
        k
    };
    assert!(check_claim_key(&stored));
    assert!(!check_claim_key(&stored[..15]));
    assert!(!check_claim_key(&[7, 0, 0, 0, 200, 1, 2, 3, 4, 5, 6, 7, 8, 9, 10, 11, 12]));
    let claims = read_claims(&[
        KeyValue { key: stored.clone(), value: b"{\"queueKey\":\"AQ==\"}".to_vec() },
        KeyValue { key: vec![7, 1], value: vec![] },
        KeyValue { key: stored.clone(), value: b"{}".to_vec() },
    ].to_vec());
    assert_eq!(claims.len(), 2);
    assert_eq!(claims[0].queue_key, Some(vec![1]));
    assert_eq!(claims[1].queue_key, None);
    assert_eq!(claims[1].claim_key, stored);
}

#[test]
fn errors_say_what_they_are() {
    assert_eq!(FdbError::Other("Invalid queue key".to_string()).message(), "Other error: Invalid queue key");
    let e = decode_job(b"{").unwrap_err();
    let line = FdbError::Serialization(e).message();
    assert!(line.starts_with("Serialization error: "));
    assert!(line.len() > "Serialization error: ".len());
}

#[test]
fn other_error_carries_its_reason() {
    match FdbError::other("no such thing") {
        FdbError::Other(reason) => assert_eq!(reason, "no such thing"),
        _ => panic!("not the other kind"),
    }
}
