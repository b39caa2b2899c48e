//! Job records: what the queue stores for a job, and how it reads as JSON.

use crate::json::{
    json_as_bool, json_as_i64, json_as_str, json_encoded, json_error, json_flag, json_from_bool,
    json_from_i64, json_from_slice, json_from_str, json_has, json_has_member, json_index, json_int,
    json_is_null, json_is_object, json_member, json_null, json_null_check, json_parsed, json_set,
    json_text, json_to_vec,
};
use vstd::prelude::*;

verus! {

/// A queued job. It is written once, when the job is pushed, and never changed.
#[derive(Clone, Debug)]
pub struct FdbQueueJob {
    pub id: String,
    pub data: serde_json::Value,
    pub priority: i32,
    pub listenable: bool,
    pub created_at: i64,
    pub times_out_at: Option<i64>,
    pub listen_channel_id: Option<String>,
    pub crawl_id: Option<String>,
    pub team_id: String,
}

/// A job as the contracts speak of it.
pub struct JobView {
    pub id: Seq<char>,
    pub data: serde_json::Value,
    pub priority: i32,
    pub listenable: bool,
    pub created_at: i64,
    pub times_out_at: Option<i64>,
    pub listen_channel_id: Option<Seq<char>>,
    pub crawl_id: Option<Seq<char>>,
    pub team_id: Seq<char>,
}

impl DeepView for FdbQueueJob {
    type V = JobView;

    open spec fn deep_view(&self) -> JobView {
        JobView {
            id: self.id@,
            data: self.data,
            priority: self.priority,
            listenable: self.listenable,
            created_at: self.created_at,
            times_out_at: self.times_out_at,
            listen_channel_id: self.listen_channel_id.deep_view(),
            crawl_id: self.crawl_id.deep_view(),
            team_id: self.team_id@,
        }
    }
}

/// A job that a worker has won, with the handle by which the worker completes it.
#[derive(Clone, Debug)]
pub struct ClaimedJob {
    pub job: FdbQueueJob,
    /// The job's queue key in base64.
    pub queue_key: String,
}

/// A claimed job as the contracts speak of it.
pub struct ClaimedJobView {
    pub job: JobView,
    pub queue_key: Seq<char>,
}

impl DeepView for ClaimedJob {
    type V = ClaimedJobView;

    open spec fn deep_view(&self) -> ClaimedJobView {
        ClaimedJobView { job: self.job.deep_view(), queue_key: self.queue_key@ }
    }
}

/// How an optional number reads: `null`, or a missing member, is no number; anything that
/// is neither `null` nor a number is malformed.
pub open spec fn optional_int(member: serde_json::Value) -> Option<Option<i64>> {
    if json_is_null(member) {
        Some(None)
    } else if json_int(member).is_some() {
        Some(json_int(member))
    } else {
        None
    }
}

/// How an optional text reads: `null`, or a missing member, is no text; anything that is
/// neither `null` nor a string is malformed.
pub open spec fn optional_text(member: serde_json::Value) -> Option<Option<Seq<char>>> {
    if json_is_null(member) {
        Some(None)
    } else if json_text(member).is_some() {
        Some(json_text(member))
    } else {
        None
    }
}

/// The job that a JSON document stands for, if it stands for one: `data` must be there,
/// `id`, `teamId`, `priority`, `listenable` and `createdAt` must be there with their types,
/// the priority within 32 bits, and `timesOutAt`, `listenChannelId` and `crawlId` may be
/// missing or `null`.
pub open spec fn job_of_document(doc: serde_json::Value) -> Option<JobView> {
    let id = json_text(json_member(doc, "id"@));
    let team_id = json_text(json_member(doc, "teamId"@));
    let priority = json_int(json_member(doc, "priority"@));
    let listenable = json_flag(json_member(doc, "listenable"@));
    let created_at = json_int(json_member(doc, "createdAt"@));
    let times_out_at = optional_int(json_member(doc, "timesOutAt"@));
    let listen_channel_id = optional_text(json_member(doc, "listenChannelId"@));
    let crawl_id = optional_text(json_member(doc, "crawlId"@));
    if json_has_member(doc, "data"@) && id.is_some() && team_id.is_some() && priority.is_some()
        && i32::MIN <= priority.unwrap() <= i32::MAX && listenable.is_some()
        && created_at.is_some() && times_out_at.is_some() && listen_channel_id.is_some()
        && crawl_id.is_some() {
        Some(
            JobView {
                id: id.unwrap(),
                data: json_member(doc, "data"@),
                priority: priority.unwrap() as i32,
                listenable: listenable.unwrap(),
                created_at: created_at.unwrap(),
                times_out_at: times_out_at.unwrap(),
                listen_channel_id: listen_channel_id.unwrap(),
                crawl_id: crawl_id.unwrap(),
                team_id: team_id.unwrap(),
            },
        )
    } else {
        None
    }
}

/// The job that stored bytes stand for, if they are a JSON document of a job.
pub open spec fn decode_job_spec(bytes: Seq<u8>) -> Option<JobView> {
    match json_parsed(bytes) {
        Some(doc) => job_of_document(doc),
        None => None,
    }
}

/// Whether `doc` is the document of `job`: an object with the job's nine members, where a
/// member that the job lacks is `null`.
pub open spec fn is_job_document(doc: serde_json::Value, job: JobView) -> bool {
    &&& json_is_object(doc)
    &&& json_text(json_member(doc, "id"@)) == Some(job.id)
    &&& json_text(json_member(doc, "teamId"@)) == Some(job.team_id)
    &&& json_has_member(doc, "data"@)
    &&& json_member(doc, "data"@) == job.data
    &&& json_int(json_member(doc, "priority"@)) == Some(job.priority as i64)
    &&& json_flag(json_member(doc, "listenable"@)) == Some(job.listenable)
    &&& json_int(json_member(doc, "createdAt"@)) == Some(job.created_at)
    &&& is_optional_int(json_member(doc, "timesOutAt"@), job.times_out_at)
    &&& is_optional_text(json_member(doc, "listenChannelId"@), job.listen_channel_id)
    &&& is_optional_text(json_member(doc, "crawlId"@), job.crawl_id)
}

/// `member` holds the number, or is `null` where there is none.
pub open spec fn is_optional_int(member: serde_json::Value, n: Option<i64>) -> bool {
    match n {
        Some(n) => json_int(member) == Some(n),
        None => json_is_null(member),
    }
}

/// `member` holds the text, or is `null` where there is none.
pub open spec fn is_optional_text(member: serde_json::Value, text: Option<Seq<char>>) -> bool {
    match text {
        Some(s) => json_text(member) == Some(s),
        None => json_is_null(member),
    }
}

/// A number, or `null` where there is none.
pub fn json_optional_int(n: Option<i64>) -> (member: serde_json::Value)
    ensures
        is_optional_int(member, n),
{
    match n {
        Some(n) => json_from_i64(n),
        None => json_null(),
    }
}

/// A text, or `null` where there is none.
pub fn json_optional_text(text: Option<&str>) -> (member: serde_json::Value)
    ensures
        is_optional_text(
            member,
            match text {
                Some(s) => Some(s@),
                None => None,
            },
        ),
{
    match text {
        Some(s) => json_from_str(s),
        None => json_null(),
    }
}

/// An `Option<String>` as an optional `&str`.
pub fn as_deref(text: &Option<String>) -> (r: Option<&str>)
    ensures
        match r {
            Some(s) => text.deep_view() == Some(s@),
            None => text.is_none(),
        },
{
    match text {
        Some(s) => Some(s.as_str()),
        None => None,
    }
}

/// The names of the members of a job document are nine different names.
pub proof fn lemma_job_member_names()
    ensures
        "id"@ != "teamId"@,
        "id"@ != "data"@,
        "id"@ != "priority"@,
        "id"@ != "listenable"@,
        "id"@ != "createdAt"@,
        "id"@ != "timesOutAt"@,
        "id"@ != "listenChannelId"@,
        "id"@ != "crawlId"@,
        "teamId"@ != "data"@,
        "teamId"@ != "priority"@,
        "teamId"@ != "listenable"@,
        "teamId"@ != "createdAt"@,
        "teamId"@ != "timesOutAt"@,
        "teamId"@ != "listenChannelId"@,
        "teamId"@ != "crawlId"@,
        "data"@ != "priority"@,
        "data"@ != "listenable"@,
        "data"@ != "createdAt"@,
        "data"@ != "timesOutAt"@,
        "data"@ != "listenChannelId"@,
        "data"@ != "crawlId"@,
        "priority"@ != "listenable"@,
        "priority"@ != "createdAt"@,
        "priority"@ != "timesOutAt"@,
        "priority"@ != "listenChannelId"@,
        "priority"@ != "crawlId"@,
        "listenable"@ != "createdAt"@,
        "listenable"@ != "timesOutAt"@,
        "listenable"@ != "listenChannelId"@,
        "listenable"@ != "crawlId"@,
        "createdAt"@ != "timesOutAt"@,
        "createdAt"@ != "listenChannelId"@,
        "createdAt"@ != "crawlId"@,
        "timesOutAt"@ != "listenChannelId"@,
        "timesOutAt"@ != "crawlId"@,
        "listenChannelId"@ != "crawlId"@,
{
    reveal_strlit("id");
    reveal_strlit("teamId");
    reveal_strlit("data");
    reveal_strlit("priority");
    reveal_strlit("listenable");
    reveal_strlit("createdAt");
    reveal_strlit("timesOutAt");
    reveal_strlit("listenChannelId");
    reveal_strlit("crawlId");
    assert("id"@.len() == 2);
    assert("teamId"@.len() == 6);
    assert("data"@.len() == 4);
    assert("priority"@.len() == 8);
    assert("listenable"@.len() == 10);
    assert("createdAt"@.len() == 9);
    assert("timesOutAt"@.len() == 10);
    assert("listenChannelId"@.len() == 15);
    assert("crawlId"@.len() == 7);
    assert("listenable"@[0] != "timesOutAt"@[0]);
}

/// The JSON document of a job.
pub fn job_document(job: &FdbQueueJob) -> (doc: serde_json::Value)
    ensures
        is_job_document(doc, job.deep_view()),
{
    proof {
        lemma_job_member_names();
    }
    let mut doc = json_null();
    json_set(&mut doc, "id", json_from_str(job.id.as_str()));
    json_set(&mut doc, "teamId", json_from_str(job.team_id.as_str()));
    json_set(&mut doc, "data", job.data.clone());
    json_set(&mut doc, "priority", json_from_i64(job.priority as i64));
    json_set(&mut doc, "listenable", json_from_bool(job.listenable));
    json_set(&mut doc, "createdAt", json_from_i64(job.created_at));
    json_set(&mut doc, "timesOutAt", json_optional_int(job.times_out_at));
    json_set(&mut doc, "listenChannelId", json_optional_text(as_deref(&job.listen_channel_id)));
    json_set(&mut doc, "crawlId", json_optional_text(as_deref(&job.crawl_id)));
    doc
}

/// The bytes of a job record: the job's document as `serde_json` writes it.
pub fn encode_job(job: &FdbQueueJob) -> (r: Result<Vec<u8>, serde_json::Error>)
    ensures
        exists|doc: serde_json::Value|
            #![trigger is_job_document(doc, job.deep_view())]
            is_job_document(doc, job.deep_view()) && match r {
                Ok(bytes) => json_encoded(doc) == Some(bytes@),
                Err(_) => json_encoded(doc).is_none(),
            },
{
    let doc = job_document(job);
    json_to_vec(&doc)
}

fn read_optional_int(member: &serde_json::Value) -> (r: Option<Option<i64>>)
    ensures
        r == optional_int(*member),
{
    if json_null_check(member) {
        Some(None)
    } else {
        match json_as_i64(member) {
            Some(n) => Some(Some(n)),
            None => None,
        }
    }
}

fn read_optional_text(member: &serde_json::Value) -> (r: Option<Option<String>>)
    ensures
        r.deep_view() == optional_text(*member),
{
    if json_null_check(member) {
        Some(None)
    } else {
        match json_as_str(member) {
            Some(s) => Some(Some(s.to_owned())),
            None => None,
        }
    }
}

/// Reads a job from its document.
pub fn job_from_document(doc: &serde_json::Value) -> (job: Option<FdbQueueJob>)
    ensures
        job.deep_view() == job_of_document(*doc),
{
    if !json_has(doc, "data") {
        return None;
    }
    let id = json_as_str(json_index(doc, "id"));
    let team_id = json_as_str(json_index(doc, "teamId"));
    let priority = json_as_i64(json_index(doc, "priority"));
    let listenable = json_as_bool(json_index(doc, "listenable"));
    let created_at = json_as_i64(json_index(doc, "createdAt"));
    let times_out_at = read_optional_int(json_index(doc, "timesOutAt"));
    let listen_channel_id = read_optional_text(json_index(doc, "listenChannelId"));
    let crawl_id = read_optional_text(json_index(doc, "crawlId"));
    match (
        id,
        team_id,
        priority,
        listenable,
        created_at,
        times_out_at,
        listen_channel_id,
        crawl_id,
    ) {
        (
            Some(id),
            Some(team_id),
            Some(priority),
            Some(listenable),
            Some(created_at),
            Some(times_out_at),
            Some(listen_channel_id),
            Some(crawl_id),
        ) => {
            if priority < -0x8000_0000i64 || priority > 0x7fff_ffffi64 {
                return None;
            }
            Some(
                FdbQueueJob {
                    id: id.to_owned(),
                    data: json_index(doc, "data").clone(),
                    priority: priority as i32,
                    listenable,
                    created_at,
                    times_out_at,
                    listen_channel_id,
                    crawl_id,
                    team_id: team_id.to_owned(),
                },
            )
        },
        _ => None,
    }
}

/// Reads a job record. Bytes that are not JSON give the error of `serde_json`; a JSON value
/// that is no job document gives an error made here.
pub fn decode_job(bytes: &[u8]) -> (r: Result<FdbQueueJob, serde_json::Error>)
    ensures
        match r {
            Ok(job) => decode_job_spec(bytes@) == Some(job.deep_view()),
            Err(_) => decode_job_spec(bytes@).is_none(),
        },
{
    match json_from_slice(bytes) {
        Ok(doc) => match job_from_document(&doc) {
            Some(job) => Ok(job),
            None => Err(json_error("not a job record")),
        },
        Err(e) => Err(e),
    }
}

} // verus!
