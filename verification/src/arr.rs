//! Radarr/Sonarr ("Arr") instances and rclone: the requests sent to them,
//! and the detection of queue items that are stuck.

use vstd::prelude::*;

use crate::text::{
    ascii_lower_seq, decimal_int, eq_ignore_ascii_case, i64_to_chars, push_chars, push_str,
    str_chars, string_from_chars,
};
use crate::util::{trim_end_matches, trim_end_matches_spec};

verus! {

/// Where an Arr instance (Radarr or Sonarr) is reached.
#[derive(Debug, Clone)]
pub struct ArrConfig {
    pub name: String,
    pub base_url: String,
    pub api_key: String,
}

/// A download client that an Arr instance knows.
#[derive(Debug)]
pub struct DownloadClient {
    pub id: i32,
    pub name: String,
    pub implementation: String,
    pub enable: bool,
}

/// An item of an Arr instance's download queue.
#[derive(Debug)]
pub struct ArrQueueItem {
    pub id: i32,
    pub title: String,
    pub status: String,
    pub download_id: Option<String>,
    pub tracked_download_status: Option<String>,
    pub tracked_download_state: Option<String>,
    pub error_message: Option<String>,
}

/// A page of an Arr instance's download queue.
#[derive(Debug)]
pub struct ArrQueueResponse {
    pub records: Vec<ArrQueueItem>,
    pub total_records: i32,
}

/// What to do with a queue item that is stuck.
#[derive(Debug, Clone, Copy, PartialEq, Eq, Structural)]
pub enum StuckAction {
    /// Remove it from the Arr queue.
    Remove,
    /// Remove it and put the release on the blocklist.
    RemoveAndBlocklist,
    /// Only log a warning.
    Warn,
}

/// A queue item that looks stuck or failed.
#[derive(Debug)]
pub struct StuckItem {
    pub id: i32,
    pub title: String,
    pub error_message: Option<String>,
}

/// Whether a queue item is stuck: its tracked status is `warning` in any
/// ASCII case, or it carries an error message.
pub open spec fn is_stuck(item: ArrQueueItem) -> bool {
    (match item.tracked_download_status {
        Some(s) => ascii_lower_seq(s@) == ascii_lower_seq("warning"@),
        None => false,
    }) || item.error_message is Some
}

/// The record of a stuck item.
pub open spec fn stuck_of(item: ArrQueueItem) -> StuckItem {
    StuckItem { id: item.id, title: item.title, error_message: item.error_message }
}

/// The stuck items of a queue, in order.
pub open spec fn stuck_items_spec(records: Seq<ArrQueueItem>) -> Seq<StuckItem> {
    records.filter(|i: ArrQueueItem| is_stuck(i)).map_values(|i: ArrQueueItem| stuck_of(i))
}

fn clone_opt(s: &Option<String>) -> (r: Option<String>)
    ensures
        r == *s,
{
    match s {
        Some(x) => Some(x.clone()),
        None => None,
    }
}

/// Picks the stuck items out of the records of a queue.
pub fn find_stuck_items(records: &[ArrQueueItem]) -> (r: Vec<StuckItem>)
    ensures
        r@ == stuck_items_spec(records@),
{
    let ghost pred = |i: ArrQueueItem| is_stuck(i);
    let ghost f = |i: ArrQueueItem| stuck_of(i);
    let warning = str_chars("warning");
    let mut out: Vec<StuckItem> = Vec::new();
    let mut i: usize = 0;
    while i < records.len()
        invariant
            i <= records@.len(),
            warning@ == "warning"@,
            pred == |i: ArrQueueItem| is_stuck(i),
            f == |i: ArrQueueItem| stuck_of(i),
            out@ == records@.subrange(0, i as int).filter(pred).map_values(f),
        decreases records@.len() - i,
    {
        reveal_with_fuel(Seq::<_>::filter, 1);
        let ghost prev = records@.subrange(0, i as int);
        assert(records@.subrange(0, i + 1).drop_last() =~= prev);
        let item = &records[i];
        let warn = match &item.tracked_download_status {
            Some(s) => {
                let c = str_chars(s.as_str());
                eq_ignore_ascii_case(c.as_slice(), warning.as_slice())
            },
            None => false,
        };
        if warn || item.error_message.is_some() {
            out.push(
                StuckItem {
                    id: item.id,
                    title: item.title.clone(),
                    error_message: clone_opt(&item.error_message),
                },
            );
            assert(records@.subrange(0, i + 1).filter(pred) =~= prev.filter(pred).push(records@[i as int]));
            assert(out@ =~= records@.subrange(0, i + 1).filter(pred).map_values(f));
        } else {
            assert(records@.subrange(0, i + 1).filter(pred) =~= prev.filter(pred));
        }
        i += 1;
    }
    assert(records@.subrange(0, records@.len() as int) =~= records@);
    out
}

/// What handling a stuck item amounts to.
#[derive(Debug, Clone, Copy, PartialEq, Eq, Structural)]
pub enum StuckStep {
    /// Delete the item from the Arr queue (and from the download client),
    /// blocklisting the release or not.
    Delete { blocklist: bool },
    /// Log a warning and leave the item alone.
    Warn,
}

/// The step that the configured action takes for a stuck item.
pub fn stuck_step(action: StuckAction) -> (r: StuckStep)
    ensures
        r == match action {
            StuckAction::Remove => StuckStep::Delete { blocklist: false },
            StuckAction::RemoveAndBlocklist => StuckStep::Delete { blocklist: true },
            StuckAction::Warn => StuckStep::Warn,
        },
{
    match action {
        StuckAction::Remove => StuckStep::Delete { blocklist: false },
        StuckAction::RemoveAndBlocklist => StuckStep::Delete { blocklist: true },
        StuckAction::Warn => StuckStep::Warn,
    }
}

/// The HTTP methods used towards Arr instances.
#[derive(Debug, Clone, Copy, PartialEq, Eq, Structural)]
pub enum HttpMethod {
    Get,
    Post,
    Delete,
}

/// The calls that are made to an Arr instance.
#[derive(Debug, Clone)]
pub enum ArrCall {
    /// `GET downloadclient`
    DownloadClients,
    /// `POST command` naming `RefreshMonitoredDownloads`
    RefreshMonitoredDownloads,
    /// `GET queue`, first page of 100
    Queue,
    /// `DELETE queue/{id}`
    DeleteQueueItem { id: i32, blocklist: bool },
    /// `DELETE queue/bulk` with the ids in the body
    DeleteQueueBulk { ids: Vec<i32>, blocklist: bool },
}

/// The JSON body of a request.
#[derive(Debug, Clone)]
pub enum ArrBody {
    Empty,
    /// `{"name": ...}`
    Command(String),
    /// `{"ids": [...]}`
    Ids(Vec<i32>),
}

/// A request to send to an Arr instance; the API key goes in the
/// `X-Api-Key` header.
#[derive(Debug, Clone)]
pub struct ArrRequest {
    pub method: HttpMethod,
    pub url: String,
    pub query: Vec<(String, String)>,
    pub body: ArrBody,
}

/// The URL of an API path of an Arr instance.
pub open spec fn arr_url(base_url: Seq<char>, path: Seq<char>) -> Seq<char> {
    trim_end_matches_spec(base_url, "/"@) + "/api/v3/"@ + path
}

pub open spec fn flag_text(b: bool) -> Seq<char> {
    if b {
        "true"@
    } else {
        "false"@
    }
}

/// The query of a delete.
pub open spec fn delete_query(blocklist: bool) -> Seq<(Seq<char>, Seq<char>)> {
    seq![("removeFromClient"@, "true"@), ("blocklist"@, flag_text(blocklist))]
}

/// The method, path and query of a call.
pub open spec fn call_parts(call: ArrCall) -> (HttpMethod, Seq<char>, Seq<(Seq<char>, Seq<char>)>) {
    match call {
        ArrCall::DownloadClients => (HttpMethod::Get, "downloadclient"@, seq![]),
        ArrCall::RefreshMonitoredDownloads => (HttpMethod::Post, "command"@, seq![]),
        ArrCall::Queue => (HttpMethod::Get, "queue"@, seq![("page"@, "1"@), ("pageSize"@, "100"@)]),
        ArrCall::DeleteQueueItem { id, blocklist } => (
            HttpMethod::Delete,
            "queue/"@ + decimal_int(id as int),
            delete_query(blocklist),
        ),
        ArrCall::DeleteQueueBulk { ids, blocklist } => (
            HttpMethod::Delete,
            "queue/bulk"@,
            delete_query(blocklist),
        ),
    }
}

/// The texts of a list of string pairs.
pub open spec fn pair_texts(v: Seq<(String, String)>) -> Seq<(Seq<char>, Seq<char>)> {
    v.map_values(|p: (String, String)| (p.0@, p.1@))
}

/// Whether `b` is the body that `call` sends.
pub open spec fn body_of(call: ArrCall, b: ArrBody) -> bool {
    match call {
        ArrCall::RefreshMonitoredDownloads => b matches ArrBody::Command(n) && n@
            == "RefreshMonitoredDownloads"@,
        ArrCall::DeleteQueueBulk { ids, .. } => b matches ArrBody::Ids(v) && v@ == ids@,
        _ => b is Empty,
    }
}

fn pair(a: &str, b: &str) -> (r: (String, String))
    ensures
        r.0@ == a@,
        r.1@ == b@,
{
    (a.to_owned(), b.to_owned())
}

fn flag_str(b: bool) -> (r: &'static str)
    ensures
        r@ == flag_text(b),
{
    if b {
        "true"
    } else {
        "false"
    }
}

fn delete_pairs(blocklist: bool) -> (r: Vec<(String, String)>)
    ensures
        pair_texts(r@) == delete_query(blocklist),
{
    let mut q: Vec<(String, String)> = Vec::new();
    q.push(pair("removeFromClient", "true"));
    q.push(pair("blocklist", flag_str(blocklist)));
    assert(pair_texts(q@) =~= delete_query(blocklist));
    q
}

/// The URL of an API path of an Arr instance: the base URL without its
/// trailing slashes, then `/api/v3/` and the path.
pub fn arr_api_url(base_url: &str, path: &str) -> (r: String)
    ensures
        r@ == arr_url(base_url@, path@),
{
    let b = str_chars(base_url);
    let slash = str_chars("/");
    let mut u = trim_end_matches(b.as_slice(), slash.as_slice());
    push_str(&mut u, "/api/v3/");
    push_str(&mut u, path);
    string_from_chars(u.as_slice())
}

/// The request that makes `call` against the instance, or `None` for a bulk
/// delete of no items, which sends nothing.
pub fn arr_request(config: &ArrConfig, call: &ArrCall) -> (r: Option<ArrRequest>)
    ensures
        match r {
            None => call matches ArrCall::DeleteQueueBulk { ids, .. } && ids@.len() == 0,
            Some(req) => {
                &&& !(call matches ArrCall::DeleteQueueBulk { ids, .. } && ids@.len() == 0)
                &&& req.method == call_parts(*call).0
                &&& req.url@ == arr_url(config.base_url@, call_parts(*call).1)
                &&& pair_texts(req.query@) == call_parts(*call).2
                &&& body_of(*call, req.body)
            },
        },
{
    match call {
        ArrCall::DownloadClients => {
            let q: Vec<(String, String)> = Vec::new();
            assert(pair_texts(q@) =~= seq![]);
            Some(
                ArrRequest {
                    method: HttpMethod::Get,
                    url: arr_api_url(config.base_url.as_str(), "downloadclient"),
                    query: q,
                    body: ArrBody::Empty,
                },
            )
        },
        ArrCall::RefreshMonitoredDownloads => {
            let q: Vec<(String, String)> = Vec::new();
            assert(pair_texts(q@) =~= seq![]);
            Some(
                ArrRequest {
                    method: HttpMethod::Post,
                    url: arr_api_url(config.base_url.as_str(), "command"),
                    query: q,
                    body: ArrBody::Command("RefreshMonitoredDownloads".to_owned()),
                },
            )
        },
        ArrCall::Queue => {
            let mut q: Vec<(String, String)> = Vec::new();
            q.push(pair("page", "1"));
            q.push(pair("pageSize", "100"));
            assert(pair_texts(q@) =~= seq![("page"@, "1"@), ("pageSize"@, "100"@)]);
            Some(
                ArrRequest {
                    method: HttpMethod::Get,
                    url: arr_api_url(config.base_url.as_str(), "queue"),
                    query: q,
                    body: ArrBody::Empty,
                },
            )
        },
        ArrCall::DeleteQueueItem { id, blocklist } => {
            let mut p = str_chars("queue/");
            let digits = i64_to_chars(*id as i64);
            push_chars(&mut p, digits.as_slice());
            let path = string_from_chars(p.as_slice());
            Some(
                ArrRequest {
                    method: HttpMethod::Delete,
                    url: arr_api_url(config.base_url.as_str(), path.as_str()),
                    query: delete_pairs(*blocklist),
                    body: ArrBody::Empty,
                },
            )
        },
        ArrCall::DeleteQueueBulk { ids, blocklist } => {
            if ids.len() == 0 {
                return None;
            }
            Some(
                ArrRequest {
                    method: HttpMethod::Delete,
                    url: arr_api_url(config.base_url.as_str(), "queue/bulk"),
                    query: delete_pairs(*blocklist),
                    body: ArrBody::Ids(ids.clone()),
                },
            )
        },
    }
}

/// The actions of rclone's VFS cache.
#[derive(Debug, Clone, Copy, PartialEq, Eq, Structural)]
pub enum VfsAction {
    /// Drop a path from the cache (`vfs/forget`).
    Forget,
    /// Re-read a directory (`vfs/refresh`).
    Refresh,
}

/// The base URL of the rclone remote-control API: the configured URL
/// without its trailing slashes.
pub fn rclone_base_url(base_url: &str) -> (r: String)
    ensures
        r@ == trim_end_matches_spec(base_url@, "/"@),
{
    let b = str_chars(base_url);
    let slash = str_chars("/");
    let u = trim_end_matches(b.as_slice(), slash.as_slice());
    string_from_chars(u.as_slice())
}

/// The URL of a VFS action; the directory goes in the `dir` query
/// parameter.
pub fn rclone_vfs_url(base_url: &str, action: VfsAction) -> (r: String)
    ensures
        r@ == base_url@ + match action {
            VfsAction::Forget => "/vfs/forget"@,
            VfsAction::Refresh => "/vfs/refresh"@,
        },
{
    let mut u = str_chars(base_url);
    match action {
        VfsAction::Forget => push_str(&mut u, "/vfs/forget"),
        VfsAction::Refresh => push_str(&mut u, "/vfs/refresh"),
    }
    string_from_chars(u.as_slice())
}

} // verus!
