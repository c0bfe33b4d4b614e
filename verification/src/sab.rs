//! The SABnzbd-compatible API: request parameters, response records, and
//! the decisions of each mode.

use vstd::prelude::*;

use crate::bindings::{
    nzb_file_bytes, parse_nzb_file_bytes, to_lowercase, unicode_lower, uuid_parsed,
    uuid_try_parse,
};
use crate::byte_counts::{declared_bytes_fit, declared_bytes_total};
use crate::name_case::{names_keep_length, names_lower_in_place};
use crate::models::{DownloadStatus, HistoryItem, QueueItem};
use crate::range::{split_chars, split_seq};
use crate::store::{uuid_text, uuid_to_string};
use crate::text::{
    ascii_lower_seq, chars_eq, ends_with, eq_ignore_ascii_case, is_suffix, last_index_of,
    push_str, rfind_char, str_chars, string_from_chars, trim, trim_seq,
};
use crate::util::{nzb_password_spec, get_nzb_password, job_name_spec, get_job_name,
    trim_end_matches, trim_end_matches_spec};

verus! {

/// The query parameters of the API.
#[derive(Debug, Clone)]
pub struct ApiParams {
    pub mode: String,
    pub apikey: Option<String>,
    pub output: Option<String>,
    pub name: Option<String>,
    pub value: Option<String>,
    pub cat: Option<String>,
    pub priority: Option<i32>,
    pub password: Option<String>,
    pub start: Option<i64>,
    pub limit: Option<i64>,
    /// The job label that clients send; used as the job name.
    pub nzbname: Option<String>,
    /// Comma-separated job ids that restrict the history listing.
    pub nzo_ids: Option<String>,
    /// A category filter for the history (`cat` is the other spelling).
    pub category: Option<String>,
    pub del_files: Option<i32>,
}

#[derive(Debug, Clone)]
pub struct QueueResponse {
    pub queue: QueueData,
}

#[derive(Debug, Clone)]
pub struct QueueData {
    /// "Downloading" or "Idle".
    pub status: String,
    pub noofslots: usize,
    pub noofslots_total: usize,
    pub slots: Vec<QueueSlot>,
}

#[derive(Debug, Clone)]
pub struct QueueSlot {
    pub nzo_id: String,
    pub filename: String,
    pub cat: String,
    /// "Low", "Normal", "High" or "Force".
    pub priority: String,
    /// "Queued", "Downloading" or "Paused"; a job being worked on reads
    /// "Downloading".
    pub status: String,
    /// Total size in MB.
    pub mb: String,
    pub mbleft: String,
    pub percentage: String,
    pub timeleft: String,
}

#[derive(Debug, Clone)]
pub struct HistoryResponse {
    pub history: HistoryData,
}

#[derive(Debug, Clone)]
pub struct HistoryData {
    pub noofslots: usize,
    pub slots: Vec<HistorySlot>,
}

#[derive(Debug, Clone)]
pub struct HistorySlot {
    pub nzo_id: String,
    pub name: String,
    pub category: String,
    /// "Completed" or "Failed".
    pub status: String,
    pub fail_message: String,
    pub bytes: i64,
    pub download_time: i32,
    /// Unix timestamp.
    pub completed: i64,
    /// The WebDAV path of the job's files.
    pub storage: String,
}

#[derive(Debug, Clone)]
pub struct AddFileResponse {
    pub status: bool,
    pub nzo_ids: Vec<String>,
}

#[derive(Debug, Clone)]
pub struct VersionResponse {
    pub version: String,
}

#[derive(Debug, Clone)]
pub struct StatusResponse {
    pub status: String,
    pub version: String,
    pub paused: bool,
}

#[derive(Debug, Clone)]
pub struct CategoriesResponse {
    pub categories: Vec<String>,
}

#[derive(Debug, Clone)]
pub struct SimpleResponse {
    pub status: bool,
    pub error: Option<String>,
}

fn owned(s: &str) -> (r: String)
    ensures
        r@ == s@,
{
    let c = str_chars(s);
    string_from_chars(c.as_slice())
}

fn concat(a: &str, b: &str) -> (r: String)
    ensures
        r@ == a@ + b@,
{
    let mut c = str_chars(a);
    push_str(&mut c, b);
    string_from_chars(c.as_slice())
}

/// Whether the answer is a failure with exactly this error text.
pub open spec fn is_failure(r: SimpleResponse, msg: Seq<char>) -> bool {
    !r.status && match r.error {
        Some(m) => m@ == msg,
        None => false,
    }
}

impl SimpleResponse {
    /// A failure with the given error text.
    pub fn failure(msg: String) -> (r: SimpleResponse)
        ensures
            !r.status,
            r.error == Some(msg),
    {
        SimpleResponse { status: false, error: Some(msg) }
    }

    /// A success without an error.
    pub fn success() -> (r: SimpleResponse)
        ensures
            r.status,
            r.error is None,
    {
        SimpleResponse { status: true, error: None }
    }
}

/// The version that the API reports, one that SABnzbd clients accept.
pub open spec fn api_version() -> Seq<char> {
    "4.0.0"@
}

impl VersionResponse {
    pub fn current() -> (r: VersionResponse)
        ensures
            r.version@ == api_version(),
    {
        VersionResponse { version: owned("4.0.0") }
    }
}

impl StatusResponse {
    /// The status of a server that is never paused.
    pub fn current() -> (r: StatusResponse)
        ensures
            r.status@ == "ok"@,
            r.version@ == api_version(),
            !r.paused,
    {
        StatusResponse { status: owned("ok"), version: owned("4.0.0"), paused: false }
    }
}

// ---------------------------------------------------------------------------
// Modes
// ---------------------------------------------------------------------------

/// The modes of the API.
#[derive(Debug, Clone, Copy, PartialEq, Eq, Structural)]
pub enum SabMode {
    AddFile,
    AddUrl,
    Queue,
    History,
    Retry,
    Version,
    Status,
    GetConfig,
    GetCats,
    Unknown,
}

pub open spec fn mode_of(m: Seq<char>) -> SabMode {
    if m == "addfile"@ {
        SabMode::AddFile
    } else if m == "addurl"@ {
        SabMode::AddUrl
    } else if m == "queue"@ {
        SabMode::Queue
    } else if m == "history"@ {
        SabMode::History
    } else if m == "retry"@ {
        SabMode::Retry
    } else if m == "version"@ {
        SabMode::Version
    } else if m == "status"@ || m == "fullstatus"@ {
        SabMode::Status
    } else if m == "get_config"@ {
        SabMode::GetConfig
    } else if m == "get_cats"@ {
        SabMode::GetCats
    } else {
        SabMode::Unknown
    }
}

fn is(m: &[char], lit: &str) -> (r: bool)
    ensures
        r == (m@ == lit@),
{
    let l = str_chars(lit);
    chars_eq(m, l.as_slice())
}

/// The mode named by the `mode` parameter.
pub fn parse_mode(mode: &str) -> (r: SabMode)
    ensures
        r == mode_of(mode@),
{
    let m = str_chars(mode);
    let m = m.as_slice();
    if is(m, "addfile") {
        SabMode::AddFile
    } else if is(m, "addurl") {
        SabMode::AddUrl
    } else if is(m, "queue") {
        SabMode::Queue
    } else if is(m, "history") {
        SabMode::History
    } else if is(m, "retry") {
        SabMode::Retry
    } else if is(m, "version") {
        SabMode::Version
    } else if is(m, "status") || is(m, "fullstatus") {
        SabMode::Status
    } else if is(m, "get_config") {
        SabMode::GetConfig
    } else if is(m, "get_cats") {
        SabMode::GetCats
    } else {
        SabMode::Unknown
    }
}

/// The answer to a mode the API does not know.
pub fn unknown_mode_response(mode: &str) -> (r: SimpleResponse)
    ensures
        is_failure(r, "unknown mode: "@ + mode@),
{
    SimpleResponse::failure(concat("unknown mode: ", mode))
}

/// The text of a priority: `Low` for 0 and below, `Normal` for 1, `High`
/// for 2, `Force` above.
pub open spec fn priority_text(p: i32) -> Seq<char> {
    if p <= 0 {
        "Low"@
    } else if p == 1 {
        "Normal"@
    } else if p == 2 {
        "High"@
    } else {
        "Force"@
    }
}

/// Converts an integer priority to its SABnzbd text.
pub fn priority_to_string(priority: i32) -> (r: String)
    ensures
        r@ == priority_text(priority),
{
    if priority <= 0 {
        owned("Low")
    } else if priority == 1 {
        owned("Normal")
    } else if priority == 2 {
        owned("High")
    } else {
        owned("Force")
    }
}

// ---------------------------------------------------------------------------
// Adding NZBs
// ---------------------------------------------------------------------------

/// A job label as a file name: kept if it ends with `.nzb`, else `.nzb` is
/// added.
pub open spec fn nzb_file_name_spec(name: Seq<char>) -> Seq<char> {
    if is_suffix(".nzb"@, name) {
        name
    } else {
        name + ".nzb"@
    }
}

pub fn nzb_file_name(name: &str) -> (r: String)
    ensures
        r@ == nzb_file_name_spec(name@),
{
    let n = str_chars(name);
    let ext = str_chars(".nzb");
    if ends_with(n.as_slice(), ext.as_slice()) {
        owned(name)
    } else {
        concat(name, ".nzb")
    }
}

/// The file name of an upload: the non-empty job label, else the name of
/// the uploaded file, else `unknown.nzb`.
pub open spec fn upload_file_name_spec(nzbname: Option<Seq<char>>, upload: Option<Seq<char>>) -> Seq<
    char,
> {
    match nzbname {
        Some(n) if n.len() > 0 => nzb_file_name_spec(n),
        _ => match upload {
            Some(u) => u,
            None => "unknown.nzb"@,
        },
    }
}

pub fn upload_file_name(nzbname: Option<&str>, upload: Option<&str>) -> (r: String)
    ensures
        r@ == upload_file_name_spec(
            match nzbname {
                Some(n) => Some(n@),
                None => None,
            },
            match upload {
                Some(u) => Some(u@),
                None => None,
            },
        ),
{
    match nzbname {
        Some(n) if !n.is_empty() => nzb_file_name(n),
        _ => match upload {
            Some(u) => owned(u),
            None => owned("unknown.nzb"),
        },
    }
}

/// The last `/`-separated piece of a URL.
pub open spec fn url_basename(url: Seq<char>) -> Seq<char> {
    match last_index_of(url, '/') {
        Some(i) => url.subrange(i + 1, url.len() as int),
        None => url,
    }
}

/// The file name of an NZB fetched from a URL: the non-empty job label,
/// else the URL's last piece where it ends with `.nzb`, else `download.nzb`.
pub open spec fn url_file_name_spec(nzbname: Option<Seq<char>>, url: Seq<char>) -> Seq<char> {
    match nzbname {
        Some(n) if n.len() > 0 => nzb_file_name_spec(n),
        _ => if is_suffix(".nzb"@, url_basename(url)) {
            url_basename(url)
        } else {
            "download.nzb"@
        },
    }
}

pub fn url_file_name(nzbname: Option<&str>, url: &str) -> (r: String)
    ensures
        r@ == url_file_name_spec(
            match nzbname {
                Some(n) => Some(n@),
                None => None,
            },
            url@,
        ),
{
    match nzbname {
        Some(n) if !n.is_empty() => nzb_file_name(n),
        _ => {
            let u = str_chars(url);
            let base = match rfind_char(u.as_slice(), '/') {
                Some(i) => {
                    assert(i < u.len());
                    crate::text::chars_range(u.as_slice(), i + 1, u.len())
                },
                None => u,
            };
            let ext = str_chars(".nzb");
            if ends_with(base.as_slice(), ext.as_slice()) {
                string_from_chars(base.as_slice())
            } else {
                owned("download.nzb")
            }
        },
    }
}

/// The URL of an `addurl` request: `name`, else `value`.
pub fn addurl_target(name: Option<String>, value: Option<String>) -> (r: Result<String, SimpleResponse>)
    ensures
        match (name, value) {
            (Some(n), _) => r == Ok::<String, SimpleResponse>(n),
            (None, Some(v)) => r == Ok::<String, SimpleResponse>(v),
            (None, None) => (match r { Err(e) => is_failure(e, "URL is required (pass as 'name' or 'value' parameter)"@), Ok(_) => false }),
        },
{
    match name {
        Some(n) => Ok(n),
        None => match value {
            Some(v) => Ok(v),
            None => Err(
                SimpleResponse::failure(owned("URL is required (pass as 'name' or 'value' parameter)")),
            ),
        },
    }
}

/// The file name under which an NZB is stored: a non-empty password that
/// the name does not already carry is written into it as
/// `{base} {{password}}.nzb`, `base` being the name without its `.nzb`
/// endings.
pub open spec fn stored_file_name_spec(filename: Seq<char>, password: Option<Seq<char>>) -> Seq<char> {
    match password {
        Some(pw) if pw.len() > 0 && nzb_password_spec(filename) is None => trim_end_matches_spec(
            filename,
            ".nzb"@,
        ) + " {{"@ + pw + "}}.nzb"@,
        _ => filename,
    }
}

pub fn stored_file_name(filename: &str, password: Option<&str>) -> (r: String)
    ensures
        r@ == stored_file_name_spec(
            filename@,
            match password {
                Some(p) => Some(p@),
                None => None,
            },
        ),
{
    match password {
        Some(pw) => {
            if !pw.is_empty() && get_nzb_password(filename).is_none() {
                let f = str_chars(filename);
                let ext = str_chars(".nzb");
                let mut base = trim_end_matches(f.as_slice(), ext.as_slice());
                push_str(&mut base, " {{");
                push_str(&mut base, pw);
                push_str(&mut base, "}}.nzb");
                string_from_chars(base.as_slice())
            } else {
                owned(filename)
            }
        },
        None => owned(filename),
    }
}

/// The sum of the values with wrap-around at 2^64.
pub open spec fn wrapping_total(s: Seq<u64>) -> u64
    decreases s.len(),
{
    if s.len() == 0 {
        0
    } else {
        ((wrapping_total(s.drop_last()) + s.last()) % 0x1_0000_0000_0000_0000) as u64
    }
}

/// The total of the file sizes adds up: the total of two lists one after
/// the other is the sum of their totals (with wrap-around at 2^64), the
/// total of one size is that size, and of no size 0. So two files of 1500
/// and 700 bytes give 2200.
pub proof fn lemma_total_is_sum(s: Seq<u64>, t: Seq<u64>, x: u64)
    ensures
        wrapping_total(s + t) == (wrapping_total(s) + wrapping_total(t)) % 0x1_0000_0000_0000_0000,
        wrapping_total(seq![x]) == x,
        wrapping_total(Seq::<u64>::empty()) == 0,
    decreases t.len(),
{
    let m: int = 0x1_0000_0000_0000_0000;
    assert(seq![x].drop_last() =~= Seq::<u64>::empty());
    assert(seq![x].last() == x);
    assert(wrapping_total(seq![x].drop_last()) == 0);
    vstd::arithmetic::div_mod::lemma_small_mod(x as nat, m as nat);
    assert(((0 + x) % m) as u64 == x);
    if t.len() == 0 {
        assert(s + t =~= s);
        vstd::arithmetic::div_mod::lemma_small_mod(wrapping_total(s) as nat, m as nat);
    } else {
        let t0 = t.drop_last();
        lemma_total_is_sum(s, t0, x);
        assert((s + t).drop_last() =~= s + t0);
        assert((s + t).last() == t.last());
        let a = wrapping_total(s) as int;
        let b = wrapping_total(t0) as int;
        let y = t.last() as int;
        // wrapping_total(s + t) == (((a + b) % m) + y) % m
        vstd::arithmetic::div_mod::lemma_add_mod_noop(a + b, y, m);
        vstd::arithmetic::div_mod::lemma_add_mod_noop(a, b + y, m);
        vstd::arithmetic::div_mod::lemma_small_mod(a as nat, m as nat);
        vstd::arithmetic::div_mod::lemma_small_mod(y as nat, m as nat);
        vstd::arithmetic::div_mod::lemma_mod_twice(a + b, m);
        vstd::arithmetic::div_mod::lemma_add_mod_noop(b, y, m);
        vstd::arithmetic::div_mod::lemma_mod_twice(b + y, m);
        assert(((a + b) % m + y) % m == (a + b + y) % m);
        assert((a + (b + y) % m) % m == (a + (b + y)) % m);
    }
}

fn total_bytes(s: &[u64]) -> (r: u64)
    ensures
        r == wrapping_total(s@),
{
    let mut t: u64 = 0;
    let mut i: usize = 0;
    while i < s.len()
        invariant
            i <= s@.len(),
            t == wrapping_total(s@.subrange(0, i as int)),
        decreases s@.len() - i,
    {
        assert(s@.subrange(0, i + 1).drop_last() =~= s@.subrange(0, i as int));
        t = t.wrapping_add(s[i]);
        i += 1;
    }
    assert(s@.subrange(0, s@.len() as int) =~= s@);
    t
}

/// The queue item of a newly added NZB, or the error text for an NZB that
/// does not parse, whose declared byte counts are too large to add up in
/// 64 bits, or whose names change byte length when lower-cased (the two
/// inputs on which the parser would panic).
pub open spec fn enqueue_spec(
    filename: Seq<char>,
    password: Option<Seq<char>>,
    data: Seq<u8>,
    category: Seq<char>,
    priority: i32,
    id: u128,
    now: i64,
) -> Result<(u128, i64, Seq<char>, Seq<char>, i64, i64, Seq<char>, i32), Seq<char>> {
    let stored = stored_file_name_spec(filename, password);
    let job = job_name_spec(stored);
    if declared_bytes_total(data) >= 0x1_0000_0000_0000_0000 {
        Err("invalid NZB: byte counts too large"@)
    } else if !names_lower_in_place(data) {
        Err("invalid NZB: names change length when lower-cased"@)
    } else {
        match nzb_file_bytes(job, data) {
            Err(e) => Err("invalid NZB: "@ + e),
            Ok(sizes) => Ok(
                (
                    id,
                    now,
                    stored,
                    job,
                    data.len() as i64,
                    wrapping_total(sizes) as i64,
                    category,
                    priority,
                ),
            ),
        }
    }
}

/// The fields of a queue item, in declaration order up to the priority.
pub open spec fn queue_item_fields(q: QueueItem) -> (u128, i64, Seq<char>, Seq<char>, i64, i64, Seq<char>, i32) {
    (
        q.id,
        q.created_at,
        q.file_name@,
        q.job_name@,
        q.nzb_file_size,
        q.total_segment_bytes,
        q.category@,
        q.priority,
    )
}

/// Parses an NZB and builds the queue item for it (the shared part of
/// `addfile` and `addurl`): the password is written into the stored file
/// name, the job name comes from that name, and the total size is the sum
/// of the file sizes that the NZB lists. `id` and `now` are the new job's
/// identifier and creation time.
pub fn plan_enqueue(
    filename: &str,
    data: &[u8],
    category: &str,
    priority: i32,
    password: Option<&str>,
    id: u128,
    now: i64,
) -> (r: Result<QueueItem, String>)
    ensures
        match r {
            Ok(q) => enqueue_spec(
                filename@,
                match password {
                    Some(p) => Some(p@),
                    None => None,
                },
                data@,
                category@,
                priority,
                id,
                now,
            ) == Ok::<(u128, i64, Seq<char>, Seq<char>, i64, i64, Seq<char>, i32), Seq<char>>(
                queue_item_fields(q),
            ) && q.post_processing == -1 && q.pause_until is None,
            Err(e) => enqueue_spec(
                filename@,
                match password {
                    Some(p) => Some(p@),
                    None => None,
                },
                data@,
                category@,
                priority,
                id,
                now,
            ) == Err::<(u128, i64, Seq<char>, Seq<char>, i64, i64, Seq<char>, i32), Seq<char>>(
                e@,
            ),
        },
{
    let stored = stored_file_name(filename, password);
    let job = get_job_name(stored.as_str());
    if !declared_bytes_fit(data) {
        return Err(owned("invalid NZB: byte counts too large"));
    }
    if !names_keep_length(data) {
        return Err(owned("invalid NZB: names change length when lower-cased"));
    }
    match parse_nzb_file_bytes(job.as_str(), data) {
        Err(e) => Err(concat("invalid NZB: ", e.as_str())),
        Ok(sizes) => {
            let total = total_bytes(sizes.as_slice());
            Ok(
                QueueItem {
                    id,
                    created_at: now,
                    file_name: stored,
                    job_name: job,
                    nzb_file_size: data.len() as i64,
                    total_segment_bytes: total as i64,
                    category: owned(category),
                    priority,
                    post_processing: -1,
                    pause_until: None,
                },
            )
        },
    }
}

/// The answer to a successful add: the new job's id.
pub fn added_response(id: u128) -> (r: AddFileResponse)
    ensures
        r.status,
        r.nzo_ids@.len() == 1,
        r.nzo_ids@[0]@ == uuid_text(id),
{
    let mut ids: Vec<String> = Vec::new();
    ids.push(uuid_to_string(id));
    AddFileResponse { status: true, nzo_ids: ids }
}

// ---------------------------------------------------------------------------
// Queue and history listings
// ---------------------------------------------------------------------------

/// Whether `a` may be listed before `b`: a higher priority first, then the
/// older job first.
pub open spec fn listed_no_later(a: QueueItem, b: QueueItem) -> bool {
    a.priority > b.priority || (a.priority == b.priority && a.created_at <= b.created_at)
}

/// Whether the items are in the order of the queue listing.
pub open spec fn in_listing_order(s: Seq<QueueItem>) -> bool {
    forall|i: int, j: int| 0 <= i < j < s.len() ==> listed_no_later(#[trigger] s[i], #[trigger] s[j])
}

/// Puts the queue items in the order of the listing: by priority, the
/// highest first, then by creation time, the oldest first.
pub fn sort_for_listing(items: Vec<QueueItem>) -> (r: Vec<QueueItem>)
    ensures
        in_listing_order(r@),
        r@.to_multiset() == items@.to_multiset(),
{
    broadcast use {
        vstd::seq_lib::group_to_multiset_ensures,
        vstd::seq_lib::to_multiset_insert,
        vstd::multiset::group_multiset_axioms,
        vstd::multiset::lemma_multiset_empty_len,
    };

    let ghost orig = items@;
    let mut rest = items;
    let mut out: Vec<QueueItem> = Vec::new();
    assert(out@.to_multiset() =~= vstd::multiset::Multiset::<QueueItem>::empty());
    assert(out@.to_multiset().add(rest@.to_multiset()) =~= orig.to_multiset());
    while rest.len() > 0
        invariant
            in_listing_order(out@),
            out@.to_multiset().add(rest@.to_multiset()) == orig.to_multiset(),
        decreases rest@.len(),
    {
        let ghost before = rest@;
        let x = rest.pop().unwrap();
        assert(before == rest@.push(x));
        let mut pos: usize = 0;
        while pos < out.len() && (out[pos].priority > x.priority || (out[pos].priority
            == x.priority && out[pos].created_at <= x.created_at))
            invariant
                pos <= out@.len(),
                forall|k: int| 0 <= k < pos ==> listed_no_later(#[trigger] out@[k], x),
            decreases out@.len() - pos,
        {
            pos += 1;
        }
        let ghost old_out = out@;
        proof {
            if pos < old_out.len() {
                assert(!listed_no_later(old_out[pos as int], x));
                assert forall|j: int| pos <= j < old_out.len() implies listed_no_later(x, #[trigger] old_out[j]) by {
                    if j > pos {
                        assert(listed_no_later(old_out[pos as int], old_out[j]));
                    }
                }
            }
        }
        out.insert(pos, x);
        proof {
            let n = out@;
            assert forall|i: int, j: int| 0 <= i < j < n.len() implies listed_no_later(#[trigger] n[i], #[trigger] n[j]) by {
                if i < pos && j < pos {
                    assert(n[i] == old_out[i] && n[j] == old_out[j]);
                } else if i < pos && j == pos {
                    assert(n[i] == old_out[i]);
                } else if i < pos && j > pos {
                    assert(n[i] == old_out[i] && n[j] == old_out[j - 1]);
                    assert(listed_no_later(old_out[i], old_out[j - 1]));
                } else if i == pos {
                    assert(n[j] == old_out[j - 1]);
                } else {
                    assert(n[i] == old_out[i - 1] && n[j] == old_out[j - 1]);
                }
            }
            vstd::seq_lib::to_multiset_insert(old_out, pos as int, x);
            vstd::seq_lib::to_multiset_build(rest@, x);
            assert(out@.to_multiset() == old_out.to_multiset().insert(x));
            assert(before.to_multiset() == rest@.to_multiset().insert(x));
            assert(out@.to_multiset().add(rest@.to_multiset()) =~= old_out.to_multiset().add(
                before.to_multiset(),
            ));
        }
    }
    proof {
        assert(rest@.to_multiset() =~= vstd::multiset::Multiset::<QueueItem>::empty());
        assert(out@.to_multiset().add(rest@.to_multiset()) =~= out@.to_multiset());
    }
    out
}

/// The positions of a listing page among `n` items, as SQL's `LIMIT` and
/// `OFFSET` give them: a negative start counts as 0 and a negative limit
/// as no limit.
pub open spec fn page_range(n: nat, start: i64, limit: i64) -> (int, int) {
    let o: int = if start < 0 {
        0
    } else if start > n {
        n as int
    } else {
        start as int
    };
    let e: int = if limit < 0 || o + limit > n {
        n as int
    } else {
        o + limit
    };
    (o, e)
}

/// The queue listing page that starts at `start` and holds at most
/// `limit` items: the items in the listing's order, then the page. With
/// a start and a limit that are not negative, the page holds
/// `min(limit, max(0, n - start))` items.
pub fn queue_listing(items: Vec<QueueItem>, start: i64, limit: i64) -> (r: Vec<QueueItem>)
    ensures
        exists|l: Seq<QueueItem>|
            #![trigger in_listing_order(l)]
            in_listing_order(l) && l.to_multiset() == items@.to_multiset() && r@ == l.subrange(
                page_range(items@.len(), start, limit).0,
                page_range(items@.len(), start, limit).1,
            ),
        start >= 0 && limit >= 0 ==> r@.len() == if limit < items@.len() - start {
            limit as int
        } else if items@.len() - start > 0 {
            items@.len() - start
        } else {
            0
        },
{
    let n = items.len();
    let mut sorted = sort_for_listing(items);
    proof {
        vstd::seq_lib::to_multiset_len(sorted@);
        vstd::seq_lib::to_multiset_len(items@);
    }
    let ghost l = sorted@;
    let o: usize = if start < 0 {
        0
    } else if start as u64 > n as u64 {
        n
    } else {
        start as usize
    };
    let e: usize = if limit < 0 || limit as u64 > (n - o) as u64 {
        n
    } else {
        o + limit as usize
    };
    sorted.truncate(e);
    let page = sorted.split_off(o);
    assert(page@ =~= l.subrange(o as int, e as int));
    page
}

/// The first item and the number of items of a listing page.
pub fn page_bounds(start: Option<i64>, limit: Option<i64>) -> (r: (i64, i64))
    ensures
        r.0 == match start {
            Some(s) => s,
            None => 0,
        },
        r.1 == match limit {
            Some(l) => l,
            None => 50,
        },
{
    (
        match start {
            Some(s) => s,
            None => 0,
        },
        match limit {
            Some(l) => l,
            None => 50,
        },
    )
}

/// The status of the queue as a whole.
pub fn queue_status_text(total: usize) -> (r: String)
    ensures
        r@ == if total > 0 {
            "Downloading"@
        } else {
            "Idle"@
        },
{
    if total > 0 {
        owned("Downloading")
    } else {
        owned("Idle")
    }
}

/// The slot that shows a queue item; `mb` is its size in megabytes as
/// text.
pub fn queue_slot(item: &QueueItem, processing: bool, mb: String) -> (r: QueueSlot)
    ensures
        r.nzo_id@ == uuid_text(item.id),
        r.filename == item.job_name,
        r.cat == item.category,
        r.priority@ == priority_text(item.priority),
        r.status@ == if processing {
            "Downloading"@
        } else {
            "Queued"@
        },
        r.mb == mb,
        r.mbleft@ == "0.00"@,
        r.percentage@ == "100"@,
        r.timeleft@ == "0:00:00"@,
{
    QueueSlot {
        nzo_id: uuid_to_string(item.id),
        filename: item.job_name.clone(),
        cat: item.category.clone(),
        priority: priority_to_string(item.priority),
        status: if processing {
            owned("Downloading")
        } else {
            owned("Queued")
        },
        mb,
        mbleft: owned("0.00"),
        percentage: owned("100"),
        timeleft: owned("0:00:00"),
    }
}

/// The slot that shows a history item; `storage` is the WebDAV path of the
/// job's directory where it still exists.
pub fn history_slot(item: &HistoryItem, storage: Option<String>) -> (r: HistorySlot)
    ensures
        r.nzo_id@ == uuid_text(item.id),
        r.name == item.job_name,
        r.category == item.category,
        r.status@ == match item.download_status {
            DownloadStatus::Completed => "Completed"@,
            DownloadStatus::Failed => "Failed"@,
        },
        r.fail_message@ == match item.fail_message {
            Some(m) => m@,
            None => Seq::<char>::empty(),
        },
        r.bytes == item.total_segment_bytes,
        r.download_time == item.download_time_seconds,
        r.completed == item.created_at,
        r.storage@ == match storage {
            Some(s) => s@,
            None => Seq::<char>::empty(),
        },
{
    let status = match item.download_status {
        DownloadStatus::Completed => owned("Completed"),
        DownloadStatus::Failed => owned("Failed"),
    };
    let fail_message = match &item.fail_message {
        Some(m) => m.clone(),
        None => String::new(),
    };
    let storage = match storage {
        Some(s) => s,
        None => String::new(),
    };
    HistorySlot {
        nzo_id: uuid_to_string(item.id),
        name: item.job_name.clone(),
        category: item.category.clone(),
        status,
        fail_message,
        bytes: item.total_segment_bytes,
        download_time: item.download_time_seconds,
        completed: item.created_at,
        storage,
    }
}

/// The job ids of a comma-separated list, each piece trimmed; pieces that
/// are no UUID are dropped.
pub open spec fn nzo_ids_spec(pieces: Seq<Seq<char>>) -> Seq<u128>
    decreases pieces.len(),
{
    if pieces.len() == 0 {
        Seq::empty()
    } else {
        match uuid_parsed(trim_seq(pieces.last())) {
            Some(id) => nzo_ids_spec(pieces.drop_last()).push(id),
            None => nzo_ids_spec(pieces.drop_last()),
        }
    }
}

/// Reads the `nzo_ids` parameter.
pub fn parse_nzo_ids(s: &str) -> (r: Vec<u128>)
    ensures
        r@ == nzo_ids_spec(split_seq(s@, ',')),
{
    let c = str_chars(s);
    let pieces = split_chars(c.as_slice(), ',');
    let ghost sp = split_seq(s@, ',');
    let mut ids: Vec<u128> = Vec::new();
    let mut i: usize = 0;
    while i < pieces.len()
        invariant
            i <= pieces@.len(),
            pieces@.len() == sp.len(),
            forall|k: int| 0 <= k < pieces@.len() ==> #[trigger] pieces@[k]@ == sp[k],
            ids@ == nzo_ids_spec(sp.subrange(0, i as int)),
        decreases pieces@.len() - i,
    {
        assert(sp.subrange(0, i + 1).drop_last() =~= sp.subrange(0, i as int));
        let t = trim(pieces[i].as_slice());
        let ts = string_from_chars(t.as_slice());
        match uuid_try_parse(ts.as_str()) {
            Some(id) => ids.push(id),
            None => {},
        }
        i += 1;
    }
    assert(sp.subrange(0, pieces@.len() as int) =~= sp);
    ids
}

/// Which history items a listing shows.
#[derive(Debug, Clone)]
pub enum HistoryQuery {
    /// The items with these ids, looked up one by one so that no page hides
    /// them.
    ByIds(Vec<u128>),
    /// A page of the history.
    Page { offset: i64, limit: i64 },
}

/// The history items that a listing asks for: the named jobs where
/// `nzo_ids` is given, else the page that `start` and `limit` select.
pub fn history_query(nzo_ids: Option<&str>, start: Option<i64>, limit: Option<i64>) -> (r: HistoryQuery)
    ensures
        match nzo_ids {
            Some(s) => r matches HistoryQuery::ByIds(v) && v@ == nzo_ids_spec(split_seq(s@, ',')),
            None => r matches HistoryQuery::Page { offset, limit: l } && offset == (match start {
                Some(x) => x,
                None => 0,
            }) && l == (match limit {
                Some(x) => x,
                None => 50,
            }),
        },
{
    match nzo_ids {
        Some(s) => HistoryQuery::ByIds(parse_nzo_ids(s)),
        None => {
            let (offset, l) = page_bounds(start, limit);
            HistoryQuery::Page { offset, limit: l }
        },
    }
}

/// The category filter of a history request: `category`, else `cat`, in
/// lower case.
pub fn history_category_filter(category: Option<&str>, cat: Option<&str>) -> (r: Option<String>)
    ensures
        match (category, cat) {
            (Some(c), _) => r matches Some(f) && f@ == unicode_lower(c@),
            (None, Some(c)) => r matches Some(f) && f@ == unicode_lower(c@),
            (None, None) => r is None,
        },
{
    match category {
        Some(c) => Some(to_lowercase(c)),
        None => match cat {
            Some(c) => Some(to_lowercase(c)),
            None => None,
        },
    }
}

/// Whether a history item passes the category filter (compared ignoring
/// ASCII case).
pub open spec fn passes_category(item: HistoryItem, filter: Option<Seq<char>>) -> bool {
    match filter {
        None => true,
        Some(f) => ascii_lower_seq(item.category@) == ascii_lower_seq(f),
    }
}

/// The history items that pass the category filter, in order.
pub open spec fn filter_history_spec(items: Seq<HistoryItem>, filter: Option<Seq<char>>) -> Seq<
    HistoryItem,
> {
    items.filter(|i: HistoryItem| passes_category(i, filter))
}

pub fn filter_history_by_category(items: Vec<HistoryItem>, filter: Option<&str>) -> (r: Vec<HistoryItem>)
    ensures
        r@ == filter_history_spec(
            items@,
            match filter {
                Some(f) => Some(f@),
                None => None,
            },
        ),
{
    let ghost f = match filter {
        Some(f) => Some(f@),
        None => None::<Seq<char>>,
    };
    let ghost pred = |i: HistoryItem| passes_category(i, f);
    let fc: Option<Vec<char>> = match filter {
        Some(x) => Some(str_chars(x)),
        None => None,
    };
    let mut out: Vec<HistoryItem> = Vec::new();
    let mut i: usize = 0;
    while i < items.len()
        invariant
            i <= items@.len(),
            f == match filter {
                Some(f) => Some(f@),
                None => None::<Seq<char>>,
            },
            pred == |i: HistoryItem| passes_category(i, f),
            match fc {
                Some(v) => f == Some(v@),
                None => f is None,
            },
            out@ == items@.subrange(0, i as int).filter(pred),
        decreases items@.len() - i,
    {
        reveal_with_fuel(Seq::<_>::filter, 1);
        assert(items@.subrange(0, i + 1).drop_last() =~= items@.subrange(0, i as int));
        let keep = match &fc {
            None => true,
            Some(v) => {
                let c = str_chars(items[i].category.as_str());
                eq_ignore_ascii_case(c.as_slice(), v.as_slice())
            },
        };
        if keep {
            out.push(items[i].duplicate());
        }
        i += 1;
    }
    assert(items@.subrange(0, items@.len() as int) =~= items@);
    out
}

// ---------------------------------------------------------------------------
// Deleting and retrying
// ---------------------------------------------------------------------------

/// What a `queue` request asks for.
#[derive(Debug, Clone, Copy, PartialEq, Eq, Structural)]
pub enum QueueRequest {
    /// List the queue.
    List,
    /// Delete the item with this id, if any was named.
    Delete(Option<u128>),
    /// A delete that names no valid id.
    InvalidId,
}

pub open spec fn is_queue_delete(name: Option<Seq<char>>) -> bool {
    name == Some("delete"@) || name == Some("purge"@)
}

/// Reads a `queue` request from its `name` and `value` parameters.
pub fn queue_request(name: Option<&str>, value: Option<&str>) -> (r: QueueRequest)
    ensures
        r == if !is_queue_delete(
            match name {
                Some(n) => Some(n@),
                None => None,
            },
        ) {
            QueueRequest::List
        } else {
            match value {
                None => QueueRequest::Delete(None),
                Some(v) => match uuid_parsed(v@) {
                    Some(id) => QueueRequest::Delete(Some(id)),
                    None => QueueRequest::InvalidId,
                },
            }
        },
{
    let del = match name {
        Some(n) => {
            let c = str_chars(n);
            is(c.as_slice(), "delete") || is(c.as_slice(), "purge")
        },
        None => false,
    };
    if !del {
        return QueueRequest::List;
    }
    match value {
        None => QueueRequest::Delete(None),
        Some(v) => match uuid_try_parse(v) {
            Some(id) => QueueRequest::Delete(Some(id)),
            None => QueueRequest::InvalidId,
        },
    }
}

/// What a `history` request asks for.
#[derive(Debug, Clone, Copy, PartialEq, Eq, Structural)]
pub enum HistoryRequest {
    List,
    /// Delete the item with this id, if any was named.
    Delete(Option<u128>),
    DeleteAll,
    InvalidId,
}

/// Reads a `history` request from its `name` and `value` parameters.
pub fn history_request(name: Option<&str>, value: Option<&str>) -> (r: HistoryRequest)
    ensures
        r == if !(match name {
            Some(n) => n@ == "delete"@,
            None => false,
        }) {
            HistoryRequest::List
        } else {
            match value {
                None => HistoryRequest::Delete(None),
                Some(v) => if v@ == "all"@ {
                    HistoryRequest::DeleteAll
                } else {
                    match uuid_parsed(v@) {
                        Some(id) => HistoryRequest::Delete(Some(id)),
                        None => HistoryRequest::InvalidId,
                    }
                },
            }
        },
{
    let del = match name {
        Some(n) => {
            let c = str_chars(n);
            is(c.as_slice(), "delete")
        },
        None => false,
    };
    if !del {
        return HistoryRequest::List;
    }
    match value {
        None => HistoryRequest::Delete(None),
        Some(v) => {
            let c = str_chars(v);
            if is(c.as_slice(), "all") {
                HistoryRequest::DeleteAll
            } else {
                match uuid_try_parse(v) {
                    Some(id) => HistoryRequest::Delete(Some(id)),
                    None => HistoryRequest::InvalidId,
                }
            }
        },
    }
}

/// The error answer for a request that names no valid id.
pub fn invalid_id_response() -> (r: SimpleResponse)
    ensures
        is_failure(r, "invalid id"@),
{
    SimpleResponse::failure(owned("invalid id"))
}

/// Reads the id of a `retry` request.
pub fn retry_target(value: Option<&str>) -> (r: Result<u128, SimpleResponse>)
    ensures
        match value {
            None => (match r { Err(e) => is_failure(e, "value parameter (nzo_id) is required"@), Ok(_) => false }),
            Some(v) => match uuid_parsed(v@) {
                Some(id) => r == Ok::<u128, SimpleResponse>(id),
                None => (match r { Err(e) => is_failure(e, "invalid id"@), Ok(_) => false }),
            },
        },
{
    match value {
        None => Err(SimpleResponse::failure(owned("value parameter (nzo_id) is required"))),
        Some(v) => match uuid_try_parse(v) {
            Some(id) => Ok(id),
            None => Err(invalid_id_response()),
        },
    }
}

/// The outcome of looking up what a retry needs.
#[derive(Debug, Clone, Copy, PartialEq, Eq, Structural)]
pub enum RetryLookup {
    /// No history item has the id.
    NotFound,
    /// The item keeps no NZB.
    NoBlob,
    /// The item's NZB is gone from the store.
    BlobGone,
}

/// The error answer of a retry that cannot go ahead.
pub fn retry_failure(why: RetryLookup) -> (r: SimpleResponse)
    ensures
        is_failure(r, match why {
            RetryLookup::NotFound => "history item not found"@,
            RetryLookup::NoBlob => "NZB blob not available for this history item"@,
            RetryLookup::BlobGone => "NZB blob has been cleaned up and is no longer available"@,
        }),
{
    match why {
        RetryLookup::NotFound => SimpleResponse::failure(owned("history item not found")),
        RetryLookup::NoBlob => SimpleResponse::failure(
            owned("NZB blob not available for this history item"),
        ),
        RetryLookup::BlobGone => SimpleResponse::failure(
            owned("NZB blob has been cleaned up and is no longer available"),
        ),
    }
}

/// The queue item that re-queues a history item whose NZB has `nzb_len`
/// bytes, under the new id `id`, created at `now`, with priority 0.
pub fn retry_queue_item(item: &HistoryItem, nzb_len: usize, id: u128, now: i64) -> (r: QueueItem)
    ensures
        r.id == id,
        r.created_at == now,
        r.file_name == item.file_name,
        r.job_name == item.job_name,
        r.nzb_file_size == nzb_len as i64,
        r.total_segment_bytes == item.total_segment_bytes,
        r.category == item.category,
        r.priority == 0,
        r.post_processing == -1,
        r.pause_until is None,
{
    QueueItem {
        id,
        created_at: now,
        file_name: item.file_name.clone(),
        job_name: item.job_name.clone(),
        nzb_file_size: nzb_len as i64,
        total_segment_bytes: item.total_segment_bytes,
        category: item.category.clone(),
        priority: 0,
        post_processing: -1,
        pause_until: None,
    }
}

// ---------------------------------------------------------------------------
// Failures
// ---------------------------------------------------------------------------

/// The failures of the API that an outside step reports.
#[derive(Debug, Clone)]
pub enum SabFailure {
    /// `addfile` came without a multipart body.
    NoMultipart,
    /// The multipart body holds no NZB field.
    NoUpload,
    /// The upload could not be read; the text says why.
    ReadUpload(String),
    /// The NZB's URL could not be fetched.
    FetchUrl(String),
    /// The NZB's URL answered with this HTTP status.
    HttpStatus(String),
    /// The answer's body could not be read.
    ReadResponse(String),
    /// The NZB could not be stored.
    StoreNzb(String),
    /// The queue item could not be inserted.
    Enqueue(String),
    /// The database reported an error.
    Database(String),
}

/// The error text of a failure.
pub open spec fn failure_text(f: SabFailure) -> Seq<char> {
    match f {
        SabFailure::NoMultipart => "multipart body required for addfile"@,
        SabFailure::NoUpload => "no NZB file found in upload"@,
        SabFailure::ReadUpload(e) => "failed to read upload: "@ + e@,
        SabFailure::FetchUrl(e) => "failed to fetch URL: "@ + e@,
        SabFailure::HttpStatus(s) => "HTTP "@ + s@ + " fetching URL"@,
        SabFailure::ReadResponse(e) => "failed to read response: "@ + e@,
        SabFailure::StoreNzb(e) => "failed to store NZB: "@ + e@,
        SabFailure::Enqueue(e) => "failed to enqueue: "@ + e@,
        SabFailure::Database(e) => "database error: "@ + e@,
    }
}

/// The answer to a failure.
pub fn failure_response(f: &SabFailure) -> (r: SimpleResponse)
    ensures
        is_failure(r, failure_text(*f)),
{
    let text = match f {
        SabFailure::NoMultipart => owned("multipart body required for addfile"),
        SabFailure::NoUpload => owned("no NZB file found in upload"),
        SabFailure::ReadUpload(e) => concat("failed to read upload: ", e.as_str()),
        SabFailure::FetchUrl(e) => concat("failed to fetch URL: ", e.as_str()),
        SabFailure::HttpStatus(st) => {
            let mut c = str_chars("HTTP ");
            push_str(&mut c, st.as_str());
            push_str(&mut c, " fetching URL");
            string_from_chars(c.as_slice())
        },
        SabFailure::ReadResponse(e) => concat("failed to read response: ", e.as_str()),
        SabFailure::StoreNzb(e) => concat("failed to store NZB: ", e.as_str()),
        SabFailure::Enqueue(e) => concat("failed to enqueue: ", e.as_str()),
        SabFailure::Database(e) => concat("database error: ", e.as_str()),
    };
    SimpleResponse::failure(text)
}

/// Whether a multipart field carries the NZB: it is named `nzbfile` in any
/// ASCII case, or `name`.
pub fn is_nzb_upload_field(name: &str) -> (r: bool)
    ensures
        r == (ascii_lower_seq(name@) == ascii_lower_seq("nzbfile"@) || name@ == "name"@),
{
    let n = str_chars(name);
    let f = str_chars("nzbfile");
    eq_ignore_ascii_case(n.as_slice(), f.as_slice()) || is(n.as_slice(), "name")
}

} // verus!
