//! Database rows and the records of the model: reading the stored text of
//! identifiers, times and codes back into items.

use vstd::prelude::*;

use crate::bindings::{
    naive_datetime_parsed, parse_naive_datetime, parse_rfc3339, rfc3339_parsed, uuid_parsed,
    uuid_try_parse,
};
use crate::models::{
    DavItem, DownloadStatus, HistoryItem, InvalidCode, ItemSubType, ItemType, QueueItem,
};
use crate::text::{
    decimal, is_suffix, push_chars, push_str, str_chars, string_from_chars, u64_to_chars,
};

verus! {

/// The format of the times that the database stores.
pub fn sql_time_format() -> (r: &'static str)
    ensures
        r@ == "%Y-%m-%d %H:%M:%S"@,
{
    "%Y-%m-%d %H:%M:%S"
}

/// Why a row does not read as a record.
#[derive(Debug, Clone, Copy, PartialEq, Eq, Structural)]
pub enum RowError {
    /// An identifier column holds no UUID.
    BadId,
    /// A time column does not parse.
    BadTime,
    /// A code column holds no known code.
    BadCode(InvalidCode),
}

/// A row of the `dav_items` table.
#[derive(Debug, Clone)]
pub struct DavItemRow {
    pub id: String,
    pub id_prefix: String,
    pub created_at: String,
    pub parent_id: Option<String>,
    pub name: String,
    pub file_size: Option<i64>,
    pub item_type: i32,
    pub sub_type: i32,
    pub path: String,
    pub release_date: Option<String>,
    pub last_health_check: Option<String>,
    pub next_health_check: Option<String>,
    pub history_item_id: Option<String>,
    pub file_blob_id: Option<String>,
    pub nzb_blob_id: Option<String>,
}

/// A row of the `queue_items` table.
#[derive(Debug, Clone)]
pub struct QueueItemRow {
    pub id: String,
    pub created_at: String,
    pub file_name: String,
    pub job_name: String,
    pub nzb_file_size: i64,
    pub total_segment_bytes: i64,
    pub category: String,
    pub priority: i32,
    pub post_processing: i32,
    pub pause_until: Option<String>,
}

/// A row of the `history_items` table.
#[derive(Debug, Clone)]
pub struct HistoryItemRow {
    pub id: String,
    pub created_at: String,
    pub file_name: String,
    pub job_name: String,
    pub category: String,
    pub download_status: i32,
    pub total_segment_bytes: i64,
    pub download_time_seconds: i32,
    pub fail_message: Option<String>,
    pub download_dir_id: Option<String>,
    pub nzb_blob_id: Option<String>,
}

/// An identifier column.
pub open spec fn id_of(s: String) -> Result<u128, RowError> {
    match uuid_parsed(s@) {
        Some(x) => Ok(x),
        None => Err(RowError::BadId),
    }
}

/// An identifier column that may be empty.
pub open spec fn opt_id_of(o: Option<String>) -> Result<Option<u128>, RowError> {
    match o {
        None => Ok(None),
        Some(s) => match uuid_parsed(s@) {
            Some(x) => Ok(Some(x)),
            None => Err(RowError::BadId),
        },
    }
}

/// A time column in the database's own format.
pub open spec fn time_of(s: String) -> Result<i64, RowError> {
    match naive_datetime_parsed(s@, "%Y-%m-%d %H:%M:%S"@) {
        Some(t) => Ok(t),
        None => Err(RowError::BadTime),
    }
}

/// A time column in that format that may be empty.
pub open spec fn opt_time_of(o: Option<String>) -> Result<Option<i64>, RowError> {
    match o {
        None => Ok(None),
        Some(s) => match naive_datetime_parsed(s@, "%Y-%m-%d %H:%M:%S"@) {
            Some(t) => Ok(Some(t)),
            None => Err(RowError::BadTime),
        },
    }
}

/// An RFC 3339 time column that may be empty.
pub open spec fn opt_rfc3339_of(o: Option<String>) -> Result<Option<i64>, RowError> {
    match o {
        None => Ok(None),
        Some(s) => match rfc3339_parsed(s@) {
            Some(t) => Ok(Some(t)),
            None => Err(RowError::BadTime),
        },
    }
}

/// The item that a row holds, or the first column (in the order of the
/// table) that does not read.
pub open spec fn dav_item_of_row(r: DavItemRow) -> Result<DavItem, RowError> {
    match (id_of(r.id), time_of(r.created_at), opt_id_of(r.parent_id)) {
        (Err(e), _, _) => Err(e),
        (Ok(_), Err(e), _) => Err(e),
        (Ok(_), Ok(_), Err(e)) => Err(e),
        (Ok(id), Ok(created_at), Ok(parent_id)) => match (
            ItemType::parse_code(r.item_type),
            ItemSubType::parse_code(r.sub_type),
        ) {
            (Err(e), _) => Err(RowError::BadCode(e)),
            (Ok(_), Err(e)) => Err(RowError::BadCode(e)),
            (Ok(item_type), Ok(sub_type)) => match (
                opt_rfc3339_of(r.release_date),
                opt_rfc3339_of(r.last_health_check),
                opt_rfc3339_of(r.next_health_check),
            ) {
                (Err(e), _, _) => Err(e),
                (Ok(_), Err(e), _) => Err(e),
                (Ok(_), Ok(_), Err(e)) => Err(e),
                (Ok(release_date), Ok(last_health_check), Ok(next_health_check)) => match (
                    opt_id_of(r.history_item_id),
                    opt_id_of(r.file_blob_id),
                    opt_id_of(r.nzb_blob_id),
                ) {
                    (Err(e), _, _) => Err(e),
                    (Ok(_), Err(e), _) => Err(e),
                    (Ok(_), Ok(_), Err(e)) => Err(e),
                    (Ok(history_item_id), Ok(file_blob_id), Ok(nzb_blob_id)) => Ok(
                        DavItem {
                            id,
                            id_prefix: r.id_prefix,
                            created_at,
                            parent_id,
                            name: r.name,
                            file_size: r.file_size,
                            item_type,
                            sub_type,
                            path: r.path,
                            release_date,
                            last_health_check,
                            next_health_check,
                            history_item_id,
                            file_blob_id,
                            nzb_blob_id,
                        },
                    ),
                },
            },
        },
    }
}

fn read_id(s: &String) -> (r: Result<u128, RowError>)
    ensures
        r == id_of(*s),
{
    match uuid_try_parse(s.as_str()) {
        Some(x) => Ok(x),
        None => Err(RowError::BadId),
    }
}

fn read_opt_id(o: &Option<String>) -> (r: Result<Option<u128>, RowError>)
    ensures
        r == opt_id_of(*o),
{
    match o {
        None => Ok(None),
        Some(s) => match uuid_try_parse(s.as_str()) {
            Some(x) => Ok(Some(x)),
            None => Err(RowError::BadId),
        },
    }
}

fn read_time(s: &String) -> (r: Result<i64, RowError>)
    ensures
        r == time_of(*s),
{
    match parse_naive_datetime(s.as_str(), sql_time_format()) {
        Some(t) => Ok(t),
        None => Err(RowError::BadTime),
    }
}

fn read_opt_time(o: &Option<String>) -> (r: Result<Option<i64>, RowError>)
    ensures
        r == opt_time_of(*o),
{
    match o {
        None => Ok(None),
        Some(s) => match parse_naive_datetime(s.as_str(), sql_time_format()) {
            Some(t) => Ok(Some(t)),
            None => Err(RowError::BadTime),
        },
    }
}

fn read_opt_rfc3339(o: &Option<String>) -> (r: Result<Option<i64>, RowError>)
    ensures
        r == opt_rfc3339_of(*o),
{
    match o {
        None => Ok(None),
        Some(s) => match parse_rfc3339(s.as_str()) {
            Some(t) => Ok(Some(t)),
            None => Err(RowError::BadTime),
        },
    }
}

/// Reads a row of the `dav_items` table.
pub fn dav_item_from_row(row: DavItemRow) -> (r: Result<DavItem, RowError>)
    ensures
        r == dav_item_of_row(row),
{
    let id = match read_id(&row.id) {
        Ok(x) => x,
        Err(e) => return Err(e),
    };
    let created_at = match read_time(&row.created_at) {
        Ok(x) => x,
        Err(e) => return Err(e),
    };
    let parent_id = match read_opt_id(&row.parent_id) {
        Ok(x) => x,
        Err(e) => return Err(e),
    };
    let item_type = match ItemType::from_i32(row.item_type) {
        Ok(x) => x,
        Err(e) => return Err(RowError::BadCode(e)),
    };
    let sub_type = match ItemSubType::from_i32(row.sub_type) {
        Ok(x) => x,
        Err(e) => return Err(RowError::BadCode(e)),
    };
    let release_date = match read_opt_rfc3339(&row.release_date) {
        Ok(x) => x,
        Err(e) => return Err(e),
    };
    let last_health_check = match read_opt_rfc3339(&row.last_health_check) {
        Ok(x) => x,
        Err(e) => return Err(e),
    };
    let next_health_check = match read_opt_rfc3339(&row.next_health_check) {
        Ok(x) => x,
        Err(e) => return Err(e),
    };
    let history_item_id = match read_opt_id(&row.history_item_id) {
        Ok(x) => x,
        Err(e) => return Err(e),
    };
    let file_blob_id = match read_opt_id(&row.file_blob_id) {
        Ok(x) => x,
        Err(e) => return Err(e),
    };
    let nzb_blob_id = match read_opt_id(&row.nzb_blob_id) {
        Ok(x) => x,
        Err(e) => return Err(e),
    };
    Ok(
        DavItem {
            id,
            id_prefix: row.id_prefix,
            created_at,
            parent_id,
            name: row.name,
            file_size: row.file_size,
            item_type,
            sub_type,
            path: row.path,
            release_date,
            last_health_check,
            next_health_check,
            history_item_id,
            file_blob_id,
            nzb_blob_id,
        },
    )
}

/// The queue item that a row holds, or the first column that does not
/// read.
pub open spec fn queue_item_of_row(r: QueueItemRow) -> Result<QueueItem, RowError> {
    match (id_of(r.id), time_of(r.created_at), opt_time_of(r.pause_until)) {
        (Err(e), _, _) => Err(e),
        (Ok(_), Err(e), _) => Err(e),
        (Ok(_), Ok(_), Err(e)) => Err(e),
        (Ok(id), Ok(created_at), Ok(pause_until)) => Ok(
            QueueItem {
                id,
                created_at,
                file_name: r.file_name,
                job_name: r.job_name,
                nzb_file_size: r.nzb_file_size,
                total_segment_bytes: r.total_segment_bytes,
                category: r.category,
                priority: r.priority,
                post_processing: r.post_processing,
                pause_until,
            },
        ),
    }
}

/// Reads a row of the `queue_items` table.
pub fn queue_item_from_row(row: QueueItemRow) -> (r: Result<QueueItem, RowError>)
    ensures
        r == queue_item_of_row(row),
{
    let id = match read_id(&row.id) {
        Ok(x) => x,
        Err(e) => return Err(e),
    };
    let created_at = match read_time(&row.created_at) {
        Ok(x) => x,
        Err(e) => return Err(e),
    };
    let pause_until = match read_opt_time(&row.pause_until) {
        Ok(x) => x,
        Err(e) => return Err(e),
    };
    Ok(
        QueueItem {
            id,
            created_at,
            file_name: row.file_name,
            job_name: row.job_name,
            nzb_file_size: row.nzb_file_size,
            total_segment_bytes: row.total_segment_bytes,
            category: row.category,
            priority: row.priority,
            post_processing: row.post_processing,
            pause_until,
        },
    )
}

/// The history item that a row holds, or the first column that does not
/// read.
pub open spec fn history_item_of_row(r: HistoryItemRow) -> Result<HistoryItem, RowError> {
    match (id_of(r.id), time_of(r.created_at), DownloadStatus::parse_code(r.download_status)) {
        (Err(e), _, _) => Err(e),
        (Ok(_), Err(e), _) => Err(e),
        (Ok(_), Ok(_), Err(e)) => Err(RowError::BadCode(e)),
        (Ok(id), Ok(created_at), Ok(download_status)) => match (
            opt_id_of(r.download_dir_id),
            opt_id_of(r.nzb_blob_id),
        ) {
            (Err(e), _) => Err(e),
            (Ok(_), Err(e)) => Err(e),
            (Ok(download_dir_id), Ok(nzb_blob_id)) => Ok(
                HistoryItem {
                    id,
                    created_at,
                    file_name: r.file_name,
                    job_name: r.job_name,
                    category: r.category,
                    download_status,
                    total_segment_bytes: r.total_segment_bytes,
                    download_time_seconds: r.download_time_seconds,
                    fail_message: r.fail_message,
                    download_dir_id,
                    nzb_blob_id,
                },
            ),
        },
    }
}

/// Reads a row of the `history_items` table.
pub fn history_item_from_row(row: HistoryItemRow) -> (r: Result<HistoryItem, RowError>)
    ensures
        r == history_item_of_row(row),
{
    let id = match read_id(&row.id) {
        Ok(x) => x,
        Err(e) => return Err(e),
    };
    let created_at = match read_time(&row.created_at) {
        Ok(x) => x,
        Err(e) => return Err(e),
    };
    let download_status = match DownloadStatus::from_i32(row.download_status) {
        Ok(x) => x,
        Err(e) => return Err(RowError::BadCode(e)),
    };
    let download_dir_id = match read_opt_id(&row.download_dir_id) {
        Ok(x) => x,
        Err(e) => return Err(e),
    };
    let nzb_blob_id = match read_opt_id(&row.nzb_blob_id) {
        Ok(x) => x,
        Err(e) => return Err(e),
    };
    Ok(
        HistoryItem {
            id,
            created_at,
            file_name: row.file_name,
            job_name: row.job_name,
            category: row.category,
            download_status,
            total_segment_bytes: row.total_segment_bytes,
            download_time_seconds: row.download_time_seconds,
            fail_message: row.fail_message,
            download_dir_id,
            nzb_blob_id,
        },
    )
}

/// The numbered placeholders `?1, ?2, …, ?n`.
pub open spec fn placeholders(n: nat) -> Seq<char>
    decreases n,
{
    if n == 0 {
        Seq::empty()
    } else if n == 1 {
        "?1"@
    } else {
        placeholders((n - 1) as nat) + ", ?"@ + decimal(n)
    }
}

/// The placeholders of `n` excluded ids in a query.
pub fn exclusion_placeholders(n: usize) -> (r: String)
    ensures
        r@ == placeholders(n as nat),
{
    let mut c: Vec<char> = Vec::new();
    let mut i: usize = 0;
    while i < n
        invariant
            i <= n,
            c@ == placeholders(i as nat),
        decreases n - i,
    {
        if i == 0 {
            push_str(&mut c, "?1");
        } else {
            push_str(&mut c, ", ?");
            let d = u64_to_chars((i + 1) as u64);
            push_chars(&mut c, d.as_slice());
        }
        i += 1;
    }
    string_from_chars(c.as_slice())
}

/// The columns of the queue table, in order.
pub open spec fn queue_columns() -> Seq<char> {
    "id, created_at, file_name, job_name, nzb_file_size, total_segment_bytes, category, priority, post_processing, pause_until"@
}

/// The query for the next queued job to run: not paused (or paused until
/// now or earlier), not among the `excluded` ids, highest priority first,
/// then oldest first.
pub open spec fn next_queue_item_sql_spec(excluded: nat) -> Seq<char> {
    if excluded == 0 {
        "SELECT "@ + queue_columns()
            + " FROM queue_items WHERE pause_until IS NULL OR pause_until <= datetime('now') ORDER BY priority DESC, created_at ASC LIMIT 1"@
    } else {
        "SELECT "@ + queue_columns()
            + " FROM queue_items WHERE (pause_until IS NULL OR pause_until <= datetime('now')) AND id NOT IN ("@
            + placeholders(excluded)
            + ") ORDER BY priority DESC, created_at ASC LIMIT 1"@
    }
}

/// The next job is picked by priority, the highest first, then by age, the
/// oldest first, whether or not running jobs are left out: the query ends
/// with that order and asks for one row.
pub proof fn lemma_next_job_order(excluded: nat)
    ensures
        is_suffix(" ORDER BY priority DESC, created_at ASC LIMIT 1"@, next_queue_item_sql_spec(excluded)),
{
    let tail = " ORDER BY priority DESC, created_at ASC LIMIT 1"@;
    let s = next_queue_item_sql_spec(excluded);
    reveal_strlit(" ORDER BY priority DESC, created_at ASC LIMIT 1");
    reveal_strlit(") ORDER BY priority DESC, created_at ASC LIMIT 1");
    reveal_strlit(" FROM queue_items WHERE pause_until IS NULL OR pause_until <= datetime('now') ORDER BY priority DESC, created_at ASC LIMIT 1");
    assert(s.subrange(s.len() - tail.len(), s.len() as int) =~= tail);
}

pub fn next_queue_item_sql(excluded: usize) -> (r: String)
    ensures
        r@ == next_queue_item_sql_spec(excluded as nat),
{
    let mut c = str_chars("SELECT ");
    push_str(
        &mut c,
        "id, created_at, file_name, job_name, nzb_file_size, total_segment_bytes, category, priority, post_processing, pause_until",
    );
    if excluded == 0 {
        push_str(
            &mut c,
            " FROM queue_items WHERE pause_until IS NULL OR pause_until <= datetime('now') ORDER BY priority DESC, created_at ASC LIMIT 1",
        );
    } else {
        push_str(
            &mut c,
            " FROM queue_items WHERE (pause_until IS NULL OR pause_until <= datetime('now')) AND id NOT IN (",
        );
        let p = exclusion_placeholders(excluded);
        push_str(&mut c, p.as_str());
        push_str(&mut c, ") ORDER BY priority DESC, created_at ASC LIMIT 1");
    }
    string_from_chars(c.as_slice())
}

} // verus!
