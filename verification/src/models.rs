//! The data model of the virtual filesystem, the queue and the history.
//!
//! Identifiers are held as their 128-bit values and points in time as whole
//! seconds since the Unix epoch (UTC); the database stores both at that
//! precision.

use vstd::prelude::*;

use crate::text::{decimal_int, i64_to_chars, push_chars, str_chars, string_from_chars};

verus! {

/// The error text for a code that names no variant: `"{what}: {value}"`.
pub open spec fn invalid_code_message(what: Seq<char>, value: i32) -> Seq<char> {
    what + ": "@ + decimal_int(value as int)
}

fn invalid_code(what: &str, value: i32) -> (r: String)
    ensures
        r@ == invalid_code_message(what@, value),
{
    let mut v = str_chars(what);
    let sep = str_chars(": ");
    push_chars(&mut v, sep.as_slice());
    let digits = i64_to_chars(value as i64);
    push_chars(&mut v, digits.as_slice());
    string_from_chars(v.as_slice())
}

/// Which enumeration a database number was read for.
#[derive(Debug, Clone, Copy, PartialEq, Eq, Structural)]
pub enum CodeKind {
    ItemType,
    ItemSubType,
    DownloadStatus,
}

impl CodeKind {
    pub open spec fn label(self) -> Seq<char> {
        match self {
            CodeKind::ItemType => "invalid ItemType"@,
            CodeKind::ItemSubType => "invalid ItemSubType"@,
            CodeKind::DownloadStatus => "invalid DownloadStatus"@,
        }
    }
}

/// A database number that stands for no variant of the enumeration `kind`.
#[derive(Debug, Clone, Copy, PartialEq, Eq, Structural)]
pub struct InvalidCode {
    pub kind: CodeKind,
    pub value: i32,
}

impl InvalidCode {
    /// The error text, such as `invalid ItemType: 7`.
    pub fn message(&self) -> (r: String)
        ensures
            r@ == invalid_code_message(self.kind.label(), self.value),
    {
        match self.kind {
            CodeKind::ItemType => invalid_code("invalid ItemType", self.value),
            CodeKind::ItemSubType => invalid_code("invalid ItemSubType", self.value),
            CodeKind::DownloadStatus => invalid_code("invalid DownloadStatus", self.value),
        }
    }
}

// ---------------------------------------------------------------------------
// Item kinds
// ---------------------------------------------------------------------------

/// Whether a node of the virtual filesystem is a directory or a file.
#[derive(Debug, Clone, Copy, PartialEq, Eq, Structural)]
pub enum ItemType {
    Directory,
    UsenetFile,
}

impl ItemType {
    /// The number that stands for the kind in the database.
    pub open spec fn code(self) -> i32 {
        match self {
            ItemType::Directory => 1,
            ItemType::UsenetFile => 2,
        }
    }

    pub open spec fn from_code(v: i32) -> Option<ItemType> {
        if v == 1 {
            Some(ItemType::Directory)
        } else if v == 2 {
            Some(ItemType::UsenetFile)
        } else {
            None
        }
    }

    pub fn to_i32(&self) -> (r: i32)
        ensures
            r == self.code(),
    {
        match self {
            ItemType::Directory => 1,
            ItemType::UsenetFile => 2,
        }
    }

    pub open spec fn parse_code(v: i32) -> Result<ItemType, InvalidCode> {
        match ItemType::from_code(v) {
            Some(t) => Ok(t),
            None => Err(InvalidCode { kind: CodeKind::ItemType, value: v }),
        }
    }

    /// The kind with database number `value`, or the error for it.
    pub fn from_i32(value: i32) -> (r: Result<ItemType, InvalidCode>)
        ensures
            r == ItemType::parse_code(value),
    {
        if value == 1 {
            Ok(ItemType::Directory)
        } else if value == 2 {
            Ok(ItemType::UsenetFile)
        } else {
            Err(InvalidCode { kind: CodeKind::ItemType, value })
        }
    }

    /// Reading back the number of a kind gives the kind, and no two kinds
    /// share a number.
    pub proof fn lemma_code_roundtrip(t: ItemType, v: i32)
        ensures
            ItemType::from_code(t.code()) == Some(t),
            ItemType::from_code(v) matches Some(u) ==> u.code() == v,
    {
    }
}

impl TryFrom<i32> for ItemType {
    type Error = InvalidCode;

    fn try_from(value: i32) -> (r: Result<Self, Self::Error>) {
        ItemType::from_i32(value)
    }
}

impl vstd::std_specs::convert::TryFromSpecImpl<i32> for ItemType {
    open spec fn obeys_try_from_spec() -> bool {
        true
    }

    open spec fn try_from_spec(v: i32) -> Result<Self, InvalidCode> {
        ItemType::parse_code(v)
    }
}

// ---------------------------------------------------------------------------

/// The role of a node of the virtual filesystem.
#[derive(Debug, Clone, Copy, PartialEq, Eq, Structural)]
pub enum ItemSubType {
    Directory,
    WebdavRoot,
    NzbsRoot,
    ContentRoot,
    SymlinkRoot,
    IdsRoot,
    NzbFile,
    RarFile,
    MultipartFile,
    ReadmeFile,
}

impl ItemSubType {
    /// The number that stands for the role in the database.
    pub open spec fn code(self) -> i32 {
        match self {
            ItemSubType::Directory => 101,
            ItemSubType::WebdavRoot => 102,
            ItemSubType::NzbsRoot => 103,
            ItemSubType::ContentRoot => 104,
            ItemSubType::SymlinkRoot => 105,
            ItemSubType::IdsRoot => 106,
            ItemSubType::NzbFile => 201,
            ItemSubType::RarFile => 202,
            ItemSubType::MultipartFile => 203,
            ItemSubType::ReadmeFile => 204,
        }
    }

    pub open spec fn from_code(v: i32) -> Option<ItemSubType> {
        if v == 101 {
            Some(ItemSubType::Directory)
        } else if v == 102 {
            Some(ItemSubType::WebdavRoot)
        } else if v == 103 {
            Some(ItemSubType::NzbsRoot)
        } else if v == 104 {
            Some(ItemSubType::ContentRoot)
        } else if v == 105 {
            Some(ItemSubType::SymlinkRoot)
        } else if v == 106 {
            Some(ItemSubType::IdsRoot)
        } else if v == 201 {
            Some(ItemSubType::NzbFile)
        } else if v == 202 {
            Some(ItemSubType::RarFile)
        } else if v == 203 {
            Some(ItemSubType::MultipartFile)
        } else if v == 204 {
            Some(ItemSubType::ReadmeFile)
        } else {
            None
        }
    }

    pub open spec fn parse_code(v: i32) -> Result<ItemSubType, InvalidCode> {
        match ItemSubType::from_code(v) {
            Some(t) => Ok(t),
            None => Err(InvalidCode { kind: CodeKind::ItemSubType, value: v }),
        }
    }

    pub fn to_i32(&self) -> (r: i32)
        ensures
            r == self.code(),
    {
        match self {
            ItemSubType::Directory => 101,
            ItemSubType::WebdavRoot => 102,
            ItemSubType::NzbsRoot => 103,
            ItemSubType::ContentRoot => 104,
            ItemSubType::SymlinkRoot => 105,
            ItemSubType::IdsRoot => 106,
            ItemSubType::NzbFile => 201,
            ItemSubType::RarFile => 202,
            ItemSubType::MultipartFile => 203,
            ItemSubType::ReadmeFile => 204,
        }
    }

    /// The role with database number `value`, or the error for it.
    pub fn from_i32(value: i32) -> (r: Result<ItemSubType, InvalidCode>)
        ensures
            r == ItemSubType::parse_code(value),
    {
        match value {
            101 => Ok(ItemSubType::Directory),
            102 => Ok(ItemSubType::WebdavRoot),
            103 => Ok(ItemSubType::NzbsRoot),
            104 => Ok(ItemSubType::ContentRoot),
            105 => Ok(ItemSubType::SymlinkRoot),
            106 => Ok(ItemSubType::IdsRoot),
            201 => Ok(ItemSubType::NzbFile),
            202 => Ok(ItemSubType::RarFile),
            203 => Ok(ItemSubType::MultipartFile),
            204 => Ok(ItemSubType::ReadmeFile),
            _ => Err(InvalidCode { kind: CodeKind::ItemSubType, value }),
        }
    }

    /// Reading back the number of a role gives the role, and no two roles
    /// share a number.
    pub proof fn lemma_code_roundtrip(t: ItemSubType, v: i32)
        ensures
            ItemSubType::from_code(t.code()) == Some(t),
            ItemSubType::from_code(v) matches Some(u) ==> u.code() == v,
    {
    }
}

impl TryFrom<i32> for ItemSubType {
    type Error = InvalidCode;

    fn try_from(value: i32) -> (r: Result<Self, Self::Error>) {
        ItemSubType::from_i32(value)
    }
}

impl vstd::std_specs::convert::TryFromSpecImpl<i32> for ItemSubType {
    open spec fn obeys_try_from_spec() -> bool {
        true
    }

    open spec fn try_from_spec(v: i32) -> Result<Self, InvalidCode> {
        ItemSubType::parse_code(v)
    }
}

/// How a queued job ended.
#[derive(Debug, Clone, Copy, PartialEq, Eq, Structural)]
pub enum DownloadStatus {
    Completed,
    Failed,
}

impl DownloadStatus {
    pub open spec fn code(self) -> i32 {
        match self {
            DownloadStatus::Completed => 1,
            DownloadStatus::Failed => 2,
        }
    }

    pub open spec fn from_code(v: i32) -> Option<DownloadStatus> {
        if v == 1 {
            Some(DownloadStatus::Completed)
        } else if v == 2 {
            Some(DownloadStatus::Failed)
        } else {
            None
        }
    }

    pub open spec fn parse_code(v: i32) -> Result<DownloadStatus, InvalidCode> {
        match DownloadStatus::from_code(v) {
            Some(t) => Ok(t),
            None => Err(InvalidCode { kind: CodeKind::DownloadStatus, value: v }),
        }
    }

    pub fn to_i32(&self) -> (r: i32)
        ensures
            r == self.code(),
    {
        match self {
            DownloadStatus::Completed => 1,
            DownloadStatus::Failed => 2,
        }
    }

    /// The status with database number `value`, or the error for it.
    pub fn from_i32(value: i32) -> (r: Result<DownloadStatus, InvalidCode>)
        ensures
            r == DownloadStatus::parse_code(value),
    {
        if value == 1 {
            Ok(DownloadStatus::Completed)
        } else if value == 2 {
            Ok(DownloadStatus::Failed)
        } else {
            Err(InvalidCode { kind: CodeKind::DownloadStatus, value })
        }
    }

    /// Reading back the number of a status gives the status.
    pub proof fn lemma_code_roundtrip(t: DownloadStatus, v: i32)
        ensures
            DownloadStatus::from_code(t.code()) == Some(t),
            DownloadStatus::from_code(v) matches Some(u) ==> u.code() == v,
    {
    }
}

impl TryFrom<i32> for DownloadStatus {
    type Error = InvalidCode;

    fn try_from(value: i32) -> (r: Result<Self, Self::Error>) {
        DownloadStatus::from_i32(value)
    }
}

impl vstd::std_specs::convert::TryFromSpecImpl<i32> for DownloadStatus {
    open spec fn obeys_try_from_spec() -> bool {
        true
    }

    open spec fn try_from_spec(v: i32) -> Result<Self, InvalidCode> {
        DownloadStatus::parse_code(v)
    }
}

/// The verdict of one health check.
#[derive(Debug, Clone, Copy, PartialEq, Eq, Structural)]
pub enum HealthResult {
    Healthy,
    Unhealthy,
}

impl HealthResult {
    pub open spec fn code(self) -> i32 {
        match self {
            HealthResult::Healthy => 0,
            HealthResult::Unhealthy => 1,
        }
    }

    pub fn to_i32(&self) -> (r: i32)
        ensures
            r == self.code(),
    {
        match self {
            HealthResult::Healthy => 0,
            HealthResult::Unhealthy => 1,
        }
    }
}

/// What was done about an unhealthy item.
#[derive(Debug, Clone, Copy, PartialEq, Eq, Structural)]
pub enum RepairStatus {
    NoRepair,
    Repaired,
    Deleted,
    ActionNeeded,
}

impl RepairStatus {
    pub open spec fn code(self) -> i32 {
        match self {
            RepairStatus::NoRepair => 0,
            RepairStatus::Repaired => 1,
            RepairStatus::Deleted => 2,
            RepairStatus::ActionNeeded => 3,
        }
    }

    pub fn to_i32(&self) -> (r: i32)
        ensures
            r == self.code(),
    {
        match self {
            RepairStatus::NoRepair => 0,
            RepairStatus::Repaired => 1,
            RepairStatus::Deleted => 2,
            RepairStatus::ActionNeeded => 3,
        }
    }
}

// ---------------------------------------------------------------------------
// Byte ranges of file parts
// ---------------------------------------------------------------------------

/// A half-open range `start..end` of byte offsets.
#[derive(Debug, Clone, Copy, PartialEq, Eq, Structural)]
pub struct LongRange {
    pub start: i64,
    pub end: i64,
}

impl LongRange {
    pub fn new(start: i64, end: i64) -> (r: LongRange)
        ensures
            r.start == start,
            r.end == end,
    {
        LongRange { start, end }
    }

    /// The range of `size` bytes from `start`.
    pub fn from_start_and_size(start: i64, size: i64) -> (r: LongRange)
        requires
            i64::MIN <= start + size <= i64::MAX,
        ensures
            r.start == start,
            r.end == start + size,
    {
        LongRange { start, end: start + size }
    }

    /// The number of bytes in the range.
    pub fn size(&self) -> (r: i64)
        requires
            i64::MIN <= self.end - self.start <= i64::MAX,
        ensures
            r == self.end - self.start,
    {
        self.end - self.start
    }

    pub open spec fn spec_contains(self, value: int) -> bool {
        self.start <= value < self.end
    }

    /// Whether `value` lies in the range; the end is excluded.
    pub fn contains(&self, value: i64) -> (r: bool)
        ensures
            r == self.spec_contains(value as int),
    {
        value >= self.start && value < self.end
    }

    /// A range built from a start and a size holds exactly the `size`
    /// offsets from the start.
    pub proof fn lemma_from_start_and_size(start: i64, size: i64, value: int)
        requires
            i64::MIN <= start + size <= i64::MAX,
        ensures
            (LongRange { start, end: (start + size) as i64 }).spec_contains(value) <==> start
                <= value < start + size,
    {
    }
}

// ---------------------------------------------------------------------------
// Records
// ---------------------------------------------------------------------------

/// A node of the virtual filesystem.
#[derive(Debug, Clone)]
pub struct DavItem {
    pub id: u128,
    pub id_prefix: String,
    pub created_at: i64,
    pub parent_id: Option<u128>,
    pub name: String,
    pub file_size: Option<i64>,
    pub item_type: ItemType,
    pub sub_type: ItemSubType,
    pub path: String,
    pub release_date: Option<i64>,
    pub last_health_check: Option<i64>,
    pub next_health_check: Option<i64>,
    pub history_item_id: Option<u128>,
    pub file_blob_id: Option<u128>,
    pub nzb_blob_id: Option<u128>,
}

impl DavItem {
    /// A copy of the item.
    pub fn duplicate(&self) -> (r: DavItem)
        ensures
            r == *self,
    {
        DavItem {
            id: self.id,
            id_prefix: self.id_prefix.clone(),
            created_at: self.created_at,
            parent_id: self.parent_id,
            name: self.name.clone(),
            file_size: self.file_size,
            item_type: self.item_type,
            sub_type: self.sub_type,
            path: self.path.clone(),
            release_date: self.release_date,
            last_health_check: self.last_health_check,
            next_health_check: self.next_health_check,
            history_item_id: self.history_item_id,
            file_blob_id: self.file_blob_id,
            nzb_blob_id: self.nzb_blob_id,
        }
    }
}

/// The segment list of a plain file (stored as a blob).
#[derive(Debug, Clone)]
pub struct DavNzbFile {
    pub segment_ids: Vec<String>,
}

/// The parts of a file extracted from archives (stored as a blob).
#[derive(Debug, Clone)]
pub struct DavMultipartFile {
    pub aes_params: Option<AesParams>,
    pub file_parts: Vec<FilePart>,
}

/// One part of a multipart file.
#[derive(Debug, Clone)]
pub struct FilePart {
    pub segment_ids: Vec<String>,
    pub segment_id_byte_range: LongRange,
    pub file_part_byte_range: LongRange,
}

/// The parameters of an encrypted multipart file.
#[derive(Debug, Clone)]
pub struct AesParams {
    pub iv: Vec<u8>,
    pub key: Vec<u8>,
    pub decoded_size: i64,
}

/// A job waiting in the queue.
#[derive(Debug, Clone)]
pub struct QueueItem {
    pub id: u128,
    pub created_at: i64,
    pub file_name: String,
    pub job_name: String,
    pub nzb_file_size: i64,
    pub total_segment_bytes: i64,
    pub category: String,
    pub priority: i32,
    pub post_processing: i32,
    pub pause_until: Option<i64>,
}

/// A finished job.
#[derive(Debug, Clone)]
pub struct HistoryItem {
    pub id: u128,
    pub created_at: i64,
    pub file_name: String,
    pub job_name: String,
    pub category: String,
    pub download_status: DownloadStatus,
    pub total_segment_bytes: i64,
    pub download_time_seconds: i32,
    pub fail_message: Option<String>,
    pub download_dir_id: Option<u128>,
    pub nzb_blob_id: Option<u128>,
}

fn clone_opt_string(s: &Option<String>) -> (r: Option<String>)
    ensures
        r == *s,
{
    match s {
        Some(x) => Some(x.clone()),
        None => None,
    }
}

impl QueueItem {
    /// A copy of the item.
    pub fn duplicate(&self) -> (r: QueueItem)
        ensures
            r == *self,
    {
        QueueItem {
            id: self.id,
            created_at: self.created_at,
            file_name: self.file_name.clone(),
            job_name: self.job_name.clone(),
            nzb_file_size: self.nzb_file_size,
            total_segment_bytes: self.total_segment_bytes,
            category: self.category.clone(),
            priority: self.priority,
            post_processing: self.post_processing,
            pause_until: self.pause_until,
        }
    }
}

impl HistoryItem {
    /// A copy of the item.
    pub fn duplicate(&self) -> (r: HistoryItem)
        ensures
            r == *self,
    {
        HistoryItem {
            id: self.id,
            created_at: self.created_at,
            file_name: self.file_name.clone(),
            job_name: self.job_name.clone(),
            category: self.category.clone(),
            download_status: self.download_status,
            total_segment_bytes: self.total_segment_bytes,
            download_time_seconds: self.download_time_seconds,
            fail_message: clone_opt_string(&self.fail_message),
            download_dir_id: self.download_dir_id,
            nzb_blob_id: self.nzb_blob_id,
        }
    }
}

/// The record of one health check.
#[derive(Debug, Clone)]
pub struct HealthCheckResult {
    pub id: u128,
    pub dav_item_id: u128,
    pub path: String,
    pub created_at: i64,
    pub result: HealthResult,
    pub repair_status: RepairStatus,
    pub message: String,
}

} // verus!
