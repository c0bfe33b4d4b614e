//! Health checks of the files in the virtual filesystem: which articles are
//! asked for, how the answers become a verdict, and when the next check is
//! due.

use vstd::prelude::*;

use crate::models::{
    DavItem, DavMultipartFile, FilePart, HealthCheckResult, HealthResult, ItemSubType, RepairStatus,
};
use crate::store::uuid_text;
use crate::text::{decimal, push_chars, push_str, str_chars, string_from_chars, u64_to_chars};

verus! {

/// The most articles asked for in one health-check cycle.
pub const MAX_ARTICLES_PER_CYCLE: usize = 500;

/// The seconds between two scans for items that are due.
pub const CHECK_INTERVAL_SECS: u64 = 3600;

/// The outcome of checking one item.
#[derive(Debug)]
pub enum HealthCheckOutcome {
    Healthy,
    Unhealthy { missing_articles: usize, total_articles: usize },
    Error(String),
}

/// What is left of the articles that one health-check cycle may ask for.
/// Each item checked in the cycle takes its share from it, so that all the
/// checks of a cycle together ask for no more than the cycle's limit.
pub struct ArticleBudget {
    remaining: usize,
}

impl View for ArticleBudget {
    type V = nat;

    closed spec fn view(&self) -> nat {
        self.remaining as nat
    }
}

/// The smaller of two numbers.
pub open spec fn min_nat(a: nat, b: nat) -> nat {
    if a <= b {
        a
    } else {
        b
    }
}

/// The articles granted in all by successive takes of `wants` from a
/// budget with `left` articles.
pub open spec fn granted_total(left: nat, wants: Seq<nat>) -> nat
    decreases wants.len(),
{
    if wants.len() == 0 {
        0
    } else {
        let g = min_nat(left, wants[0]);
        g + granted_total((left - g) as nat, wants.drop_first())
    }
}

/// What is left of a budget with `left` articles after successive takes of
/// `wants`.
pub open spec fn left_after(left: nat, wants: Seq<nat>) -> nat
    decreases wants.len(),
{
    if wants.len() == 0 {
        left
    } else {
        let g = min_nat(left, wants[0]);
        left_after((left - g) as nat, wants.drop_first())
    }
}

impl ArticleBudget {
    /// The budget of one cycle: `MAX_ARTICLES_PER_CYCLE` articles.
    pub fn per_cycle() -> (r: ArticleBudget)
        ensures
            r@ == MAX_ARTICLES_PER_CYCLE,
    {
        ArticleBudget { remaining: MAX_ARTICLES_PER_CYCLE }
    }

    /// The articles not yet given out.
    pub fn remaining(&self) -> (r: usize)
        ensures
            r == self@,
    {
        self.remaining
    }

    /// Gives out up to `wanted` articles: all of them where enough are
    /// left, else what is left.
    pub fn take(&mut self, wanted: usize) -> (granted: usize)
        ensures
            granted == min_nat(old(self)@, wanted as nat),
            final(self)@ == old(self)@ - granted,
    {
        let granted = if wanted <= self.remaining {
            wanted
        } else {
            self.remaining
        };
        self.remaining = self.remaining - granted;
        granted
    }
}

/// Whatever an item asks for, successive takes from a budget grant no more
/// than the budget held: what is granted and what is left add up to the
/// budget, so a cycle never asks for more than its limit.
pub proof fn lemma_cycle_budget(left: nat, wants: Seq<nat>)
    ensures
        granted_total(left, wants) + left_after(left, wants) == left,
        granted_total(left, wants) <= left,
    decreases wants.len(),
{
    if wants.len() > 0 {
        let g = min_nat(left, wants[0]);
        lemma_cycle_budget((left - g) as nat, wants.drop_first());
    }
}

/// The articles of an item that one check asks for: the first `max`.
pub fn articles_to_check(segment_ids: &[String], max: usize) -> (r: Vec<String>)
    ensures
        r@ == segment_ids@.take(if segment_ids@.len() < max { segment_ids@.len() as int } else { max as int }),
{
    let n = if segment_ids.len() < max {
        segment_ids.len()
    } else {
        max
    };
    let mut out: Vec<String> = Vec::new();
    let mut i: usize = 0;
    while i < n
        invariant
            n <= segment_ids@.len(),
            i <= n,
            out@ == segment_ids@.take(i as int),
        decreases n - i,
    {
        out.push(segment_ids[i].clone());
        i += 1;
        assert(out@ =~= segment_ids@.take(i as int));
    }
    out
}

/// The position of the first article whose check failed.
pub open spec fn first_failure(checked: Seq<(String, Result<bool, String>)>) -> Option<int>
    decreases checked.len(),
{
    if checked.len() == 0 {
        None
    } else {
        match first_failure(checked.drop_last()) {
            Some(i) => Some(i),
            None => if checked.last().1 is Err {
                Some(checked.len() - 1)
            } else {
                None
            },
        }
    }
}

/// The number of articles reported missing.
pub open spec fn missing_count(checked: Seq<(String, Result<bool, String>)>) -> nat
    decreases checked.len(),
{
    if checked.len() == 0 {
        0
    } else {
        missing_count(checked.drop_last()) + if checked.last().1 == Ok::<bool, String>(false) {
            1nat
        } else {
            0nat
        }
    }
}

/// The text of a failed article check.
pub open spec fn stat_failure_text(id: Seq<char>, error: Seq<char>) -> Seq<char> {
    "STAT failed for "@ + id + ": "@ + error
}

/// The outcome of a check of an item with `total` articles, from the answers
/// for the articles asked for (article id and whether it exists, or the
/// error): the first failure decides; else the item is healthy where no
/// article is missing.
pub fn health_outcome(total: usize, checked: &[(String, Result<bool, String>)]) -> (r: HealthCheckOutcome)
    ensures
        match first_failure(checked@) {
            Some(i) => r matches HealthCheckOutcome::Error(m) && (checked@[i].1 matches Err(e)
                && m@ == stat_failure_text(checked@[i].0@, e@)),
            None => if missing_count(checked@) == 0 {
                r is Healthy
            } else {
                r matches HealthCheckOutcome::Unhealthy { missing_articles, total_articles }
                    && missing_articles == missing_count(checked@) && total_articles == total
            },
        },
{
    let mut missing: usize = 0;
    let mut i: usize = 0;
    while i < checked.len()
        invariant
            i <= checked@.len(),
            first_failure(checked@.subrange(0, i as int)) is None,
            missing as nat == missing_count(checked@.subrange(0, i as int)),
            missing <= i,
        decreases checked@.len() - i,
    {
        assert(checked@.subrange(0, i + 1).drop_last() =~= checked@.subrange(0, i as int));
        match &checked[i].1 {
            Ok(true) => {},
            Ok(false) => {
                missing += 1;
            },
            Err(e) => {
                proof {
                    lemma_first_failure_prefix(checked@, i as int + 1);
                }
                let mut m = str_chars("STAT failed for ");
                push_str(&mut m, checked[i].0.as_str());
                push_str(&mut m, ": ");
                push_str(&mut m, e.as_str());
                return HealthCheckOutcome::Error(string_from_chars(m.as_slice()));
            },
        }
        i += 1;
    }
    assert(checked@.subrange(0, checked@.len() as int) =~= checked@);
    if missing == 0 {
        HealthCheckOutcome::Healthy
    } else {
        HealthCheckOutcome::Unhealthy { missing_articles: missing, total_articles: total }
    }
}

proof fn lemma_first_failure_prefix(s: Seq<(String, Result<bool, String>)>, n: int)
    requires
        0 < n <= s.len(),
        first_failure(s.subrange(0, n - 1)) is None,
        s[n - 1].1 is Err,
    ensures
        first_failure(s) == Some(n - 1),
    decreases s.len(),
{
    if n < s.len() {
        assert(s.drop_last().subrange(0, n - 1) =~= s.subrange(0, n - 1));
        lemma_first_failure_prefix(s.drop_last(), n);
    } else {
        assert(s.drop_last() =~= s.subrange(0, n - 1));
    }
}

/// The verdict and message that a check records.
pub open spec fn record_of(outcome: HealthCheckOutcome) -> (HealthResult, Seq<char>) {
    match outcome {
        HealthCheckOutcome::Healthy => (HealthResult::Healthy, "All articles available"@),
        HealthCheckOutcome::Unhealthy { missing_articles, total_articles } => (
            HealthResult::Unhealthy,
            decimal(missing_articles as nat) + "/"@ + decimal(total_articles as nat)
                + " articles missing"@,
        ),
        HealthCheckOutcome::Error(m) => (HealthResult::Unhealthy, m@),
    }
}

/// The verdict and message that a check records.
pub fn health_record(outcome: &HealthCheckOutcome) -> (r: (HealthResult, String))
    ensures
        r.0 == record_of(*outcome).0,
        r.1@ == record_of(*outcome).1,
{
    match outcome {
        HealthCheckOutcome::Healthy => (HealthResult::Healthy, "All articles available".to_owned()),
        HealthCheckOutcome::Unhealthy { missing_articles, total_articles } => {
            let mut m = u64_to_chars(*missing_articles as u64);
            push_str(&mut m, "/");
            let t = u64_to_chars(*total_articles as u64);
            push_chars(&mut m, t.as_slice());
            push_str(&mut m, " articles missing");
            (HealthResult::Unhealthy, string_from_chars(m.as_slice()))
        },
        HealthCheckOutcome::Error(msg) => (HealthResult::Unhealthy, msg.clone()),
    }
}

/// How many healthy checks in a row the outcome counts for.
pub fn consecutive_healthy_count(outcome: &HealthCheckOutcome) -> (r: u32)
    ensures
        r == if outcome is Healthy {
            1u32
        } else {
            0u32
        },
{
    match outcome {
        HealthCheckOutcome::Healthy => 1,
        _ => 0,
    }
}

/// Two to the power `n`.
pub open spec fn two_to(n: nat) -> nat
    decreases n,
{
    if n == 0 {
        1
    } else {
        2 * two_to((n - 1) as nat)
    }
}

/// The hours until the next check: 24 hours doubled per healthy check in a
/// row, at most four times.
pub open spec fn backoff_spec(count: u32) -> int {
    (24 * two_to(if count < 4 {
        count as nat
    } else {
        4
    })) as int
}

pub fn backoff_hours(count: u32) -> (r: i64)
    ensures
        r == backoff_spec(count),
{
    reveal_with_fuel(two_to, 5);
    match count {
        0 => 24,
        1 => 48,
        2 => 96,
        3 => 192,
        _ => 384,
    }
}

/// The seconds of the longest wait between two checks.
pub open spec fn max_backoff_secs() -> int {
    384int * 3600
}

/// What one check of an item records: its timestamps and its result row.
#[derive(Debug)]
pub struct CheckRecord {
    pub last_check: i64,
    pub next_check: i64,
    pub result: HealthCheckResult,
}

/// The record of checking `item` at `now` (seconds) with the given outcome;
/// `id` identifies the result row.
pub fn check_record(item: &DavItem, outcome: &HealthCheckOutcome, id: u128, now: i64) -> (r: CheckRecord)
    requires
        now <= i64::MAX - max_backoff_secs(),
    ensures
        r.last_check == now,
        r.next_check == now + backoff_spec(if outcome is Healthy { 1u32 } else { 0u32 }) * 3600,
        r.result.id == id,
        r.result.dav_item_id == item.id,
        r.result.path == item.path,
        r.result.created_at == now,
        r.result.result == record_of(*outcome).0,
        r.result.repair_status == RepairStatus::NoRepair,
        r.result.message@ == record_of(*outcome).1,
{
    let (verdict, message) = health_record(outcome);
    let count = consecutive_healthy_count(outcome);
    let hours = backoff_hours(count);
    assert(hours <= 384) by {
        reveal_with_fuel(two_to, 5);
    }
    let next = now + hours * 3600;
    CheckRecord {
        last_check: now,
        next_check: next,
        result: HealthCheckResult {
            id,
            dav_item_id: item.id,
            path: item.path.clone(),
            created_at: now,
            result: verdict,
            repair_status: RepairStatus::NoRepair,
            message,
        },
    }
}

/// How an item's file blob is laid out.
#[derive(Debug, Clone, Copy, PartialEq, Eq, Structural)]
pub enum BlobLayout {
    /// A `DavNzbFile`: one list of segments.
    Nzb,
    /// A `DavMultipartFile`: a list of parts, each with its segments.
    Multipart,
}

/// The name that `Debug` gives a role.
pub open spec fn sub_type_name(t: ItemSubType) -> Seq<char> {
    match t {
        ItemSubType::Directory => "Directory"@,
        ItemSubType::WebdavRoot => "WebdavRoot"@,
        ItemSubType::NzbsRoot => "NzbsRoot"@,
        ItemSubType::ContentRoot => "ContentRoot"@,
        ItemSubType::SymlinkRoot => "SymlinkRoot"@,
        ItemSubType::IdsRoot => "IdsRoot"@,
        ItemSubType::NzbFile => "NzbFile"@,
        ItemSubType::RarFile => "RarFile"@,
        ItemSubType::MultipartFile => "MultipartFile"@,
        ItemSubType::ReadmeFile => "ReadmeFile"@,
    }
}

pub fn sub_type_debug_name(t: ItemSubType) -> (r: &'static str)
    ensures
        r@ == sub_type_name(t),
{
    match t {
        ItemSubType::Directory => "Directory",
        ItemSubType::WebdavRoot => "WebdavRoot",
        ItemSubType::NzbsRoot => "NzbsRoot",
        ItemSubType::ContentRoot => "ContentRoot",
        ItemSubType::SymlinkRoot => "SymlinkRoot",
        ItemSubType::IdsRoot => "IdsRoot",
        ItemSubType::NzbFile => "NzbFile",
        ItemSubType::RarFile => "RarFile",
        ItemSubType::MultipartFile => "MultipartFile",
        ItemSubType::ReadmeFile => "ReadmeFile",
    }
}

/// The file blob of an item to check, or why there is none.
pub fn check_blob_id(item: &DavItem) -> (r: Result<u128, String>)
    ensures
        match item.file_blob_id {
            Some(b) => r == Ok::<u128, String>(b),
            None => r matches Err(e) && e@ == "item has no file_blob_id"@,
        },
{
    match item.file_blob_id {
        Some(b) => Ok(b),
        None => Err("item has no file_blob_id".to_owned()),
    }
}

/// The text of a blob that could not be read.
pub fn blob_read_error(blob_id: u128, error: &str) -> (r: String)
    ensures
        r@ == "failed to read blob "@ + uuid_text(blob_id) + ": "@ + error@,
{
    let mut m = str_chars("failed to read blob ");
    let id = crate::store::uuid_to_chars(blob_id);
    push_chars(&mut m, id.as_slice());
    push_str(&mut m, ": ");
    push_str(&mut m, error);
    string_from_chars(m.as_slice())
}

/// How the blob of an item of the given role is read for a check; other
/// roles have no articles to check.
pub fn blob_layout(sub_type: ItemSubType) -> (r: Result<BlobLayout, String>)
    ensures
        match sub_type {
            ItemSubType::NzbFile | ItemSubType::RarFile => r == Ok::<BlobLayout, String>(BlobLayout::Nzb),
            ItemSubType::MultipartFile => r == Ok::<BlobLayout, String>(BlobLayout::Multipart),
            _ => r matches Err(e) && e@ == "unsupported sub_type for health check: "@ + sub_type_name(
                sub_type,
            ),
        },
{
    match sub_type {
        ItemSubType::NzbFile | ItemSubType::RarFile => Ok(BlobLayout::Nzb),
        ItemSubType::MultipartFile => Ok(BlobLayout::Multipart),
        _ => {
            let mut m = str_chars("unsupported sub_type for health check: ");
            push_str(&mut m, sub_type_debug_name(sub_type));
            Err(string_from_chars(m.as_slice()))
        },
    }
}

/// The text of a blob that does not decode.
pub fn blob_decode_error(sub_type: ItemSubType, error: &str) -> (r: String)
    ensures
        r@ == "failed to deserialize "@ + sub_type_name(sub_type) + " blob: "@ + error@,
{
    let mut m = str_chars("failed to deserialize ");
    push_str(&mut m, sub_type_debug_name(sub_type));
    push_str(&mut m, " blob: ");
    push_str(&mut m, error);
    string_from_chars(m.as_slice())
}

/// The segments of the parts, part after part.
pub open spec fn all_segment_ids(parts: Seq<FilePart>) -> Seq<String>
    decreases parts.len(),
{
    if parts.len() == 0 {
        Seq::empty()
    } else {
        all_segment_ids(parts.drop_last()) + parts.last().segment_ids@
    }
}

/// The articles of a multipart file, part after part.
pub fn multipart_segment_ids(file: &DavMultipartFile) -> (r: Vec<String>)
    ensures
        r@ == all_segment_ids(file.file_parts@),
{
    let parts = &file.file_parts;
    let mut out: Vec<String> = Vec::new();
    let mut i: usize = 0;
    while i < parts.len()
        invariant
            i <= parts@.len(),
            out@ == all_segment_ids(parts@.subrange(0, i as int)),
        decreases parts@.len() - i,
    {
        assert(parts@.subrange(0, i + 1).drop_last() =~= parts@.subrange(0, i as int));
        let ids = &parts[i].segment_ids;
        let ghost base = out@;
        let mut j: usize = 0;
        while j < ids.len()
            invariant
                j <= ids@.len(),
                out@ == base + ids@.take(j as int),
            decreases ids@.len() - j,
        {
            out.push(ids[j].clone());
            j += 1;
            assert(out@ =~= base + ids@.take(j as int));
        }
        assert(ids@.take(ids@.len() as int) =~= ids@);
        i += 1;
    }
    assert(parts@.subrange(0, parts@.len() as int) =~= parts@);
    out
}

/// An item is recorded healthy exactly when its check found no missing
/// article and no failure, and only then is the next check put off beyond
/// one day.
pub proof fn lemma_healthy_verdict(outcome: HealthCheckOutcome)
    ensures
        (record_of(outcome).0 == HealthResult::Healthy) <==> (outcome is Healthy),
        backoff_spec(if outcome is Healthy { 1u32 } else { 0u32 }) == if outcome is Healthy {
            48int
        } else {
            24int
        },
{
    reveal_with_fuel(two_to, 3);
}

} // verus!
