//! The queue manager's state and decisions: which jobs run, what their
//! outcome does to the queue and the history, and the status it reports.

use vstd::prelude::*;

use crate::models::{DownloadStatus, HistoryItem, QueueItem};
use crate::text::{push_str, str_chars, string_from_chars};
use std::collections::HashSet;

verus! {

broadcast use vstd::std_specs::hash::group_hash_axioms;

/// The seconds a job waits after an error that may go away.
pub const RETRY_PAUSE_SECS: i64 = 60;

/// The seconds between two polls of the queue.
pub const POLL_INTERVAL_SECS: u64 = 3;

/// The live status of the queue processing loop.
#[derive(Debug)]
pub struct QueueStatus {
    pub is_processing: bool,
    pub current_job: Option<String>,
    /// The jobs being processed.
    pub active_ids: HashSet<u128>,
    pub items_processed: u64,
    pub last_error: Option<String>,
}

impl QueueStatus {
    /// The set of jobs being processed.
    pub open spec fn active_set(self) -> Set<u128> {
        self.active_ids@
    }

    /// The status before any job ran.
    pub fn new() -> (r: QueueStatus)
        ensures
            !r.is_processing,
            r.current_job is None,
            r.active_set() == Set::<u128>::empty(),
            r.items_processed == 0,
            r.last_error is None,
    {
        QueueStatus {
            is_processing: false,
            current_job: None,
            active_ids: HashSet::new(),
            items_processed: 0,
            last_error: None,
        }
    }

    /// A job starts: it is the current job and is active.
    pub fn start_job(&mut self, id: u128, job_name: String)
        ensures
            final(self).is_processing,
            final(self).current_job == Some(job_name),
            final(self).active_set() == old(self).active_set().insert(id),
            final(self).items_processed == old(self).items_processed,
            final(self).last_error == old(self).last_error,
    {
        self.is_processing = true;
        self.current_job = Some(job_name);
        self.active_ids.insert(id);
    }

    /// A job is done: it is no longer active.
    pub fn finish_job(&mut self, id: u128)
        ensures
            final(self).active_set() == old(self).active_set().remove(id),
            final(self).is_processing == old(self).is_processing,
            final(self).current_job == old(self).current_job,
            final(self).items_processed == old(self).items_processed,
            final(self).last_error == old(self).last_error,
    {
        self.active_ids.remove(&id);
    }

    /// Whether the job is being processed.
    pub fn is_active(&self, id: u128) -> (r: bool)
        ensures
            r == self.active_set().contains(id),
    {
        self.active_ids.contains(&id)
    }

    /// No job is running: the status is idle.
    pub fn set_idle(&mut self)
        ensures
            !final(self).is_processing,
            final(self).current_job is None,
            final(self).active_set() == Set::<u128>::empty(),
            final(self).items_processed == old(self).items_processed,
            final(self).last_error == old(self).last_error,
    {
        self.is_processing = false;
        self.current_job = None;
        self.active_ids.clear();
    }

    /// A job was processed: one more is counted and the last error is
    /// cleared.
    pub fn record_success(&mut self)
        requires
            old(self).items_processed < u64::MAX,
        ensures
            final(self).items_processed == old(self).items_processed + 1,
            final(self).last_error is None,
            final(self).is_processing == old(self).is_processing,
            final(self).current_job == old(self).current_job,
            final(self).active_set() == old(self).active_set(),
    {
        self.items_processed = self.items_processed + 1;
        self.last_error = None;
    }

    /// A job failed with the given error text.
    pub fn record_error(&mut self, message: String)
        ensures
            final(self).last_error == Some(message),
            final(self).items_processed == old(self).items_processed,
            final(self).is_processing == old(self).is_processing,
            final(self).current_job == old(self).current_job,
            final(self).active_set() == old(self).active_set(),
    {
        self.last_error = Some(message);
    }
}

/// A job that starts and then finishes leaves the set of active jobs as it
/// was, where it was not active before.
pub proof fn lemma_finish_undoes_start(active: Set<u128>, id: u128)
    requires
        !active.contains(id),
    ensures
        active.insert(id).remove(id) == active,
{
    assert(active.insert(id).remove(id) =~= active);
}

/// Whether another job may start while `active` jobs run.
pub fn can_start_job(active: usize, max_concurrent: usize) -> (r: bool)
    ensures
        r == (active < max_concurrent),
{
    active < max_concurrent
}

/// What happened since the queue loop last decided.
#[derive(Debug)]
pub enum LoopEvent {
    /// Time to look for work.
    Poll,
    /// The fetch that the loop asked for found this job, or none.
    Fetched(Option<u128>),
    /// The task of this job has ended.
    Finished(u128),
    /// Shutdown was asked for.
    Cancelled,
}

/// What the queue loop does next.
#[derive(Debug)]
pub enum LoopAction {
    /// Fetch the next job, leaving out these running jobs.
    Fetch(Vec<u128>),
    /// Start a task for this job.
    Start(u128),
    /// Wait for a task to end, a poll or shutdown.
    Wait,
    /// Return: shutdown was asked for and no task runs.
    Stop,
}

/// The decisions of the queue loop: which jobs run, what is fetched next,
/// and when the loop may return. The loop around it performs the actions
/// and hands back what came of them.
pub struct QueueLoop {
    running: Vec<u128>,
    max: usize,
    cancelled: bool,
}

impl QueueLoop {
    #[verifier::type_invariant]
    spec fn well_formed(self) -> bool {
        self.running@.len() <= self.max && self.running@.no_duplicates()
    }

    /// The jobs whose tasks run.
    pub closed spec fn running_set(self) -> Set<u128> {
        self.running@.to_set()
    }

    /// The number of tasks that run.
    pub closed spec fn running_count(self) -> nat {
        self.running@.len()
    }

    /// The most tasks that may run at once.
    pub closed spec fn limit(self) -> nat {
        self.max as nat
    }

    /// Whether shutdown was asked for.
    pub closed spec fn is_cancelled(self) -> bool {
        self.cancelled
    }

    /// No task runs yet; at most `max` may run at once.
    pub fn new(max: usize) -> (r: QueueLoop)
        ensures
            r.running_set() == Set::<u128>::empty(),
            r.running_count() == 0,
            r.limit() == max,
            !r.is_cancelled(),
    {
        let r = QueueLoop { running: Vec::new(), max, cancelled: false };
        assert(r.running@.to_set() =~= Set::<u128>::empty());
        r
    }

    /// The number of tasks that run, never more than the limit.
    pub fn running(&self) -> (r: usize)
        ensures
            r == self.running_count(),
            r <= self.limit(),
    {
        proof {
            use_type_invariant(self);
        }
        self.running.len()
    }

    /// Whether the task of `id` runs, and where it stands in the list.
    fn position(&self, id: u128) -> (r: Option<usize>)
        ensures
            match r {
                Some(k) => k < self.running@.len() && self.running@[k as int] == id,
                None => !self.running@.contains(id),
            },
    {
        let mut k: usize = 0;
        while k < self.running.len()
            invariant
                k <= self.running@.len(),
                forall|j: int| 0 <= j < k ==> self.running@[j] != id,
            decreases self.running@.len() - k,
        {
            if self.running[k] == id {
                return Some(k);
            }
            k += 1;
        }
        None
    }

    /// The ids of the running jobs, in a list without repeats.
    fn running_ids(&self) -> (r: Vec<u128>)
        ensures
            r@ == self.running@,
    {
        let mut out: Vec<u128> = Vec::new();
        let mut k: usize = 0;
        while k < self.running.len()
            invariant
                k <= self.running@.len(),
                out@ == self.running@.subrange(0, k as int),
            decreases self.running@.len() - k,
        {
            out.push(self.running[k]);
            k += 1;
            assert(out@ =~= self.running@.subrange(0, k as int));
        }
        assert(self.running@.subrange(0, self.running@.len() as int) =~= self.running@);
        out
    }

    /// The loop's next step after `ev`. A fetch leaves out exactly the
    /// running jobs; a job starts only while fewer than the limit run and
    /// only where it does not run already; the loop stops only once
    /// shutdown was asked for and no task runs; and at no point do more
    /// tasks run than the limit.
    pub fn step(&mut self, ev: LoopEvent) -> (a: LoopAction)
        ensures
            final(self).limit() == old(self).limit(),
            final(self).running_count() <= final(self).limit(),
            final(self).running_count() == final(self).running_set().len(),
            match ev {
                LoopEvent::Poll => {
                    &&& final(self).running_set() == old(self).running_set()
                    &&& final(self).is_cancelled() == old(self).is_cancelled()
                    &&& if old(self).is_cancelled() {
                        if old(self).running_count() == 0 {
                            a is Stop
                        } else {
                            a is Wait
                        }
                    } else if old(self).running_count() < old(self).limit() {
                        a matches LoopAction::Fetch(v) && v@.to_set() == old(self).running_set()
                            && v@.no_duplicates()
                    } else {
                        a is Wait
                    }
                },
                LoopEvent::Fetched(Some(id)) => {
                    &&& final(self).is_cancelled() == old(self).is_cancelled()
                    &&& if !old(self).is_cancelled() && old(self).running_count() < old(
                        self,
                    ).limit() && !old(self).running_set().contains(id) {
                        a == LoopAction::Start(id) && final(self).running_set() == old(
                            self,
                        ).running_set().insert(id)
                    } else {
                        a is Wait && final(self).running_set() == old(self).running_set()
                    }
                },
                LoopEvent::Fetched(None) => {
                    &&& a is Wait
                    &&& final(self).running_set() == old(self).running_set()
                    &&& final(self).is_cancelled() == old(self).is_cancelled()
                },
                LoopEvent::Finished(id) => {
                    &&& final(self).running_set() == old(self).running_set().remove(id)
                    &&& final(self).is_cancelled() == old(self).is_cancelled()
                    &&& if old(self).is_cancelled() && final(self).running_count() == 0 {
                        a is Stop
                    } else {
                        a is Wait
                    }
                },
                LoopEvent::Cancelled => {
                    &&& final(self).is_cancelled()
                    &&& final(self).running_set() == old(self).running_set()
                    &&& if old(self).running_count() == 0 {
                        a is Stop
                    } else {
                        a is Wait
                    }
                },
            },
            a is Stop ==> final(self).is_cancelled() && final(self).running_count() == 0,
    {
        proof {
            use_type_invariant(&*self);
            self.running@.unique_seq_to_set();
        }
        match ev {
            LoopEvent::Poll => {
                if self.cancelled {
                    if self.running.len() == 0 {
                        LoopAction::Stop
                    } else {
                        LoopAction::Wait
                    }
                } else if can_start_job(self.running.len(), self.max) {
                    LoopAction::Fetch(self.running_ids())
                } else {
                    LoopAction::Wait
                }
            },
            LoopEvent::Fetched(Some(id)) => {
                if !self.cancelled && can_start_job(self.running.len(), self.max) {
                    match self.position(id) {
                        Some(_) => {
                            proof {
                                assert(self.running@.to_set().contains(id));
                            }
                            LoopAction::Wait
                        },
                        None => {
                            let ghost before = self.running@;
                            let mut v = self.running_ids();
                            v.push(id);
                            proof {
                                assert(v@ == before.push(id));
                                assert(v@.no_duplicates()) by {
                                    assert forall|i: int, j: int|
                                        0 <= i < j < v@.len() implies v@[i]
                                        != v@[j] by {
                                        if j == before.len() {
                                            assert(before.contains(before[i]));
                                        }
                                    }
                                }
                                assert(v@.to_set() =~= before.to_set().insert(id)) by {
                                    assert forall|x: u128| v@.contains(x) <==> before.contains(x) || x == id by {
                                        if v@.contains(x) && x != id {
                                            let k = choose|k: int| 0 <= k < v@.len() && v@[k] == x;
                                            assert(before[k] == x);
                                        }
                                        if x == id {
                                            assert(v@[before.len() as int] == id);
                                        }
                                        if before.contains(x) {
                                            let k = choose|k: int| 0 <= k < before.len() && before[k] == x;
                                            assert(v@[k] == x);
                                        }
                                    }
                                }
                            }
                            self.running = v;
                            proof {
                                self.running@.unique_seq_to_set();
                            }
                            LoopAction::Start(id)
                        },
                    }
                } else {
                    LoopAction::Wait
                }
            },
            LoopEvent::Fetched(None) => LoopAction::Wait,
            LoopEvent::Finished(id) => {
                match self.position(id) {
                    Some(k) => {
                        let ghost before = self.running@;
                        let mut v = self.running_ids();
                        v.remove(k);
                        proof {
                            assert(v@ == before.remove(k as int));
                            assert(v@.no_duplicates()) by {
                                assert forall|i: int, j: int|
                                    0 <= i < j < v@.len() implies v@[i]
                                    != v@[j] by {
                                    let bi = if i < k { i } else { i + 1 };
                                    let bj = if j < k { j } else { j + 1 };
                                    assert(v@[i] == before[bi]);
                                    assert(v@[j] == before[bj]);
                                }
                            }
                            assert(v@.to_set() =~= before.to_set().remove(id)) by {
                                assert forall|x: u128| v@.contains(x) <==> before.contains(x) && x != id by {
                                    if v@.contains(x) {
                                        let j = choose|j: int| 0 <= j < v@.len() && v@[j] == x;
                                        let bj = if j < k { j } else { j + 1 };
                                        assert(before[bj] == x);
                                        assert(bj != k);
                                    }
                                    if before.contains(x) && x != id {
                                        let j = choose|j: int| 0 <= j < before.len() && before[j] == x;
                                        assert(j != k);
                                        if j < k {
                                            assert(v@[j] == x);
                                        } else {
                                            assert(v@[j - 1] == x);
                                        }
                                    }
                                }
                            }
                        }
                        self.running = v;
                        proof {
                            self.running@.unique_seq_to_set();
                        }
                    },
                    None => {
                        proof {
                            assert(self.running@.to_set().remove(id) =~= self.running@.to_set());
                        }
                    },
                }
                if self.cancelled && self.running.len() == 0 {
                    LoopAction::Stop
                } else {
                    LoopAction::Wait
                }
            },
            LoopEvent::Cancelled => {
                self.cancelled = true;
                if self.running.len() == 0 {
                    LoopAction::Stop
                } else {
                    LoopAction::Wait
                }
            },
        }
    }
}

/// What a job's processing came to.
#[derive(Debug)]
pub enum ProcessEvent {
    /// The job's NZB could not be read; the text says why.
    NzbMissing(String),
    /// The job's files were created under the directory with this id.
    Processed { job_dir_id: u128 },
    /// Processing failed; a retryable error may go away.
    Failed { message: String, retryable: bool },
}

/// What the queue manager does once a job's processing is over.
#[derive(Debug)]
pub enum QueueAction {
    /// Move the job to the history with this status.
    ToHistory { status: DownloadStatus, fail_message: Option<String>, download_dir_id: Option<u128> },
    /// Leave the job in the queue, paused for `RETRY_PAUSE_SECS`.
    PauseForRetry,
}

/// The text of a job whose NZB is missing.
pub open spec fn nzb_missing_text(e: Seq<char>) -> Seq<char> {
    "NZB blob not found: "@ + e
}

/// The step after processing a job.
pub fn after_processing(event: &ProcessEvent) -> (r: QueueAction)
    ensures
        match *event {
            ProcessEvent::NzbMissing(e) => r matches QueueAction::ToHistory {
                status,
                fail_message,
                download_dir_id,
            } && status == DownloadStatus::Failed && (fail_message matches Some(m) && m@
                == nzb_missing_text(e@)) && download_dir_id is None,
            ProcessEvent::Processed { job_dir_id } => r matches QueueAction::ToHistory {
                status,
                fail_message,
                download_dir_id,
            } && status == DownloadStatus::Completed && fail_message is None && download_dir_id
                == Some(job_dir_id),
            ProcessEvent::Failed { message, retryable } => if retryable {
                r is PauseForRetry
            } else {
                r matches QueueAction::ToHistory { status, fail_message, download_dir_id }
                    && status == DownloadStatus::Failed && fail_message == Some(message)
                    && download_dir_id is None
            },
        },
{
    match event {
        ProcessEvent::NzbMissing(e) => {
            let mut m = str_chars("NZB blob not found: ");
            push_str(&mut m, e.as_str());
            QueueAction::ToHistory {
                status: DownloadStatus::Failed,
                fail_message: Some(string_from_chars(m.as_slice())),
                download_dir_id: None,
            }
        },
        ProcessEvent::Processed { job_dir_id } => QueueAction::ToHistory {
            status: DownloadStatus::Completed,
            fail_message: None,
            download_dir_id: Some(*job_dir_id),
        },
        ProcessEvent::Failed { message, retryable } => {
            if *retryable {
                QueueAction::PauseForRetry
            } else {
                QueueAction::ToHistory {
                    status: DownloadStatus::Failed,
                    fail_message: Some(message.clone()),
                    download_dir_id: None,
                }
            }
        },
    }
}

/// When a paused job may run again.
pub fn retry_pause_until(now: i64) -> (r: i64)
    requires
        now <= i64::MAX - RETRY_PAUSE_SECS,
    ensures
        r == now + RETRY_PAUSE_SECS,
{
    now + RETRY_PAUSE_SECS
}

/// The history item of a finished job, created at `now`; its NZB keeps the
/// job's id.
pub fn history_from_queue(
    item: &QueueItem,
    status: DownloadStatus,
    fail_message: Option<String>,
    download_dir_id: Option<u128>,
    now: i64,
) -> (r: HistoryItem)
    ensures
        r.id == item.id,
        r.created_at == now,
        r.file_name == item.file_name,
        r.job_name == item.job_name,
        r.category == item.category,
        r.download_status == status,
        r.total_segment_bytes == item.total_segment_bytes,
        r.download_time_seconds == 0,
        r.fail_message == fail_message,
        r.download_dir_id == download_dir_id,
        r.nzb_blob_id == Some(item.id),
{
    HistoryItem {
        id: item.id,
        created_at: now,
        file_name: item.file_name.clone(),
        job_name: item.job_name.clone(),
        category: item.category.clone(),
        download_status: status,
        total_segment_bytes: item.total_segment_bytes,
        download_time_seconds: 0,
        fail_message,
        download_dir_id,
        nzb_blob_id: Some(item.id),
    }
}

} // verus!
