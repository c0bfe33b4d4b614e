use nzbdav::logs::{captures_level, level_name, LogBuffer, LogLevel, LogLine, MessageVisitor, MAX_LOG_LINES};
use nzbdav::queue::{
    after_processing, can_start_job, history_from_queue, retry_pause_until, LoopAction, LoopEvent,
    ProcessEvent, QueueAction, QueueLoop, QueueStatus,
};
use nzbdav::models::{DownloadStatus, QueueItem};
use nzbdav::ws::{log_event, queue_event, WsEvent};

fn line(i: usize) -> LogLine {
    LogLine {
        timestamp: "12:00:00".to_string(),
        level: "INFO".to_string(),
        target: "t".to_string(),
        message: format!("m{i}"),
    }
}

#[test]
fn buffer_keeps_the_last_lines() {
    let mut b = LogBuffer::new();
    for i in 0..(MAX_LOG_LINES + 20) {
        b.push(line(i));
    }
    let all = b.get_all();
    assert_eq!(all.len(), MAX_LOG_LINES);
    assert_eq!(all[0].message, "m20");
    assert_eq!(all[MAX_LOG_LINES - 1].message, format!("m{}", MAX_LOG_LINES + 19));
}

#[test]
fn only_info_and_above_are_captured() {
    let mut b = LogBuffer::new();
    assert!(!b.capture(LogLevel::Debug, "t", "quiet", "12:00:00"));
    assert!(!b.capture(LogLevel::Trace, "t", "quiet", "12:00:00"));
    assert!(b.capture(LogLevel::Warn, "nzbdav", "loud", "12:00:01"));
    let all = b.get_all();
    assert_eq!(all.len(), 1);
    assert_eq!(all[0].level, "WARN");
    assert_eq!(all[0].target, "nzbdav");
    assert_eq!(all[0].message, "loud");
    assert!(captures_level(LogLevel::Error));
    assert!(captures_level(LogLevel::Info));
    assert_eq!(level_name(LogLevel::Trace), "TRACE");
}

#[test]
fn event_fields_follow_the_message() {
    let mut v = MessageVisitor::new();
    v.record("count", "3".to_string());
    v.record("message", "found stuck items".to_string());
    v.record("instance", "sonarr".to_string());
    assert_eq!(v.text(), "found stuck items count=3 instance=sonarr");
}

fn queued() -> QueueItem {
    QueueItem {
        id: 5,
        created_at: 100,
        file_name: "a.nzb".to_string(),
        job_name: "a".to_string(),
        nzb_file_size: 10,
        total_segment_bytes: 1000,
        category: "tv".to_string(),
        priority: 1,
        post_processing: -1,
        pause_until: None,
    }
}

#[test]
fn status_follows_the_jobs() {
    let mut s = QueueStatus::new();
    s.start_job(1, "one".to_string());
    s.start_job(2, "two".to_string());
    s.start_job(2, "two".to_string());
    assert!(s.is_processing);
    assert_eq!(s.current_job.as_deref(), Some("two"));
    assert_eq!(s.active_ids.len(), 2);
    s.finish_job(1);
    assert_eq!(s.active_ids.len(), 1);
    assert!(s.is_active(2));
    assert!(!s.is_active(1));
    s.record_success();
    assert_eq!(s.items_processed, 1);
    s.record_error("boom".to_string());
    assert_eq!(s.last_error.as_deref(), Some("boom"));
    s.set_idle();
    assert!(!s.is_processing);
    assert!(s.current_job.is_none());
    assert!(s.active_ids.is_empty());
    assert!(can_start_job(1, 2));
    assert!(!can_start_job(2, 2));
}

#[test]
fn outcomes_of_processing() {
    match after_processing(&ProcessEvent::NzbMissing("gone".to_string())) {
        QueueAction::ToHistory { status, fail_message, download_dir_id } => {
            assert_eq!(status, DownloadStatus::Failed);
            assert_eq!(fail_message.as_deref(), Some("NZB blob not found: gone"));
            assert!(download_dir_id.is_none());
        }
        other => panic!("unexpected {other:?}"),
    }
    match after_processing(&ProcessEvent::Processed { job_dir_id: 8 }) {
        QueueAction::ToHistory { status, fail_message, download_dir_id } => {
            assert_eq!(status, DownloadStatus::Completed);
            assert!(fail_message.is_none());
            assert_eq!(download_dir_id, Some(8));
        }
        other => panic!("unexpected {other:?}"),
    }
    assert!(matches!(
        after_processing(&ProcessEvent::Failed { message: "net".to_string(), retryable: true }),
        QueueAction::PauseForRetry
    ));
    assert_eq!(retry_pause_until(1000), 1060);
}

#[test]
fn history_keeps_the_queue_item_id() {
    let h = history_from_queue(&queued(), DownloadStatus::Completed, None, Some(3), 500);
    assert_eq!(h.id, 5);
    assert_eq!(h.nzb_blob_id, Some(5));
    assert_eq!(h.created_at, 500);
    assert_eq!(h.job_name, "a");
    assert_eq!(h.total_segment_bytes, 1000);
    assert_eq!(h.download_time_seconds, 0);
    assert_eq!(h.download_dir_id, Some(3));
}

#[test]
fn websocket_events() {
    let mut s = QueueStatus::new();
    s.start_job(1, "job".to_string());
    match queue_event(&s) {
        WsEvent::Queue { queue_count, is_processing, current_job } => {
            assert_eq!(queue_count, 0);
            assert!(is_processing);
            assert_eq!(current_job.as_deref(), Some("job"));
        }
        other => panic!("unexpected {other:?}"),
    }
    match log_event(&line(1)) {
        WsEvent::Log { level, message, .. } => {
            assert_eq!(level, "INFO");
            assert_eq!(message, "m1");
        }
        other => panic!("unexpected {other:?}"),
    }
}

#[test]
fn queue_loop_keeps_within_the_limit_and_waits_at_shutdown() {
    let mut q = QueueLoop::new(2);
    match q.step(LoopEvent::Poll) {
        LoopAction::Fetch(ex) => assert!(ex.is_empty()),
        other => panic!("unexpected {other:?}"),
    }
    assert!(matches!(q.step(LoopEvent::Fetched(Some(7))), LoopAction::Start(7)));
    match q.step(LoopEvent::Poll) {
        LoopAction::Fetch(ex) => assert_eq!(ex, vec![7]),
        other => panic!("unexpected {other:?}"),
    }
    // A job that already runs is not started twice.
    assert!(matches!(q.step(LoopEvent::Fetched(Some(7))), LoopAction::Wait));
    assert!(matches!(q.step(LoopEvent::Fetched(Some(8))), LoopAction::Start(8)));
    assert_eq!(q.running(), 2);
    assert!(matches!(q.step(LoopEvent::Poll), LoopAction::Wait));
    assert!(matches!(q.step(LoopEvent::Fetched(Some(9))), LoopAction::Wait));
    assert!(matches!(q.step(LoopEvent::Fetched(None)), LoopAction::Wait));
    assert!(matches!(q.step(LoopEvent::Cancelled), LoopAction::Wait));
    assert!(matches!(q.step(LoopEvent::Poll), LoopAction::Wait));
    assert!(matches!(q.step(LoopEvent::Finished(7)), LoopAction::Wait));
    assert_eq!(q.running(), 1);
    assert!(matches!(q.step(LoopEvent::Finished(8)), LoopAction::Stop));
    assert_eq!(q.running(), 0);
    let mut none = QueueLoop::new(0);
    assert!(matches!(none.step(LoopEvent::Poll), LoopAction::Wait));
    assert!(matches!(none.step(LoopEvent::Cancelled), LoopAction::Stop));
}
