//! The events pushed to the web interface over its WebSocket.

use vstd::prelude::*;

use crate::logs::LogLine;
use crate::queue::QueueStatus;

verus! {

/// An event for the WebSocket clients.
#[derive(Debug, Clone)]
pub enum WsEvent {
    Queue { queue_count: usize, is_processing: bool, current_job: Option<String> },
    History { total_count: i64 },
    Status { status: String },
    Log { level: String, target: String, message: String, timestamp: String },
}

/// The capacity of the channel that carries the events.
pub const EVENT_CHANNEL_CAPACITY: usize = 64;

/// The event that announces a change of the queue status (the number of
/// queued items is not counted and is sent as 0).
pub fn queue_event(status: &QueueStatus) -> (r: WsEvent)
    ensures
        r == (WsEvent::Queue {
            queue_count: 0,
            is_processing: status.is_processing,
            current_job: status.current_job,
        }),
{
    WsEvent::Queue {
        queue_count: 0,
        is_processing: status.is_processing,
        current_job: match &status.current_job {
            Some(j) => Some(j.clone()),
            None => None,
        },
    }
}

/// The event that carries a captured log line.
pub fn log_event(line: &LogLine) -> (r: WsEvent)
    ensures
        r == (WsEvent::Log {
            level: line.level,
            target: line.target,
            message: line.message,
            timestamp: line.timestamp,
        }),
{
    WsEvent::Log {
        level: line.level.clone(),
        target: line.target.clone(),
        message: line.message.clone(),
        timestamp: line.timestamp.clone(),
    }
}

} // verus!
