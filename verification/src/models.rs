//! Request payload shapes: a schedule request is an ordered list of timed
//! intervals plus a segment count; a token update carries the new push token.
//!
//! `starts_at` is an absolute epoch timestamp in whole seconds; the process
//! edge that accepts requests reduces finer-grained timestamps to seconds
//! before handing them to the scheduler.
use vstd::prelude::*;

verus! {

/// The alert payload forwarded verbatim with each delivery.
pub struct Alert {
    pub title: String,
    pub body: String,
    pub sound: String,
}

/// One timed interval of a schedule.
pub struct TimerInterval {
    pub status: String,
    pub task: String,
    pub starts_at: u64,
    pub current_segment: u32,
    pub alert: Alert,
}

/// A full schedule request for one device.
pub struct RequestData {
    pub time_intervals: Vec<TimerInterval>,
    pub segment_count: u32,
}

/// A push-token registration or update for one device.
pub struct PushTokenData {
    pub push_token: String,
}

} // verus!
