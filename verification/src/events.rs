//! Lifecycle events of one virtual-machine run: a start, then one
//! terminal event, stamped with the wall clock and the machine's id.

use crate::host::now_timestamp_millis;
use vstd::prelude::*;

verus! {

#[derive(Debug, Clone, Copy, PartialEq, Eq, Structural)]
pub enum VMEventType {
    Start,
    GracefulStop { code: u32 },
    Crash,
}

/// One lifecycle event: its kind, a millisecond timestamp, and the id of
/// the machine that emitted it.
#[derive(Debug, Clone, Copy, PartialEq, Eq, Structural)]
pub struct VMEvent {
    pub event: VMEventType,
    pub at: i64,
    pub application_id: u128,
}

impl VMEvent {
    /// An event of the given kind, stamped with the current time.
    pub fn now(event: VMEventType, application_id: u128) -> (r: VMEvent)
        ensures
            r.event == event,
            r.application_id == application_id,
    {
        VMEvent { event, application_id, at: now_timestamp_millis() }
    }
}

} // verus!
