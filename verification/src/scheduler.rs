//! The thin scheduler: it only numbers the workers it would hand
//! machines to; spawning and collecting them is the host's work.

use vstd::prelude::*;

verus! {

/// Bookkeeping for fire-and-forget workers.
#[derive(Debug)]
pub struct Scheduler {
    next_pid: u32,
    max_pid: u32,
}

impl Scheduler {
    pub closed spec fn spec_next_pid(&self) -> u32 {
        self.next_pid
    }

    pub closed spec fn spec_max_pid(&self) -> u32 {
        self.max_pid
    }

    pub fn new() -> (s: Scheduler)
        ensures
            s.spec_next_pid() == 0,
            s.spec_max_pid() == 50000,
    {
        Scheduler { next_pid: 0, max_pid: 50000 }
    }
}

impl Default for Scheduler {
    fn default() -> (s: Scheduler)
        ensures
            s.spec_next_pid() == 0,
            s.spec_max_pid() == 0,
    {
        Scheduler { next_pid: 0, max_pid: 0 }
    }
}

} // verus!
