//! A counter of handled events, served over the control channel so
//! outside tools can watch the manager's activity.

use vstd::prelude::*;

verus! {

/// Counts the events the manager has handled.
pub struct EventCounter {
    pub count: usize,
}

impl EventCounter {
    /// A counter starting at zero.
    pub fn new() -> (c: EventCounter)
        ensures
            c.count == 0,
    {
        EventCounter { count: 0 }
    }

    /// Records one more handled event.
    pub fn incr_event_count(&mut self)
        requires
            old(self).count < usize::MAX,
        ensures
            final(self).count == old(self).count + 1,
    {
        self.count = self.count + 1;
    }

    /// How many events have been handled so far.
    pub fn get_event_count(&self) -> (r: usize)
        ensures
            r == self.count,
    {
        self.count
    }
}

} // verus!
