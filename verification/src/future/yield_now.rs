use crate::future::poll_state::PollState;
use vstd::prelude::*;

verus! {

/// A future that gives way to the other tasks once: its first poll asks to
/// be woken and polled again, every later poll finishes.
pub struct YieldNow(bool);

impl YieldNow {
    /// Whether the future has already given way once.
    pub closed spec fn has_yielded(&self) -> bool {
        self.0
    }

    /// One poll.  `Pending` means: wake the task at once, it is ready to
    /// run again.
    pub fn poll(&mut self) -> (r: PollState<()>)
        ensures
            r is Pending <==> !old(self).has_yielded(),
            final(self).has_yielded(),
    {
        if !self.0 {
            self.0 = true;
            PollState::Pending
        } else {
            PollState::Ready(())
        }
    }
}

/// A fresh `YieldNow`, which has not given way yet.
pub fn yield_now() -> (r: YieldNow)
    ensures
        !r.has_yielded(),
{
    YieldNow(false)
}

} // verus!
