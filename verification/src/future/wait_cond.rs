use crate::future::poll_state::PollState;
use vstd::prelude::*;
use vstd::std_specs::cmp::PartialEqSpec;

verus! {

/// A future that waits until a shared variable holds the expected value.
/// `var` is the handle through which the variable is read; each poll is
/// handed the value read through it.
pub struct WaitCond<V, T> {
    var: V,
    expected: T,
}

impl<V, T> WaitCond<V, T> {
    /// The handle of the watched variable.
    pub closed spec fn watched(&self) -> V {
        self.var
    }

    /// The value that is waited for.
    pub closed spec fn awaited(&self) -> T {
        self.expected
    }

    /// The handle of the watched variable.
    pub fn var(&self) -> (r: &V)
        ensures
            *r == self.watched(),
    {
        &self.var
    }

    /// The value that is waited for.
    pub fn expected(&self) -> (r: &T)
        ensures
            *r == self.awaited(),
    {
        &self.expected
    }
}

impl<V, T: PartialEq> WaitCond<V, T> {
    /// One poll, with `current` the value of the variable now.  It finishes
    /// when that value equals the expected one; otherwise it is pending and
    /// its task is to be woken again at once, to look once more.
    pub fn poll(&self, current: &T) -> (r: PollState<()>)
        ensures
            T::obeys_eq_spec() ==> (r is Ready <==> current.eq_spec(&self.awaited())),
    {
        if *current != self.expected {
            PollState::Pending
        } else {
            PollState::Ready(())
        }
    }
}

/// A future that waits until the variable behind `var` equals `expected`.
pub fn wait_cond<V, T>(var: V, expected: T) -> (r: WaitCond<V, T>)
    ensures
        r.watched() == var,
        r.awaited() == expected,
{
    WaitCond { var, expected }
}

} // verus!
