use vstd::prelude::*;

verus! {

/// The outcome of one poll of a future: either it finished with a value,
/// or it has to be polled again after its waker fires.
pub enum PollState<T> {
    Ready(T),
    Pending,
}

impl<T> PollState<T> {
    /// Whether the poll finished.
    pub fn is_ready(&self) -> (r: bool)
        ensures
            r == (self is Ready),
    {
        match self {
            PollState::Ready(_) => true,
            PollState::Pending => false,
        }
    }
}

} // verus!
