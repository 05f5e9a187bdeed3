//! A small asynchronous runtime: a cooperative task scheduler, a timer
//! reactor, and the leaf futures that tasks await.  The decisions each of
//! them makes on a poll are verified here; the executor loop that drives
//! them, the clock and the waking of tasks stay with the caller.
pub mod future;
