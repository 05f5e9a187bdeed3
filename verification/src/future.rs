pub mod poll_state;
pub mod scheduler;
pub mod timer;
pub mod wait_cond;
pub mod yield_now;

pub use poll_state::PollState;
