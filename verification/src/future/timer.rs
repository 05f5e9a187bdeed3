pub mod reactor;
pub mod timer;

pub use reactor::Reactor;
pub use timer::Timer;
