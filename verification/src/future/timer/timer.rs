use crate::future::poll_state::PollState;
use crate::future::timer::reactor::Reactor;
use vstd::prelude::*;

verus! {

/// std's absolute bound on an instant, in nanoseconds: std keeps an instant
/// as signed 64-bit seconds and the nanoseconds within the second, counted
/// from its own zero.  A deadline past this is refused.  A clock whose zero
/// lies after std's counts up to this bound all the same, so it accepts
/// deadlines that lie beyond std's bound by that offset.
pub const CLOCK_END: u128 = 9_223_372_036_854_775_807_999_999_999u128;

/// The longest duration there is (`Duration::MAX`, in nanoseconds): a timer
/// with it as its period fires once.
pub const NEVER: u128 = 18_446_744_073_709_551_615_999_999_999u128;

/// Why a timer could not be made.
#[derive(Debug, PartialEq, Eq, Structural)]
pub enum TimerError {
    /// The deadline lies beyond the end of the clock.
    OutOfRange,
}

/// A timer on the runtime's clock, which counts nanoseconds.  It fires at
/// `next_time`, then every `period` after it.
pub struct Timer {
    id: Option<usize>,
    next_time: u128,
    period: u128,
}

impl Timer {
    /// The id under which the reactor holds this timer, once it does.
    pub closed spec fn timer_id(&self) -> Option<usize> {
        self.id
    }

    /// When the timer fires next.
    pub closed spec fn deadline(&self) -> u128 {
        self.next_time
    }

    /// The time between two firings.
    pub closed spec fn interval(&self) -> u128 {
        self.period
    }

    /// A timer that fires once, `duration` after `now`; fails when that
    /// moment is past the end of the clock.
    pub fn after(now: u128, duration: u128) -> (r: Result<Timer, TimerError>)
        ensures
            r is Err <==> now + duration > CLOCK_END,
            r is Err ==> r == Err::<Timer, TimerError>(TimerError::OutOfRange),
            r matches Ok(t) ==> {
                &&& t.deadline() == now + duration
                &&& t.interval() == NEVER
                &&& t.timer_id() is None
            },
    {
        if duration <= CLOCK_END && now <= CLOCK_END - duration {
            Ok(Timer::at(now + duration))
        } else {
            Err(TimerError::OutOfRange)
        }
    }

    /// A timer that fires once, at `instant`.
    pub fn at(instant: u128) -> (t: Timer)
        ensures
            t.deadline() == instant,
            t.interval() == NEVER,
            t.timer_id() is None,
    {
        Timer::interval_at(instant, NEVER)
    }

    /// A timer that fires at `next_time`, then every `period`.
    pub fn interval_at(next_time: u128, period: u128) -> (t: Timer)
        ensures
            t.deadline() == next_time,
            t.interval() == period,
            t.timer_id() is None,
    {
        Timer { id: None, next_time, period }
    }

    /// The id under which the reactor holds this timer, once it does.
    pub fn id(&self) -> (r: Option<usize>)
        ensures
            r == self.timer_id(),
    {
        self.id
    }

    /// When the timer fires next.
    pub fn next_time(&self) -> (r: u128)
        ensures
            r == self.deadline(),
    {
        self.next_time
    }

    /// The time between two firings.
    pub fn period(&self) -> (r: u128)
        ensures
            r == self.interval(),
    {
        self.period
    }

    /// One poll of the timer as a stream, at `now`.  Once the deadline has
    /// come it yields the deadline and changes nothing.  Before it, the
    /// timer registers itself with `reactor`, so that `waker` is woken at
    /// the deadline, remembers the id it got, and is pending.
    pub fn poll_next<W>(&mut self, now: u128, reactor: &mut Reactor<W>, waker: W) -> (r: PollState<Option<u128>>)
        requires
            old(reactor).wf(),
            now < old(self).deadline() ==> old(self).timer_id() is None,
            now < old(self).deadline() ==> old(reactor).next_id() < usize::MAX,
        ensures
            final(reactor).wf(),
            old(self).deadline() <= now ==> {
                &&& r == PollState::Ready(Some(old(self).deadline()))
                &&& *final(self) == *old(self)
                &&& *final(reactor) == *old(reactor)
            },
            now < old(self).deadline() ==> {
                &&& r is Pending
                &&& final(self).timer_id() == Some(old(reactor).next_id() as usize)
                &&& final(self).deadline() == old(self).deadline()
                &&& final(self).interval() == old(self).interval()
                &&& final(reactor).next_id() == old(reactor).next_id() + 1
                &&& final(reactor).timers() == old(reactor).timers().insert(
                    (old(self).deadline(), old(reactor).next_id() as usize),
                    waker,
                )
            },
    {
        if now >= self.next_time {
            return PollState::Ready(Some(self.next_time));
        }
        let id = reactor.insert_timer(self.next_time, waker);
        self.id = Some(id);
        PollState::Pending
    }

    /// One poll of the timer as a future: the same as `poll_next`, finishing
    /// with the deadline once it has come.
    pub fn poll<W>(&mut self, now: u128, reactor: &mut Reactor<W>, waker: W) -> (r: PollState<u128>)
        requires
            old(reactor).wf(),
            now < old(self).deadline() ==> old(self).timer_id() is None,
            now < old(self).deadline() ==> old(reactor).next_id() < usize::MAX,
        ensures
            final(reactor).wf(),
            old(self).deadline() <= now ==> {
                &&& r == PollState::Ready(old(self).deadline())
                &&& *final(self) == *old(self)
                &&& *final(reactor) == *old(reactor)
            },
            now < old(self).deadline() ==> {
                &&& r is Pending
                &&& final(self).timer_id() == Some(old(reactor).next_id() as usize)
                &&& final(self).deadline() == old(self).deadline()
                &&& final(self).interval() == old(self).interval()
                &&& final(reactor).next_id() == old(reactor).next_id() + 1
                &&& final(reactor).timers() == old(reactor).timers().insert(
                    (old(self).deadline(), old(reactor).next_id() as usize),
                    waker,
                )
            },
    {
        match self.poll_next(now, reactor, waker) {
            PollState::Ready(Some(when)) => PollState::Ready(when),
            PollState::Pending => PollState::Pending,
            PollState::Ready(None) => {
                proof {
                    assert(false);
                }
                PollState::Pending
            },
        }
    }
}

} // verus!
