use toy_rust_async_rt::future::scheduler::Scheduler;
use toy_rust_async_rt::future::wait_cond::{wait_cond, WaitCond};
use toy_rust_async_rt::future::yield_now::{yield_now, YieldNow};
use toy_rust_async_rt::future::PollState;

/// A task that yields `left` times, then finishes with `name`.
struct Yielder {
    left: u32,
    step: YieldNow,
    name: &'static str,
}

impl Yielder {
    fn new(times: u32, name: &'static str) -> Yielder {
        Yielder { left: times, step: yield_now(), name }
    }

    fn poll(&mut self) -> Option<&'static str> {
        while self.left > 0 {
            match self.step.poll() {
                PollState::Pending => return None,
                PollState::Ready(()) => {
                    self.left -= 1;
                    self.step = yield_now();
                }
            }
        }
        Some(self.name)
    }
}

/// Runs one round of `sched`, polling the tasks that still need it.
fn round(sched: &mut Scheduler<&'static str, Yielder>, polls: &mut Vec<usize>) -> PollState<Vec<Option<&'static str>>> {
    let n = sched.len();
    let mut polled = Vec::new();
    for i in 0..n {
        if sched.needs_poll(i) {
            polls.push(i);
            polled.push(sched.task_mut(i).poll());
        } else {
            polled.push(None);
        }
    }
    sched.poll(polled)
}

#[test]
fn ids_count_up_from_zero() {
    let mut sched: Scheduler<u32, u32> = Scheduler::new();
    assert_eq!(sched.len(), 0);
    assert_eq!(sched.add(10), Ok(0));
    assert_eq!(sched.add(11), Ok(1));
    assert_eq!(sched.add(12), Ok(2));
    assert_eq!(sched.len(), 3);
    assert_eq!(*sched.task_mut(1), 11);
    assert!(sched.needs_poll(0) && sched.needs_poll(1) && sched.needs_poll(2));
}

#[test]
fn two_yielding_tasks_finish_in_add_order() {
    let mut sched = Scheduler::new();
    let id_a = sched.add(Yielder::new(3, "TASK A")).ok().unwrap();
    let id_b = sched.add(Yielder::new(3, "TASK B")).ok().unwrap();
    let mut polls = Vec::new();
    let mut rounds = 0;
    let outputs = loop {
        rounds += 1;
        match round(&mut sched, &mut polls) {
            PollState::Ready(outs) => break outs,
            PollState::Pending => {}
        }
    };
    assert_eq!(rounds, 4);
    assert_eq!(outputs.len(), 2);
    assert_eq!(outputs[id_a], Some("TASK A"));
    assert_eq!(outputs[id_b], Some("TASK B"));
    assert_eq!(sched.len(), 0);
}

#[test]
fn finished_task_is_not_polled_again() {
    let mut sched = Scheduler::new();
    let fast = sched.add(Yielder::new(0, "FAST")).ok().unwrap();
    let slow = sched.add(Yielder::new(2, "SLOW")).ok().unwrap();
    let mut polls = Vec::new();
    assert!(matches!(round(&mut sched, &mut polls), PollState::Pending));
    assert_eq!(polls, vec![fast, slow]);
    assert!(!sched.needs_poll(fast));
    assert!(sched.needs_poll(slow));
    polls.clear();
    assert!(matches!(round(&mut sched, &mut polls), PollState::Pending));
    assert_eq!(polls, vec![slow]);
    polls.clear();
    match round(&mut sched, &mut polls) {
        PollState::Ready(outs) => assert_eq!(outs, vec![Some("FAST"), Some("SLOW")]),
        PollState::Pending => panic!("the round should have finished"),
    }
    assert_eq!(polls, vec![slow]);
}

#[test]
fn round_output_overrides_only_unfinished_tasks() {
    let mut sched: Scheduler<u32, ()> = Scheduler::new();
    sched.add(()).unwrap();
    sched.add(()).unwrap();
    sched.add(()).unwrap();
    assert!(matches!(sched.poll(vec![Some(1), None, Some(3)]), PollState::Pending));
    assert!(!sched.needs_poll(0));
    assert!(sched.needs_poll(1));
    match sched.poll(vec![Some(100), Some(2), Some(300)]) {
        PollState::Ready(outs) => assert_eq!(outs, vec![Some(1), Some(2), Some(3)]),
        PollState::Pending => panic!("every task has finished"),
    }
}

#[test]
fn empty_scheduler_is_ready_at_once() {
    let mut sched: Scheduler<u8, u8> = Scheduler::new();
    match sched.poll(Vec::new()) {
        PollState::Ready(outs) => assert!(outs.is_empty()),
        PollState::Pending => panic!("no task to wait for"),
    }
}

#[test]
fn ids_keep_counting_after_a_finished_round() {
    let mut sched: Scheduler<u8, u8> = Scheduler::new();
    assert_eq!(sched.add(0), Ok(0));
    assert!(sched.poll(vec![Some(7)]).is_ready());
    assert_eq!(sched.len(), 0);
    assert_eq!(sched.add(0), Ok(1));
    assert_eq!(sched.len(), 1);
}

/// A task that waits until `flag` is true.
struct Waiter {
    cond: WaitCond<(), bool>,
    name: &'static str,
}

/// A task of the wait-condition scenario: it waits for the flag, or it
/// yields and then, if told to, sets the flag.
enum Task {
    Wait(Waiter),
    Yield(Yielder, bool),
}

#[test]
fn waiting_task_finishes_after_the_task_that_sets_its_flag() {
    let mut sched: Scheduler<&'static str, Task> = Scheduler::new();
    let _ = sched.add(Task::Wait(Waiter { cond: wait_cond((), true), name: "TASK WAIT" })).ok().unwrap();
    let id_a = sched.add(Task::Yield(Yielder::new(3, "TASK A"), true)).ok().unwrap();
    let id_b = sched.add(Task::Yield(Yielder::new(3, "TASK B"), false)).ok().unwrap();
    let mut flag = false;
    let mut rounds = 0;
    let outputs = loop {
        rounds += 1;
        let n = sched.len();
        let mut polled = Vec::new();
        for i in 0..n {
            if !sched.needs_poll(i) {
                polled.push(None);
                continue;
            }
            let out = match sched.task_mut(i) {
                Task::Wait(w) => {
                    if w.cond.poll(&flag).is_ready() {
                        Some(w.name)
                    } else {
                        None
                    }
                }
                Task::Yield(y, sets_flag) => {
                    let out = y.poll();
                    if out.is_some() && *sets_flag {
                        flag = true;
                    }
                    out
                }
            };
            polled.push(out);
        }
        if let PollState::Ready(outs) = sched.poll(polled) {
            break outs;
        }
    };
    assert_eq!(rounds, 5);
    assert_eq!(outputs[0], Some("TASK WAIT"));
    assert_eq!(outputs[id_a], Some("TASK A"));
    assert_eq!(outputs[id_b], Some("TASK B"));
}
