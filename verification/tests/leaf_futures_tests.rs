use toy_rust_async_rt::future::wait_cond::wait_cond;
use toy_rust_async_rt::future::yield_now::yield_now;
use toy_rust_async_rt::future::PollState;

#[test]
fn yield_now_is_pending_exactly_once() {
    let mut y = yield_now();
    assert!(matches!(y.poll(), PollState::Pending));
    assert!(matches!(y.poll(), PollState::Ready(())));
    assert!(matches!(y.poll(), PollState::Ready(())));
}

#[test]
fn wait_cond_finishes_when_value_matches() {
    let w = wait_cond("flag", true);
    assert_eq!(*w.var(), "flag");
    assert_eq!(*w.expected(), true);
    assert!(matches!(w.poll(&false), PollState::Pending));
    assert!(matches!(w.poll(&true), PollState::Ready(())));
}

#[test]
fn wait_cond_on_numbers() {
    let w = wait_cond((), 3u32);
    assert!(!w.poll(&2).is_ready());
    assert!(w.poll(&3).is_ready());
    assert!(!w.poll(&4).is_ready());
}
