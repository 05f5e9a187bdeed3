# toy_rust_async_rt

A small asynchronous runtime in Rust, verified with Verus.

- `src/` is the verified library. Each future of the runtime is a state
  machine there: a poll takes what the outside world reports (the clock in
  nanoseconds, the value of a watched variable, what each task's poll
  returned) and says whether the future is ready. `future::scheduler` runs
  a group of tasks round by round, and `future::timer::reactor` keeps the
  timers, ordered by deadline and id. `future::timer::timer`,
  `future::wait_cond` and `future::yield_now` are the leaf futures.
- `app/` is the runtime around the library: `block_on` and its parker, the
  clock, the global reactor with the thread that wakes expired timers, and
  the `Future`/`Stream` impls that connect the library's state machines to
  std's task system.
- `tests/` exercises the library on concrete values.
