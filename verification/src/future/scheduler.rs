use crate::future::poll_state::PollState;
use vstd::prelude::*;

verus! {

/// Why a task could not be added.
#[derive(Debug, PartialEq, Eq, Structural)]
pub enum SchedulerError {
    /// Every task id has been handed out.
    TooManyTasks,
}

/// `outputs` after a round in which the tasks that had no output yet
/// returned `polled`: a task keeps an output it already had, and the others
/// take what their poll returned (`None` while they are still pending).
pub open spec fn merge_round<T>(outputs: Seq<Option<T>>, polled: Seq<Option<T>>) -> Seq<Option<T>> {
    Seq::new(outputs.len(), |i: int| if outputs[i] is Some { outputs[i] } else { polled[i] })
}

/// Every task has finished.
pub open spec fn all_finished<T>(outputs: Seq<Option<T>>) -> bool {
    forall|i: int| 0 <= i < outputs.len() ==> #[trigger] outputs[i] is Some
}

/// A task that has finished keeps its output through every later round,
/// and a task that has not gets the output of its poll.
pub proof fn lemma_round_keeps_finished<T>(outputs: Seq<Option<T>>, polled: Seq<Option<T>>)
    requires
        polled.len() == outputs.len(),
    ensures
        merge_round(outputs, polled).len() == outputs.len(),
        forall|i: int| 0 <= i < outputs.len() && outputs[i] is Some ==> #[trigger] merge_round(outputs, polled)[i] == outputs[i],
        forall|i: int| 0 <= i < outputs.len() && outputs[i] is None ==> #[trigger] merge_round(outputs, polled)[i] == polled[i],
{
}

/// Once all tasks have finished, another round changes nothing.
pub proof fn lemma_finished_round_is_stable<T>(outputs: Seq<Option<T>>, polled: Seq<Option<T>>)
    requires
        polled.len() == outputs.len(),
        all_finished(outputs),
    ensures
        merge_round(outputs, polled) == outputs,
        all_finished(merge_round(outputs, polled)),
{
    assert(merge_round(outputs, polled) =~= outputs);
}

/// The tasks have all finished exactly when each of them has an output,
/// however many tasks there are.
pub proof fn lemma_all_finished_iff_every_output<T>(outputs: Seq<Option<T>>)
    ensures
        all_finished(outputs) <==> (forall|i: int| 0 <= i < outputs.len() ==> #[trigger] outputs[i] is Some),
{
}

/// After a round, every task has finished exactly when each task either
/// had an output before it or its poll in that round returned one.
pub proof fn lemma_round_finishes_all_iff<T>(outputs: Seq<Option<T>>, polled: Seq<Option<T>>)
    requires
        polled.len() == outputs.len(),
    ensures
        all_finished(merge_round(outputs, polled)) <==> (forall|i: int|
            0 <= i < outputs.len() ==> #[trigger] outputs[i] is Some || polled[i] is Some),
{
    if all_finished(merge_round(outputs, polled)) {
        assert forall|i: int| 0 <= i < outputs.len() implies #[trigger] outputs[i] is Some || polled[i] is Some by {
            assert(merge_round(outputs, polled)[i] is Some);
        }
    }
}

/// The number of successful `add`s in `history`, where each call on a
/// scheduler is recorded as `Some(id)` for an `add` that returned `Ok(id)`
/// and `None` for any other call (a failed `add`, a round, a look).
pub open spec fn adds_in(history: Seq<Option<nat>>) -> nat
    decreases history.len(),
{
    if history.len() == 0 {
        0
    } else {
        adds_in(history.drop_last()) + if history.last() is Some { 1nat } else { 0nat }
    }
}

/// `counters[i]` is the scheduler's next id before call `i` of `history`
/// and `counters[i + 1]` the one after it, as the contracts of `add` and
/// `poll` give them: a successful `add` returns the counter and moves it on
/// by one, every other call leaves it.
pub open spec fn counters_follow(counters: Seq<nat>, history: Seq<Option<nat>>) -> bool {
    &&& counters.len() == history.len() + 1
    &&& forall|i: int|
        0 <= i < history.len() ==> match #[trigger] history[i] {
            Some(id) => id == counters[i] && counters[i + 1] == counters[i] + 1,
            None => counters[i + 1] == counters[i],
        }
}

proof fn lemma_counter_is_adds(counters: Seq<nat>, history: Seq<Option<nat>>, i: int)
    requires
        counters.len() > 0 && counters[0] == 0,
        counters_follow(counters, history),
        0 <= i <= history.len(),
    ensures
        counters[i] == adds_in(history.take(i)),
    decreases i,
{
    if i > 0 {
        lemma_counter_is_adds(counters, history, i - 1);
        assert(history.take(i).drop_last() =~= history.take(i - 1));
        assert(history.take(i).last() == history[i - 1]);
    } else {
        assert(history.take(0) =~= Seq::<Option<nat>>::empty());
    }
}

/// On a scheduler made by `new`, the ids that successful `add`s return run
/// 0, 1, 2, ... in call order: each `add` returns the number of successful
/// `add`s before it, whatever rounds came in between, so no id is used twice.
pub proof fn lemma_ids_count_up(counters: Seq<nat>, history: Seq<Option<nat>>)
    requires
        counters.len() > 0 && counters[0] == 0,
        counters_follow(counters, history),
    ensures
        forall|i: int| 0 <= i < history.len() && #[trigger] history[i] is Some ==> history[i]->0 == adds_in(history.take(i)),
        counters.last() == adds_in(history),
{
    assert forall|i: int| 0 <= i < history.len() && #[trigger] history[i] is Some implies history[i]->0 == adds_in(history.take(i)) by {
        lemma_counter_is_adds(counters, history, i);
    }
    lemma_counter_is_adds(counters, history, history.len() as int);
    assert(history.take(history.len() as int) =~= history);
}

/// Runs a group of tasks together: each round polls every task that has
/// not finished yet, and once all have finished hands back their outputs in
/// the order in which the tasks were added.
pub struct Scheduler<T, F> {
    // Held in a `Vec`: each round polls the tasks in place through `&mut`,
    // and vstd specifies mutable access to an element for `Vec` only.
    tasks: Vec<F>,
    task_id: usize,
    outputs: Vec<Option<T>>,
}

impl<T, F> Scheduler<T, F> {
    /// The tasks, in the order in which they were added.
    pub closed spec fn tasks(&self) -> Seq<F> {
        self.tasks@
    }

    /// The output of each task so far (`None` while it has not finished).
    pub closed spec fn outputs(&self) -> Seq<Option<T>> {
        self.outputs@
    }

    /// The id that the next task added will get.
    pub closed spec fn next_id(&self) -> nat {
        self.task_id as nat
    }

    /// Every task added since the scheduler was made sits at the position
    /// of its id, which holds until a round hands the outputs back.
    pub open spec fn ids_are_positions(&self) -> bool {
        self.tasks().len() == self.next_id()
    }

    /// There is one output slot for each task.
    pub open spec fn wf(&self) -> bool {
        &&& self.tasks().len() == self.outputs().len()
        &&& self.next_id() <= usize::MAX
    }

    /// A scheduler with no task, whose first task gets id 0.
    pub fn new() -> (s: Self)
        ensures
            s.wf(),
            s.tasks() == Seq::<F>::empty(),
            s.outputs() == Seq::<Option<T>>::empty(),
            s.next_id() == 0,
            s.ids_are_positions(),
    {
        Scheduler { tasks: Vec::new(), task_id: 0, outputs: Vec::new() }
    }

    /// Adds `task`, with no output yet, and returns its id; fails, and
    /// changes nothing, once every id has been handed out.
    pub fn add(&mut self, task: F) -> (r: Result<usize, SchedulerError>)
        requires
            old(self).wf(),
        ensures
            final(self).wf(),
            r is Err <==> old(self).next_id() == usize::MAX,
            r is Err ==> r == Err::<usize, SchedulerError>(SchedulerError::TooManyTasks)
                && final(self).tasks() == old(self).tasks()
                && final(self).outputs() == old(self).outputs()
                && final(self).next_id() == old(self).next_id(),
            r is Ok ==> {
                &&& r == Ok::<usize, SchedulerError>(old(self).next_id() as usize)
                &&& final(self).next_id() == old(self).next_id() + 1
                &&& final(self).tasks() == old(self).tasks().push(task)
                &&& final(self).outputs() == old(self).outputs().push(None)
            },
            old(self).ids_are_positions() ==> final(self).ids_are_positions(),
            old(self).ids_are_positions() && r is Ok ==> final(self).tasks()[r->Ok_0 as int] == task
                && final(self).outputs()[r->Ok_0 as int] is None,
    {
        if self.task_id == usize::MAX {
            return Err(SchedulerError::TooManyTasks);
        }
        self.tasks.push(task);
        self.outputs.push(None);
        let id = self.task_id;
        self.task_id = self.task_id + 1;
        Ok(id)
    }

    /// The number of tasks.
    pub fn len(&self) -> (n: usize)
        requires
            self.wf(),
        ensures
            n == self.tasks().len(),
    {
        self.tasks.len()
    }

    /// Whether task `i` still has to be polled: it has no output yet.
    pub fn needs_poll(&self, i: usize) -> (r: bool)
        requires
            self.wf(),
            i < self.tasks().len(),
        ensures
            r == (self.outputs()[i as int] is None),
    {
        self.outputs[i].is_none()
    }

    /// Task `i`, to be polled.
    pub fn task_mut(&mut self, i: usize) -> (task: &mut F)
        requires
            old(self).wf(),
            i < old(self).tasks().len(),
        ensures
            *task == old(self).tasks()[i as int],
            final(self).tasks() == old(self).tasks().update(i as int, *final(task)),
            final(self).outputs() == old(self).outputs(),
            final(self).next_id() == old(self).next_id(),
    {
        &mut self.tasks[i]
    }

    /// Ends a round in which task `i` was polled if it needed it, and its
    /// poll returned `polled[i]` (`None` while pending).  When every task
    /// has finished, the outputs come back in the order in which the tasks
    /// were added and the scheduler is left without tasks; otherwise the
    /// round's outputs are kept and the scheduler waits for the next round.
    pub fn poll(&mut self, polled: Vec<Option<T>>) -> (r: PollState<Vec<Option<T>>>)
        requires
            old(self).wf(),
            polled@.len() == old(self).tasks().len(),
        ensures
            final(self).wf(),
            final(self).next_id() == old(self).next_id(),
            all_finished(merge_round(old(self).outputs(), polled@)) ==> {
                &&& r matches PollState::Ready(outs) && outs@ == merge_round(old(self).outputs(), polled@)
                &&& final(self).tasks() == Seq::<F>::empty()
                &&& final(self).outputs() == Seq::<Option<T>>::empty()
            },
            !all_finished(merge_round(old(self).outputs(), polled@)) ==> {
                &&& r is Pending
                &&& final(self).tasks() == old(self).tasks()
                &&& final(self).outputs() == merge_round(old(self).outputs(), polled@)
            },
            r is Ready <==> (forall|i: int|
                0 <= i < old(self).outputs().len() ==> #[trigger] old(self).outputs()[i] is Some
                    || polled@[i] is Some),
            r matches PollState::Ready(outs) ==> {
                &&& outs@.len() == old(self).outputs().len()
                &&& forall|i: int| 0 <= i < outs@.len() ==> #[trigger] outs@[i] is Some
                &&& forall|i: int|
                    0 <= i < outs@.len() && old(self).outputs()[i] is Some ==> #[trigger] outs@[i]
                        == old(self).outputs()[i]
                &&& forall|i: int|
                    0 <= i < outs@.len() && old(self).outputs()[i] is None ==> #[trigger] outs@[i]
                        == polled@[i]
                &&& final(self).tasks().len() == 0
                &&& final(self).outputs().len() == 0
            },
            r is Pending ==> {
                &&& final(self).tasks() == old(self).tasks()
                &&& final(self).outputs().len() == old(self).outputs().len()
                &&& forall|i: int|
                    0 <= i < old(self).outputs().len() && old(self).outputs()[i] is Some
                        ==> #[trigger] final(self).outputs()[i] == old(self).outputs()[i]
                &&& forall|i: int|
                    0 <= i < old(self).outputs().len() && old(self).outputs()[i] is None
                        ==> #[trigger] final(self).outputs()[i] == polled@[i]
            },
    {
        let ghost merged = merge_round(old(self).outputs(), polled@);
        let ghost polled0 = polled@;
        let mut polled = polled;
        let n = self.outputs.len();
        let mut i = n;
        while i > 0
            invariant
                i <= n,
                n == self.outputs@.len(),
                self.tasks@ == old(self).tasks(),
                self.task_id == old(self).next_id(),
                polled0.len() == n,
                merged == merge_round(old(self).outputs(), polled0),
                merged.len() == n,
                old(self).outputs().len() == n,
                polled@ == polled0.take(i as int),
                forall|j: int| 0 <= j < i ==> self.outputs@[j] == old(self).outputs()[j],
                forall|j: int| i <= j < n ==> self.outputs@[j] == merged[j],
            decreases i,
        {
            i = i - 1;
            let p = polled.pop().unwrap();
            assert(p == polled0[i as int]);
            if self.outputs[i].is_none() {
                self.outputs.set(i, p);
            }
            assert(self.outputs@[i as int] == merged[i as int]);
        }
        assert(self.outputs@ =~= merged);
        let mut ready = true;
        let mut j: usize = 0;
        while j < n
            invariant
                j <= n,
                n == self.outputs@.len(),
                ready == (forall|k: int| 0 <= k < j ==> #[trigger] self.outputs@[k] is Some),
            decreases n - j,
        {
            if self.outputs[j].is_none() {
                ready = false;
            }
            j = j + 1;
        }
        proof {
            if ready {
                assert forall|k: int| 0 <= k < n implies #[trigger] old(self).outputs()[k] is Some
                    || polled0[k] is Some by {
                    assert(self.outputs@[k] is Some);
                }
            } else {
                let k = choose|k: int| 0 <= k < n && !(#[trigger] self.outputs@[k] is Some);
                assert(!(old(self).outputs()[k] is Some || polled0[k] is Some));
            }
        }
        if ready {
            let mut outs: Vec<Option<T>> = Vec::new();
            std::mem::swap(&mut outs, &mut self.outputs);
            self.tasks.clear();
            PollState::Ready(outs)
        } else {
            PollState::Pending
        }
    }
}

} // verus!
