use std::collections::BTreeMap;
use vstd::prelude::*;

verus! {

broadcast use {vstd::std_specs::btree::group_btree_axioms, vstd::laws_cmp::group_laws_cmp};

/// A timer in the reactor is found by its deadline (nanoseconds on the
/// runtime's clock) and by the id that the reactor handed out for it, so
/// that two timers with one deadline stay apart.
pub type TimerKey = (u128, usize);

/// The order of `TimerKey`s: by deadline first, then by id.
pub open spec fn key_lt(a: TimerKey, b: TimerKey) -> bool {
    a.0 < b.0 || (a.0 == b.0 && a.1 < b.1)
}

/// The order of timer keys is a strict total order that puts an earlier
/// deadline first and, for one deadline, the smaller id first.
pub proof fn lemma_key_order(a: TimerKey, b: TimerKey, c: TimerKey)
    ensures
        !key_lt(a, a),
        key_lt(a, b) ==> !key_lt(b, a),
        key_lt(a, b) && key_lt(b, c) ==> key_lt(a, c),
        a != b ==> key_lt(a, b) || key_lt(b, a),
        a.0 < b.0 ==> key_lt(a, b),
        a.0 == b.0 && a.1 < b.1 ==> key_lt(a, b),
{
}

/// A timer is expired at `now` exactly when its deadline is at or before
/// `now`, and pending exactly when its deadline is after `now`; either way
/// it keeps its waker.
pub proof fn lemma_expired_pending_by_deadline<W>(m: Map<TimerKey, W>, now: u128, k: TimerKey)
    ensures
        expired_at(m, now).contains_key(k) <==> m.contains_key(k) && k.0 <= now,
        pending_at(m, now).contains_key(k) <==> m.contains_key(k) && now < k.0,
        expired_at(m, now).contains_key(k) ==> expired_at(m, now)[k] == m[k],
        pending_at(m, now).contains_key(k) ==> pending_at(m, now)[k] == m[k],
{
}

/// The timers of `m` whose deadline is at or before `now`.
pub open spec fn expired_at<W>(m: Map<TimerKey, W>, now: u128) -> Map<TimerKey, W> {
    m.restrict(Set::new(|k: TimerKey| k.0 <= now))
}

/// The timers of `m` whose deadline is after `now`.
pub open spec fn pending_at<W>(m: Map<TimerKey, W>, now: u128) -> Map<TimerKey, W> {
    m.restrict(Set::new(|k: TimerKey| k.0 > now))
}

/// `keys` lists the keys of `m` in increasing order, and `vals` holds the
/// value of `m` under each of them, in the same order.
pub open spec fn lists_in_key_order<W>(m: Map<TimerKey, W>, keys: Seq<TimerKey>, vals: Seq<W>) -> bool {
    &&& keys.len() == vals.len()
    &&& forall|i: int, j: int| 0 <= i < j < keys.len() ==> key_lt(#[trigger] keys[i], #[trigger] keys[j])
    &&& forall|i: int| 0 <= i < keys.len() ==> #[trigger] m.contains_key(keys[i]) && vals[i] == m[keys[i]]
    &&& forall|k: TimerKey| #[trigger] m.contains_key(k) ==> keys.contains(k)
}

/// `vals` holds the values of `m`, one for each key, in increasing key order.
pub open spec fn values_in_key_order<W>(m: Map<TimerKey, W>, vals: Seq<W>) -> bool {
    exists|keys: Seq<TimerKey>| lists_in_key_order(m, keys, vals)
}

/// A finite map has as many values listed in key order as it has keys.
proof fn lemma_key_order_len<W>(m: Map<TimerKey, W>, keys: Seq<TimerKey>, vals: Seq<W>)
    requires
        m.dom().finite(),
        lists_in_key_order(m, keys, vals),
    ensures
        vals.len() == m.dom().len(),
{
    assert(keys.no_duplicates()) by {
        assert forall|i: int, j: int| 0 <= i < keys.len() && 0 <= j < keys.len() && i != j implies keys[i] != keys[j] by {
            if i < j {
                assert(key_lt(keys[i], keys[j]));
            } else {
                assert(key_lt(keys[j], keys[i]));
            }
        }
    }
    keys.unique_seq_to_set();
    assert(keys.to_set() =~= m.dom());
}

/// Every timer is either expired or pending at `now`, never both: a
/// reaction at `now` wakes some timers and keeps the rest, and the two
/// counts add up to the timers there were.
pub proof fn lemma_expired_pending_partition<W>(m: Map<TimerKey, W>, now: u128)
    requires
        m.dom().finite(),
    ensures
        expired_at(m, now).dom().disjoint(pending_at(m, now).dom()),
        expired_at(m, now).union_prefer_right(pending_at(m, now)) == m,
        expired_at(m, now).dom().len() + pending_at(m, now).dom().len() == m.dom().len(),
{
    assert(expired_at(m, now).union_prefer_right(pending_at(m, now)) =~= m);
    assert(expired_at(m, now).dom() + pending_at(m, now).dom() =~= m.dom());
    vstd::set_lib::lemma_len_subset(expired_at(m, now).dom(), m.dom());
    vstd::set_lib::lemma_len_subset(pending_at(m, now).dom(), m.dom());
    vstd::set_lib::lemma_set_disjoint_lens(expired_at(m, now).dom(), pending_at(m, now).dom());
}

/// After a reaction at `now`, a second one at the same moment finds no
/// timer to wake.
pub proof fn lemma_react_twice_wakes_nothing<W>(m: Map<TimerKey, W>, now: u128)
    ensures
        expired_at(pending_at(m, now), now) == Map::<TimerKey, W>::empty(),
        pending_at(pending_at(m, now), now) == pending_at(m, now),
{
    lemma_no_deadline_between_wakes_nothing(m, now, now);
}

/// After a reaction at `first`, a later one at `second` wakes nothing and
/// keeps every timer, when no timer was added in between and none has its
/// deadline after `first` and at or before `second`.
pub proof fn lemma_no_deadline_between_wakes_nothing<W>(m: Map<TimerKey, W>, first: u128, second: u128)
    requires
        forall|k: TimerKey| #[trigger] m.contains_key(k) ==> !(first < k.0 && k.0 <= second),
    ensures
        expired_at(pending_at(m, first), second) == Map::<TimerKey, W>::empty(),
        pending_at(pending_at(m, first), second) == pending_at(m, first),
{
    assert(expired_at(pending_at(m, first), second) =~= Map::<TimerKey, W>::empty());
    assert(pending_at(pending_at(m, first), second) =~= pending_at(m, first));
}

/// A timer registered for `deadline` is woken by a reaction at `now`
/// exactly when `now` has reached the deadline, and is kept otherwise.
pub proof fn lemma_timer_fires_at_deadline<W>(m: Map<TimerKey, W>, deadline: u128, id: usize, waker: W, now: u128)
    ensures
        expired_at(m.insert((deadline, id), waker), now).contains_key((deadline, id)) <==> deadline <= now,
        pending_at(m.insert((deadline, id), waker), now).contains_key((deadline, id)) <==> now < deadline,
        deadline <= now ==> expired_at(m.insert((deadline, id), waker), now)[(deadline, id)] == waker,
{
}

/// Removing a timer right after registering it leaves the timers as they
/// were, since a registered timer always gets a key no timer had.
pub proof fn lemma_remove_undoes_insert<W>(m: Map<TimerKey, W>, deadline: u128, id: usize, waker: W)
    requires
        !m.contains_key((deadline, id)),
    ensures
        m.insert((deadline, id), waker).remove((deadline, id)) == m,
{
    assert(m.insert((deadline, id), waker).remove((deadline, id)) =~= m);
}

/// `BTreeMap::split_off`: the entries whose key is at least `bound` move to
/// the returned map, the others stay.  std orders a pair by its first
/// component, then by its second, which `key_lt` states.
#[verifier::external_body]
fn split_off_from<W>(m: &mut BTreeMap<TimerKey, W>, bound: &TimerKey) -> (hi: BTreeMap<TimerKey, W>)
    ensures
        hi@ == old(m)@.restrict(Set::new(|k: TimerKey| !key_lt(k, *bound))),
        final(m)@ == old(m)@.restrict(Set::new(|k: TimerKey| key_lt(k, *bound))),
{
    m.split_off(bound)
}

/// `BTreeMap::pop_first`: removes and returns the entry with the least key
/// (in std's order on pairs, which `key_lt` states), or `None` when the map
/// is empty.
#[verifier::external_body]
fn pop_first_timer<W>(m: &mut BTreeMap<TimerKey, W>) -> (r: Option<(TimerKey, W)>)
    ensures
        match r {
            None => old(m)@.dom() =~= Set::empty() && final(m)@ == old(m)@,
            Some((k, w)) => {
                &&& old(m)@.contains_key(k)
                &&& old(m)@[k] == w
                &&& final(m)@ == old(m)@.remove(k)
                &&& forall|k2: TimerKey| #[trigger] old(m)@.contains_key(k2) && k2 != k ==> key_lt(k, k2)
            },
        },
{
    m.pop_first()
}

/// Holds the timers that tasks wait on, each with the waker of its task.
pub struct Reactor<W> {
    next_id: usize,
    timers: BTreeMap<TimerKey, W>,
}

impl<W> Reactor<W> {
    /// The timers, by deadline and id.
    pub closed spec fn timers(&self) -> Map<TimerKey, W> {
        self.timers@
    }

    /// The id that the next timer will get.
    pub closed spec fn next_id(&self) -> nat {
        self.next_id as nat
    }

    /// There are finitely many timers, and every one has an id that was
    /// handed out before.
    pub open spec fn wf(&self) -> bool {
        &&& self.timers().dom().finite()
        &&& forall|k: TimerKey| #[trigger] self.timers().contains_key(k) ==> k.1 < self.next_id()
    }

    /// An empty reactor whose first timer gets id 0.
    pub fn new() -> (r: Self)
        ensures
            r.wf(),
            r.timers() == Map::<TimerKey, W>::empty(),
            r.next_id() == 0,
    {
        Reactor { next_id: 0, timers: BTreeMap::new() }
    }

    /// The id that the next timer will get.
    pub fn next_timer_id(&self) -> (r: usize)
        ensures
            r == self.next_id(),
    {
        self.next_id
    }

    /// The number of timers.
    pub fn len(&self) -> (n: usize)
        requires
            self.wf(),
        ensures
            n == self.timers().dom().len(),
    {
        self.timers.len()
    }

    /// Registers a timer for `next_time` with the waker of its task and
    /// returns the timer's id, which no timer had before.
    pub fn insert_timer(&mut self, next_time: u128, waker: W) -> (id: usize)
        requires
            old(self).wf(),
            old(self).next_id() < usize::MAX,
        ensures
            final(self).wf(),
            id == old(self).next_id(),
            final(self).next_id() == old(self).next_id() + 1,
            !old(self).timers().contains_key((next_time, id)),
            final(self).timers() == old(self).timers().insert((next_time, id), waker),
            final(self).timers().dom().len() == old(self).timers().dom().len() + 1,
    {
        let id = self.next_id;
        self.timers.insert((next_time, id), waker);
        self.next_id = self.next_id + 1;
        assert forall|k: TimerKey| #[trigger] self.timers().contains_key(k) implies k.1 < self.next_id() by {
            if k != (next_time, id) {
                assert(old(self).timers().contains_key(k));
            }
        }
        assert(self.timers().dom() =~= old(self).timers().dom().insert((next_time, id)));
        id
    }

    /// Drops the timer for `next_time` with id `id`, if there is one.
    pub fn remove_timer(&mut self, next_time: u128, id: usize)
        requires
            old(self).wf(),
        ensures
            final(self).wf(),
            final(self).next_id() == old(self).next_id(),
            final(self).timers() == old(self).timers().remove((next_time, id)),
    {
        self.timers.remove(&(next_time, id));
        assert forall|k: TimerKey| #[trigger] self.timers().contains_key(k) implies k.1 < self.next_id() by {
            assert(old(self).timers().contains_key(k));
        }
    }

    /// Takes out every timer whose deadline is at or before `now` and
    /// returns their wakers, earliest deadline first (ties by id).  The
    /// caller wakes them.
    pub fn process_timers(&mut self, now: u128) -> (wakers: Vec<W>)
        requires
            old(self).wf(),
        ensures
            final(self).wf(),
            final(self).next_id() == old(self).next_id(),
            final(self).timers() == pending_at(old(self).timers(), now),
            values_in_key_order(expired_at(old(self).timers(), now), wakers@),
            wakers@.len() + final(self).timers().dom().len() == old(self).timers().dom().len(),
            forall|k: TimerKey|
                #[trigger] final(self).timers().contains_key(k) <==> old(self).timers().contains_key(k)
                    && now < k.0,
            forall|k: TimerKey|
                #[trigger] final(self).timers().contains_key(k) ==> final(self).timers()[k]
                    == old(self).timers()[k],
    {
        let ghost before = self.timers@;
        let mut due: BTreeMap<TimerKey, W> = if now < u128::MAX {
            let bound: TimerKey = (now + 1, 0);
            split_off_from(&mut self.timers, &bound)
        } else {
            BTreeMap::new()
        };
        std::mem::swap(&mut due, &mut self.timers);
        assert(self.timers@ =~= pending_at(before, now));
        assert forall|k: TimerKey| #[trigger] self.timers().contains_key(k) implies k.1 < self.next_id() by {
            assert(old(self).timers().contains_key(k));
        }
        let ghost due0 = due@;
        assert(due0 =~= expired_at(before, now));
        let mut wakers: Vec<W> = Vec::new();
        let ghost mut keys: Seq<TimerKey> = Seq::empty();
        loop
            invariant_except_break
                wakers@.len() == keys.len(),
                forall|i: int, j: int| 0 <= i < j < keys.len() ==> key_lt(#[trigger] keys[i], #[trigger] keys[j]),
                forall|i: int| 0 <= i < keys.len() ==> #[trigger] due0.contains_key(keys[i]) && wakers@[i] == due0[keys[i]],
                forall|i: int, k: TimerKey| 0 <= i < keys.len() && #[trigger] due@.contains_key(k) ==> key_lt(#[trigger] keys[i], k),
                forall|k: TimerKey| #[trigger] due0.contains_key(k) ==> due@.contains_key(k) || keys.contains(k),
                forall|k: TimerKey| #[trigger] due@.contains_key(k) ==> due0.contains_key(k) && due@[k] == due0[k],
            ensures
                lists_in_key_order(due0, keys, wakers@),
            decreases due@.dom().len(),
        {
            match pop_first_timer(&mut due) {
                None => {
                    break;
                },
                Some((k, w)) => {
                    proof {
                        let ghost prev = keys;
                        keys = keys.push(k);
                        assert forall|k2: TimerKey| #[trigger] due0.contains_key(k2) implies due@.contains_key(k2) || keys.contains(k2) by {
                            if k2 == k {
                                assert(keys[keys.len() - 1] == k);
                            } else if prev.contains(k2) {
                                let i = choose|i: int| 0 <= i < prev.len() && prev[i] == k2;
                                assert(keys[i] == k2);
                            }
                        }
                    }
                    wakers.push(w);
                },
            }
        }
        proof {
            lemma_key_order_len(due0, keys, wakers@);
            lemma_expired_pending_partition(before, now);
        }
        wakers
    }
}

} // verus!
