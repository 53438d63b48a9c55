//! A queue of timed events that are handed out in time order.
//!
//! Events are inserted in non-decreasing time order, which the caller
//! guarantees; the queue is not a general priority queue.

use vstd::prelude::*;

verus! {

/// The times of `events` never decrease.
pub open spec fn sorted<E>(events: Seq<(i64, E)>) -> bool {
    forall|i: int, j: int| 0 <= i <= j < events.len() ==> events[i].0 <= events[j].0
}

/// Whether an event at `time` may be inserted: not before the last pending
/// event.
pub open spec fn accepts<E>(events: Seq<(i64, E)>, time: int) -> bool {
    events.len() > 0 ==> time >= events.last().0
}

/// The number of events at the front of the queue that are due at `now`.
pub open spec fn due_count<E>(events: Seq<(i64, E)>, now: int) -> nat
    decreases events.len(),
{
    if events.len() == 0 || events[0].0 > now {
        0
    } else {
        1 + due_count(events.skip(1), now)
    }
}

/// The events that are due at `now`, in insertion order.
pub open spec fn due<E>(events: Seq<(i64, E)>, now: int) -> Seq<E> {
    Seq::new(due_count(events, now), |i: int| events[i].1)
}

/// The events that stay pending after those due at `now` have left.
pub open spec fn kept<E>(events: Seq<(i64, E)>, now: int) -> Seq<(i64, E)> {
    events.skip(due_count(events, now) as int)
}

/// The due events are a prefix of the queue, and where the times never
/// decrease they are exactly the events whose time has come.
pub proof fn lemma_due_is_every_event_in_time<E>(events: Seq<(i64, E)>, now: int)
    ensures
        due_count(events, now) <= events.len(),
        forall|i: int| 0 <= i < due_count(events, now) ==> events[i].0 <= now,
        due_count(events, now) < events.len() ==> events[due_count(events, now) as int].0 > now,
        sorted(events) ==> forall|i: int|
            0 <= i < events.len() ==> (i < due_count(events, now) <==> events[i].0 <= now),
        sorted(events) ==> sorted(kept(events, now)),
    decreases events.len(),
{
    if events.len() == 0 || events[0].0 > now {
    } else {
        let rest = events.skip(1);
        lemma_due_is_every_event_in_time(rest, now);
        assert forall|i: int| 0 <= i < due_count(events, now) implies events[i].0 <= now by {
            if i > 0 {
                assert(rest[i - 1] == events[i]);
            }
        }
        let k = due_count(events, now) as int;
        if k < events.len() {
            assert(rest[k - 1] == events[k]);
        }
    }
    if sorted(events) {
        let k = due_count(events, now) as int;
        assert forall|i: int| 0 <= i < events.len() implies (i < k <==> events[i].0 <= now) by {
            if i >= k {
                assert(events[k].0 <= events[i].0);
            }
        }
        let tail = kept(events, now);
        assert forall|i: int, j: int| 0 <= i <= j < tail.len() implies tail[i].0 <= tail[j].0 by {
            assert(tail[i] == events[k + i]);
            assert(tail[j] == events[k + j]);
        }
    }
}

/// A queue of events of type `E`, each with the time at which it is due.
pub struct Scheduler<E: Copy> {
    events: Vec<(i64, E)>,
}

impl<E: Copy> View for Scheduler<E> {
    type V = Seq<(i64, E)>;

    /// The pending events with their times, in insertion order.
    closed spec fn view(&self) -> Seq<(i64, E)> {
        self.events@
    }
}

impl<E: Copy> Scheduler<E> {
    /// The representation invariant: the times never decrease.
    pub open spec fn wf(&self) -> bool {
        sorted(self@)
    }

    /// An empty queue.
    pub fn new() -> (r: Scheduler<E>)
        ensures
            r.wf(),
            r@ == Seq::<(i64, E)>::empty(),
    {
        Scheduler { events: Vec::new() }
    }

    /// Appends `event`, due at `time`. The time must not lie before that
    /// of the last pending event.
    pub fn schedule_event(&mut self, time: i64, event: E)
        requires
            old(self).wf(),
            accepts(old(self)@, time as int),
        ensures
            final(self).wf(),
            final(self)@ == old(self)@.push((time, event)),
    {
        self.events.push((time, event));
    }

    /// Removes and returns, in insertion order, every pending event whose
    /// time is `time` or earlier.
    pub fn tick(&mut self, time: i64) -> (events: Vec<E>)
        requires
            old(self).wf(),
        ensures
            final(self).wf(),
            events@ == due(old(self)@, time as int),
            final(self)@ == kept(old(self)@, time as int),
            events@.len() + final(self)@.len() == old(self)@.len(),
            forall|i: int|
                0 <= i < old(self)@.len() ==> (i < events@.len() <==> (#[trigger] old(self)@[i]).0
                    <= time),
    {
        let mut events: Vec<E> = Vec::new();
        let ghost mut taken: int = 0;
        while self.events.len() > 0
            invariant
                0 <= taken <= old(self)@.len(),
                self.events@ == old(self)@.skip(taken),
                events@.len() == taken,
                forall|i: int| 0 <= i < taken ==> events@[i] == old(self)@[i].1,
                due_count(old(self)@, time as int) == taken + due_count(self.events@, time as int),
            ensures
                due_count(self.events@, time as int) == 0,
                0 <= taken <= old(self)@.len(),
                self.events@ == old(self)@.skip(taken),
                events@.len() == taken,
                forall|i: int| 0 <= i < taken ==> events@[i] == old(self)@[i].1,
                due_count(old(self)@, time as int) == taken + due_count(self.events@, time as int),
            decreases self.events.len(),
        {
            let first: (i64, E) = self.events[0];
            if first.0 <= time {
                proof {
                    assert(self.events@[0] == old(self)@[taken]);
                    assert(self.events@.skip(1) == old(self)@.skip(taken + 1));
                }
                events.push(first.1);
                self.events.remove(0);
                proof {
                    taken = taken + 1;
                    assert(self.events@ == old(self)@.skip(taken));
                }
            } else {
                break ;
            }
        }
        proof {
            lemma_due_is_every_event_in_time(old(self)@, time as int);
            assert(events@ =~= due(old(self)@, time as int));
        }
        events
    }

    /// Whether an event at `time` may be scheduled; see [`accepts`].
    pub fn can_schedule(&self, time: i64) -> (ok: bool)
        ensures
            ok == accepts(self@, time as int),
    {
        let n: usize = self.events.len();
        n == 0 || time >= self.events[n - 1].0
    }

    /// Discards every pending event.
    pub fn clear(&mut self)
        ensures
            final(self).wf(),
            final(self)@ == Seq::<(i64, E)>::empty(),
    {
        self.events.clear();
    }
}

} // verus!
