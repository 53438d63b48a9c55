//! The beat-grid state machine: it turns musical time into the events that
//! start and stop grains and fade the dry signal.

use crate::fixed::{clamp, narrow, UNIT};
use crate::scheduler::{
    accepts, due, due_count, kept, lemma_due_is_every_event_in_time, sorted, Scheduler,
};
use vstd::prelude::*;

verus! {

/// The latest musical time that the state machine takes, in fixed-point
/// beats; grid intervals and fade lead-ins are bounded by it as well.
pub const MAX_BEATS: i64 = 0x2000_0000_0000_0000;

/// What the state machine asks of the engine.
#[derive(Debug, Clone, Copy, PartialEq, Eq)]
pub enum LoopEvent {
    /// Start a grain of `duration` beats.
    StartGrain { duration: i64 },
    /// Start a grain of `duration` beats part of the way through the loop:
    /// `offset_reduction` beats of the loop lie before it.
    StartLegatoGrain { duration: i64, offset_reduction: i64 },
    /// Stop the grains that sound.
    StopGrain,
    /// Fade the dry signal out.
    FadeOutDry,
    /// Fade the dry signal in.
    FadeInDry,
    /// Start the next repetition; handled inside the state machine and
    /// never handed out.
    NextLoop,
}

/// `a / b` rounded up, for a positive `b`.
pub open spec fn ceil_div(a: int, b: int) -> int {
    -((-a) / b)
}

/// The first grid line at or after `song_time`, where the grid lines lie
/// every `interval` beats and are moved `lead_in` beats earlier, so that a
/// fade which starts there has ended on the unmoved line.
pub open spec fn next_grid(song_time: int, interval: int, lead_in: int) -> int {
    ceil_div(song_time + lead_in, interval) * interval - lead_in
}

/// The last grid line at or before `song_time`.
pub open spec fn previous_grid(song_time: int, interval: int, lead_in: int) -> int {
    ((song_time + lead_in) / interval) * interval - lead_in
}

/// The next grid line lies at or after the given time and less than one
/// interval after it; the previous one lies at or before it and less than
/// one interval before it.
pub proof fn lemma_grid_lines_are_near(song_time: int, interval: int, lead_in: int)
    requires
        interval > 0,
    ensures
        song_time <= next_grid(song_time, interval, lead_in) < song_time + interval,
        song_time - interval < previous_grid(song_time, interval, lead_in) <= song_time,
{
    let a: int = song_time + lead_in;
    let up: int = ceil_div(a, interval);
    let down: int = a / interval;
    assert(a <= up * interval < a + interval) by (nonlinear_arith)
        requires
            interval > 0,
            up == -((-a) / interval),
    ;
    assert(a - interval < down * interval <= a) by (nonlinear_arith)
        requires
            interval > 0,
            down == a / interval,
    ;
}

/// What an event becomes when it is handed out: the internal restart
/// becomes the start of a grain one grid interval long.
pub open spec fn published(event: LoopEvent, grid: int) -> LoopEvent {
    if event == LoopEvent::NextLoop {
        LoopEvent::StartGrain { duration: grid as i64 }
    } else {
        event
    }
}

/// The number of restarts among `events`.
pub open spec fn restarts(events: Seq<LoopEvent>) -> nat
    decreases events.len(),
{
    if events.len() == 0 {
        0
    } else {
        restarts(events.drop_last()) + if events.last() == LoopEvent::NextLoop {
            1nat
        } else {
            0nat
        }
    }
}

/// The mathematical state of the state machine.
pub struct LoopSchedulerModel {
    /// The pending events with their times.
    pub events: Seq<(i64, LoopEvent)>,
    /// The fade lead-in, in beats.
    pub fade_in: int,
    /// The grid interval, in beats.
    pub grid: int,
    /// The musical time of the latest step.
    pub now: int,
    /// The musical time at which looping last began.
    pub looping_since: int,
    /// Whether the machine is looping.
    pub looping: bool,
}

impl LoopSchedulerModel {
    /// The state of a new machine: one beat per grid line, no lead-in, and
    /// one beat before time zero.
    pub open spec fn initial() -> LoopSchedulerModel {
        LoopSchedulerModel {
            events: Seq::empty(),
            fade_in: 0,
            grid: UNIT as int,
            now: -(UNIT as int),
            looping_since: 0,
            looping: false,
        }
    }

    /// What every reachable state satisfies. A pending restart is never
    /// followed by a later event, and there is none unless the machine is
    /// looping.
    pub open spec fn valid(self) -> bool {
        &&& sorted(self.events)
        &&& 0 < self.grid <= MAX_BEATS
        &&& -MAX_BEATS <= self.fade_in <= MAX_BEATS
        &&& -UNIT <= self.now <= MAX_BEATS
        &&& forall|i: int|
            0 <= i < self.events.len() && (#[trigger] self.events[i]).1 == LoopEvent::NextLoop
                ==> self.events[i].0 == self.events.last().0 && self.looping
    }

    /// The next grid line for the current interval.
    pub open spec fn boundary(self) -> int {
        next_grid(self.now, self.grid, self.fade_in)
    }

    /// The next grid line for the interval `interval`.
    pub open spec fn boundary_for(self, interval: int) -> int {
        next_grid(self.now, interval, self.fade_in)
    }

    /// Whether a change of the grid interval to `interval` reschedules.
    pub open spec fn regrids(self, interval: int) -> bool {
        self.looping && interval != self.grid
    }

    /// The event that a change of the grid interval puts before the
    /// restart: a stop where the interval shrinks, a bridging grain from
    /// the old grid line to the new one where it grows and the new line is
    /// later, and otherwise none.
    pub open spec fn bridge(self, interval: int) -> Seq<(i64, LoopEvent)> {
        let next_old = self.boundary();
        let next_new = self.boundary_for(interval);
        if interval < self.grid {
            seq![(next_new as i64, LoopEvent::StopGrain)]
        } else if next_new > next_old {
            seq![
                (
                    next_old as i64,
                    LoopEvent::StartLegatoGrain {
                        duration: (next_new - next_old) as i64,
                        offset_reduction: (interval - (next_new - next_old)) as i64,
                    },
                ),
            ]
        } else {
            Seq::empty()
        }
    }

    /// The state after the grid interval is set to `interval`.
    pub open spec fn set_grid_interval(self, interval: int) -> LoopSchedulerModel {
        if self.regrids(interval) {
            LoopSchedulerModel {
                events: self.bridge(interval).push(
                    (self.boundary_for(interval) as i64, LoopEvent::NextLoop),
                ),
                grid: interval,
                ..self
            }
        } else {
            LoopSchedulerModel { grid: interval, ..self }
        }
    }

    /// The state after looping starts.
    pub open spec fn start_looping(self) -> LoopSchedulerModel {
        LoopSchedulerModel {
            events: self.events.push((self.boundary() as i64, LoopEvent::NextLoop)).push(
                (self.boundary() as i64, LoopEvent::FadeOutDry),
            ),
            looping: true,
            looping_since: self.now,
            ..self
        }
    }

    /// The state after looping stops: the pending events are dropped, and
    /// the stop of the grains and the fade-in of the dry signal are pending
    /// at the next grid line. A machine that is not looping stays as it is.
    pub open spec fn stop_looping(self) -> LoopSchedulerModel {
        if self.looping {
            LoopSchedulerModel {
                events: seq![
                    (self.boundary() as i64, LoopEvent::StopGrain),
                    (self.boundary() as i64, LoopEvent::FadeInDry),
                ],
                looping: false,
                ..self
            }
        } else {
            self
        }
    }

    /// The state after a reset.
    pub open spec fn reset(self) -> LoopSchedulerModel {
        LoopSchedulerModel { events: Seq::empty(), looping: false, ..self }
    }

    /// The events that a step to `time` hands out: those that are due, in
    /// insertion order, each as it is published.
    pub open spec fn emitted(self, time: int) -> Seq<LoopEvent> {
        Seq::new(
            due_count(self.events, time),
            |i: int| published(self.events[i].1, self.grid),
        )
    }

    /// The state after a step to `time`: the due events have left, and for
    /// each restart among them the next one is pending one grid interval
    /// after `time`.
    pub open spec fn tick(self, time: int) -> LoopSchedulerModel {
        LoopSchedulerModel {
            events: kept(self.events, time) + Seq::new(
                restarts(due(self.events, time)),
                |i: int| ((time + self.grid) as i64, LoopEvent::NextLoop),
            ),
            now: time,
            ..self
        }
    }
}

/// `a / b` rounded up, for a positive `b`.
fn ceil_quotient(a: i128, b: i128) -> (q: i128)
    requires
        b > 0,
        -0x1_0000_0000_0000_0000 <= a <= 0x1_0000_0000_0000_0000,
    ensures
        q == ceil_div(a as int, b as int),
        -0x1_0000_0000_0000_0000 <= q <= 0x1_0000_0000_0000_0000,
{
    if a > 0 {
        let below: i128 = (a - 1) / b;
        assert(0 <= below < a) by (nonlinear_arith)
            requires
                a > 0,
                b > 0,
                below == (a - 1) / (b as int),
        ;
        assert(below + 1 == -((-(a as int)) / (b as int))) by (nonlinear_arith)
            requires
                a > 0,
                b > 0,
                below == (a - 1) / (b as int),
        ;
        below + 1
    } else {
        let q: i128 = (-a) / b;
        assert(0 <= q <= -a) by (nonlinear_arith)
            requires
                a <= 0,
                b > 0,
                q == (-a) / (b as int),
        ;
        -q
    }
}

/// The first grid line at or after `song_time`; see [`next_grid`]. The
/// result is clamped to the `i64` range.
pub fn next_grid_in_beats(song_time: i64, grid_interval: i64, grid_offset: i64) -> (line: i64)
    requires
        grid_interval > 0,
    ensures
        line == clamp(next_grid(song_time as int, grid_interval as int, grid_offset as int)),
{
    let a: i128 = song_time as i128 + grid_offset as i128;
    let n: i128 = ceil_quotient(a, grid_interval as i128);
    proof {
        lemma_grid_lines_are_near(song_time as int, grid_interval as int, grid_offset as int);
    }
    let line: i128 = n * (grid_interval as i128) - grid_offset as i128;
    narrow(line)
}

/// The last grid line at or before `song_time`; see [`previous_grid`]. The
/// result is clamped to the `i64` range.
pub fn previous_grid_in_beats(song_time: i64, grid_interval: i64, grid_offset: i64) -> (line: i64)
    requires
        grid_interval > 0,
    ensures
        line == clamp(previous_grid(song_time as int, grid_interval as int, grid_offset as int)),
{
    let a: i128 = song_time as i128 + grid_offset as i128;
    let n: i128 = if a >= 0 {
        a / (grid_interval as i128)
    } else {
        let up: i128 = ceil_quotient(-a, grid_interval as i128);
        -up
    };
    proof {
        lemma_grid_lines_are_near(song_time as int, grid_interval as int, grid_offset as int);
    }
    let line: i128 = n * (grid_interval as i128) - grid_offset as i128;
    narrow(line)
}

/// The restarts of a prefix are no more than those of the whole.
pub proof fn lemma_restarts_of_prefix(events: Seq<LoopEvent>, n: int)
    requires
        0 <= n <= events.len(),
    ensures
        restarts(events.take(n)) <= restarts(events),
    decreases events.len() - n,
{
    if n < events.len() {
        assert(events.take(n + 1).drop_last() =~= events.take(n));
        lemma_restarts_of_prefix(events, n + 1);
    } else {
        assert(events.take(n) =~= events);
    }
}

/// A sequence holds a restart exactly if its number of restarts is above
/// zero.
pub proof fn lemma_restarts_count(events: Seq<LoopEvent>)
    ensures
        restarts(events) > 0 <==> exists|i: int|
            0 <= i < events.len() && events[i] == LoopEvent::NextLoop,
    decreases events.len(),
{
    if events.len() > 0 {
        lemma_restarts_count(events.drop_last());
        if restarts(events) > 0 {
            if events.last() == LoopEvent::NextLoop {
                assert(events[events.len() - 1] == LoopEvent::NextLoop);
            } else {
                let i = choose|i: int|
                    0 <= i < events.drop_last().len() && events.drop_last()[i]
                        == LoopEvent::NextLoop;
                assert(events[i] == LoopEvent::NextLoop);
            }
        }
        if exists|i: int| 0 <= i < events.len() && events[i] == LoopEvent::NextLoop {
            let i = choose|i: int| 0 <= i < events.len() && events[i] == LoopEvent::NextLoop;
            if i < events.len() - 1 {
                assert(events.drop_last()[i] == LoopEvent::NextLoop);
            }
        }
    }
}

/// When a restart is due, every pending event is due with it, and the
/// machine is looping.
pub proof fn lemma_restart_empties_queue(state: LoopSchedulerModel, time: int)
    requires
        state.valid(),
    ensures
        restarts(due(state.events, time)) > 0 ==> kept(state.events, time).len() == 0
            && state.looping,
{
    lemma_due_is_every_event_in_time(state.events, time);
    lemma_restarts_count(due(state.events, time));
    if restarts(due(state.events, time)) > 0 {
        let i = choose|i: int|
            0 <= i < due(state.events, time).len() && due(state.events, time)[i]
                == LoopEvent::NextLoop;
        assert(state.events[i].1 == LoopEvent::NextLoop);
        let last = state.events.len() - 1;
        assert(state.events[last].0 <= time);
    }
}

/// A step keeps the state valid.
pub proof fn lemma_tick_keeps_valid(state: LoopSchedulerModel, time: int)
    requires
        state.valid(),
        state.now < time <= MAX_BEATS,
    ensures
        state.tick(time).valid(),
{
    lemma_due_is_every_event_in_time(state.events, time);
    lemma_restart_empties_queue(state, time);
    let after = state.tick(time);
    let stay = kept(state.events, time);
    let k = due_count(state.events, time) as int;
    if restarts(due(state.events, time)) > 0 {
        assert(after.events.len() == restarts(due(state.events, time)));
    } else {
        assert(after.events =~= stay);
        assert forall|i: int|
            0 <= i < after.events.len() && (#[trigger] after.events[i]).1
                == LoopEvent::NextLoop implies after.events[i].0 == after.events.last().0
            && after.looping by {
            assert(after.events[i] == state.events[k + i]);
            assert(after.events.last() == state.events.last());
        }
    }
}

/// In a queue whose times never decrease, every event is due once the
/// last one is, and none is due before the first one.
pub proof fn lemma_due_all_or_none<E>(events: Seq<(i64, E)>, now: int)
    requires
        sorted(events),
        events.len() > 0,
    ensures
        events.last().0 <= now ==> due_count(events, now) == events.len(),
        events[0].0 > now ==> due_count(events, now) == 0,
{
    lemma_due_is_every_event_in_time(events, now);
    let k = due_count(events, now) as int;
    if events.last().0 <= now && k < events.len() {
        assert(events[k].0 <= events[events.len() - 1].0);
    }
}

/// The restarts of one event and of two.
pub proof fn lemma_restarts_of_few(first: LoopEvent, second: LoopEvent)
    ensures
        restarts(seq![first]) == if first == LoopEvent::NextLoop {
            1nat
        } else {
            0nat
        },
        restarts(seq![first, second]) == restarts(seq![first]) + restarts(seq![second]),
{
    reveal_with_fuel(restarts, 3);
    assert(seq![first].drop_last() =~= Seq::<LoopEvent>::empty());
    assert(seq![second].drop_last() =~= Seq::<LoopEvent>::empty());
    assert(seq![first, second].drop_last() =~= seq![first]);
}

/// After looping has started from an empty queue, nothing is handed out
/// before the next grid line. The first step at or after it hands out the
/// start of a grain one grid interval long and the fade-out of the dry
/// signal, in that order, and leaves the next restart pending one grid
/// interval after that step.
pub proof fn law_start_looping_starts_on_the_grid(state: LoopSchedulerModel, time: int)
    requires
        state.valid(),
        !state.looping,
        state.events.len() == 0,
        state.now < time <= MAX_BEATS,
    ensures
        time < state.boundary() ==> state.start_looping().emitted(time)
            == Seq::<LoopEvent>::empty(),
        time >= state.boundary() ==> state.start_looping().emitted(time) == seq![
            LoopEvent::StartGrain { duration: state.grid as i64 },
            LoopEvent::FadeOutDry,
        ],
        time >= state.boundary() ==> state.start_looping().tick(time).events == seq![
            ((time + state.grid) as i64, LoopEvent::NextLoop),
        ],
{
    let started = state.start_looping();
    lemma_grid_lines_are_near(state.now, state.grid, state.fade_in);
    lemma_due_all_or_none(started.events, time);
    if time < state.boundary() {
        assert(started.emitted(time) =~= Seq::<LoopEvent>::empty());
    } else {
        assert(started.emitted(time) =~= seq![
            LoopEvent::StartGrain { duration: state.grid as i64 },
            LoopEvent::FadeOutDry,
        ]);
        assert(due(started.events, time) =~= seq![LoopEvent::NextLoop, LoopEvent::FadeOutDry]);
        lemma_restarts_of_few(LoopEvent::NextLoop, LoopEvent::FadeOutDry);
        lemma_restarts_of_few(LoopEvent::FadeOutDry, LoopEvent::FadeOutDry);
        assert(restarts(due(started.events, time)) == 1);
        assert(kept(started.events, time) =~= Seq::<(i64, LoopEvent)>::empty());
        assert(started.tick(time).events =~= seq![
            ((time + state.grid) as i64, LoopEvent::NextLoop),
        ]);
    }
}

/// After looping has stopped, the first step at or after the next grid
/// line hands out the stop of the grains and the fade-in of the dry
/// signal, in that order, and nothing stays pending: no event follows. A
/// second stop leaves the machine as the first one left it.
pub proof fn law_stop_looping_ends_on_the_grid(state: LoopSchedulerModel, time: int, later: int)
    requires
        state.valid(),
        state.looping,
        state.now < time <= MAX_BEATS,
        time < later,
    ensures
        state.stop_looping().stop_looping() == state.stop_looping(),
        time < state.boundary() ==> state.stop_looping().emitted(time)
            == Seq::<LoopEvent>::empty(),
        time >= state.boundary() ==> state.stop_looping().emitted(time) == seq![
            LoopEvent::StopGrain,
            LoopEvent::FadeInDry,
        ],
        time >= state.boundary() ==> state.stop_looping().tick(time).events.len() == 0,
        time >= state.boundary() ==> state.stop_looping().tick(time).emitted(later)
            == Seq::<LoopEvent>::empty(),
{
    let stopped = state.stop_looping();
    lemma_grid_lines_are_near(state.now, state.grid, state.fade_in);
    lemma_due_all_or_none(stopped.events, time);
    if time < state.boundary() {
        assert(stopped.emitted(time) =~= Seq::<LoopEvent>::empty());
    } else {
        assert(stopped.emitted(time) =~= seq![LoopEvent::StopGrain, LoopEvent::FadeInDry]);
        assert(due(stopped.events, time) =~= seq![LoopEvent::StopGrain, LoopEvent::FadeInDry]);
        lemma_restarts_of_few(LoopEvent::StopGrain, LoopEvent::FadeInDry);
        lemma_restarts_of_few(LoopEvent::FadeInDry, LoopEvent::FadeInDry);
        assert(restarts(due(stopped.events, time)) == 0);
        assert(kept(stopped.events, time) =~= Seq::<(i64, LoopEvent)>::empty());
        assert(stopped.tick(time).events =~= Seq::<(i64, LoopEvent)>::empty());
        assert(stopped.tick(time).emitted(later) =~= Seq::<LoopEvent>::empty());
    }
}

/// Shrinking the grid while looping stops the sounding grain and restarts
/// the loop at the next line of the new grid: the first step at or after
/// that line hands out the stop and the start of a grain of the new
/// length, in that order, and nothing is handed out before it.
pub proof fn law_shrinking_restarts_on_the_new_grid(
    state: LoopSchedulerModel,
    interval: int,
    time: int,
)
    requires
        state.valid(),
        state.looping,
        0 < interval < state.grid,
        state.now < time <= MAX_BEATS,
    ensures
        time < state.boundary_for(interval) ==> state.set_grid_interval(interval).emitted(time)
            == Seq::<LoopEvent>::empty(),
        time >= state.boundary_for(interval) ==> state.set_grid_interval(interval).emitted(time)
            == seq![LoopEvent::StopGrain, LoopEvent::StartGrain { duration: interval as i64 }],
        time >= state.boundary_for(interval) ==> state.set_grid_interval(interval).tick(
            time,
        ).events == seq![((time + interval) as i64, LoopEvent::NextLoop)],
{
    let shrunk = state.set_grid_interval(interval);
    lemma_grid_lines_are_near(state.now, interval, state.fade_in);
    lemma_due_all_or_none(shrunk.events, time);
    if time < state.boundary_for(interval) {
        assert(shrunk.emitted(time) =~= Seq::<LoopEvent>::empty());
    } else {
        assert(shrunk.emitted(time) =~= seq![
            LoopEvent::StopGrain,
            LoopEvent::StartGrain { duration: interval as i64 },
        ]);
        assert(due(shrunk.events, time) =~= seq![LoopEvent::StopGrain, LoopEvent::NextLoop]);
        lemma_restarts_of_few(LoopEvent::StopGrain, LoopEvent::NextLoop);
        lemma_restarts_of_few(LoopEvent::NextLoop, LoopEvent::NextLoop);
        assert(restarts(due(shrunk.events, time)) == 1);
        assert(kept(shrunk.events, time) =~= Seq::<(i64, LoopEvent)>::empty());
        assert(shrunk.tick(time).events =~= seq![
            ((time + interval) as i64, LoopEvent::NextLoop),
        ]);
    }
}

/// Growing the grid while looping, where the next line of the new grid
/// lies after that of the old one, bridges the gap: a step at or after the
/// old line and before the new one hands out a grain that lasts from the
/// old line to the new one and starts as far into the loop as the new grid
/// interval is longer than that; a step at or after the new line hands out
/// the start of a grain of the new length after it.
pub proof fn law_growing_bridges_to_the_new_grid(
    state: LoopSchedulerModel,
    interval: int,
    time: int,
)
    requires
        state.valid(),
        state.looping,
        state.grid < interval <= MAX_BEATS,
        state.boundary() < state.boundary_for(interval),
        state.now < time <= MAX_BEATS,
    ensures
        ({
            let gap = state.boundary_for(interval) - state.boundary();
            let bridge = LoopEvent::StartLegatoGrain {
                duration: gap as i64,
                offset_reduction: (interval - gap) as i64,
            };
            let grown = state.set_grid_interval(interval);
            &&& 0 < gap < interval
            &&& time < state.boundary() ==> grown.emitted(time) == Seq::<LoopEvent>::empty()
            &&& state.boundary() <= time < state.boundary_for(interval) ==> grown.emitted(time)
                == seq![bridge]
            &&& time >= state.boundary_for(interval) ==> grown.emitted(time) == seq![
                bridge,
                LoopEvent::StartGrain { duration: interval as i64 },
            ]
        }),
{
    let grown = state.set_grid_interval(interval);
    lemma_grid_lines_are_near(state.now, interval, state.fade_in);
    lemma_grid_lines_are_near(state.now, state.grid, state.fade_in);
    lemma_due_all_or_none(grown.events, time);
    lemma_due_is_every_event_in_time(grown.events, time);
    let gap = state.boundary_for(interval) - state.boundary();
    let bridge = LoopEvent::StartLegatoGrain {
        duration: gap as i64,
        offset_reduction: (interval - gap) as i64,
    };
    assert(grown.events =~= seq![
        (state.boundary() as i64, bridge),
        (state.boundary_for(interval) as i64, LoopEvent::NextLoop),
    ]);
    if time < state.boundary() {
        assert(grown.emitted(time) =~= Seq::<LoopEvent>::empty());
    } else if time < state.boundary_for(interval) {
        assert(due_count(grown.events, time) == 1);
        assert(grown.emitted(time) =~= seq![bridge]);
    } else {
        assert(grown.emitted(time) =~= seq![
            bridge,
            LoopEvent::StartGrain { duration: interval as i64 },
        ]);
    }
}

/// The state machine that schedules the loop on the beat grid.
pub struct LoopScheduler {
    scheduler: Scheduler<LoopEvent>,
    fade_in_time: i64,
    grid_interval: i64,
    current_song_time: i64,
    time_looping_initiated: i64,
    is_looping: bool,
}

impl View for LoopScheduler {
    type V = LoopSchedulerModel;

    closed spec fn view(&self) -> LoopSchedulerModel {
        LoopSchedulerModel {
            events: self.scheduler@,
            fade_in: self.fade_in_time as int,
            grid: self.grid_interval as int,
            now: self.current_song_time as int,
            looping_since: self.time_looping_initiated as int,
            looping: self.is_looping,
        }
    }
}

impl LoopScheduler {
    /// The representation invariant.
    pub open spec fn wf(&self) -> bool {
        self@.valid()
    }

    /// A machine that is not looping, at one beat before time zero, with a
    /// grid of one beat and no lead-in.
    pub fn new() -> (r: LoopScheduler)
        ensures
            r.wf(),
            r@ == LoopSchedulerModel::initial(),
    {
        LoopScheduler {
            scheduler: Scheduler::new(),
            fade_in_time: 0,
            grid_interval: UNIT,
            current_song_time: -UNIT,
            time_looping_initiated: 0,
            is_looping: false,
        }
    }

    /// Discards the pending events and leaves looping.
    pub fn reset(&mut self)
        requires
            old(self).wf(),
        ensures
            final(self).wf(),
            final(self)@ == old(self)@.reset(),
    {
        self.scheduler.clear();
        self.is_looping = false;
    }

    /// Sets the fade lead-in, in beats.
    pub fn set_fade_lead_in(&mut self, fade_in: i64)
        requires
            old(self).wf(),
            -MAX_BEATS <= fade_in <= MAX_BEATS,
        ensures
            final(self).wf(),
            final(self)@ == (LoopSchedulerModel { fade_in: fade_in as int, ..old(self)@ }),
    {
        self.fade_in_time = fade_in;
    }

    /// Sets the grid interval, in beats. A machine that is not looping
    /// only takes note of it. A looping machine drops its pending events and
    /// restarts on the new grid: where the interval shrinks it stops the
    /// sounding grain at the new grid line; where it grows and the new line
    /// is later than the old one, it bridges from the old line to the new
    /// one with a grain that starts part of the way through the loop.
    pub fn set_grid_interval(&mut self, new_interval: i64)
        requires
            old(self).wf(),
            0 < new_interval <= MAX_BEATS,
        ensures
            final(self).wf(),
            final(self)@ == old(self)@.set_grid_interval(new_interval as int),
    {
        if new_interval == self.grid_interval || !self.is_looping {
            self.grid_interval = new_interval;
            return ;
        }
        self.scheduler.clear();
        let next_old_grid_interval: i64 = self.next_boundary(self.grid_interval);
        let next_new_grid_interval: i64 = self.next_boundary(new_interval);
        if new_interval < self.grid_interval {
            self.scheduler.schedule_event(next_new_grid_interval, LoopEvent::StopGrain);
        } else if next_new_grid_interval > next_old_grid_interval {
            let reduced_grid_interval: i64 = next_new_grid_interval - next_old_grid_interval;
            let how_far_thru: i64 = new_interval - reduced_grid_interval;
            self.scheduler.schedule_event(
                next_old_grid_interval,
                LoopEvent::StartLegatoGrain {
                    duration: reduced_grid_interval,
                    offset_reduction: how_far_thru,
                },
            );
        }
        self.scheduler.schedule_event(next_new_grid_interval, LoopEvent::NextLoop);
        self.grid_interval = new_interval;
        proof {
            assert(self@.events =~= old(self)@.set_grid_interval(new_interval as int).events);
        }
    }

    /// Starts looping: the first repetition and the fade-out of the dry
    /// signal are scheduled at the next grid line, which must not lie
    /// before the last pending event.
    pub fn start_looping(&mut self)
        requires
            old(self).wf(),
            !old(self)@.looping,
            accepts(old(self)@.events, old(self)@.boundary()),
        ensures
            final(self).wf(),
            final(self)@ == old(self)@.start_looping(),
    {
        self.is_looping = true;
        self.time_looping_initiated = self.current_song_time;
        let next_grid_interval: i64 = self.next_boundary(self.grid_interval);
        self.scheduler.schedule_event(next_grid_interval, LoopEvent::NextLoop);
        self.scheduler.schedule_event(next_grid_interval, LoopEvent::FadeOutDry);
    }

    /// Stops looping: the pending events are dropped, and the stop of the
    /// grains and the fade-in of the dry signal are scheduled at the next
    /// grid line. Nothing recurs after them. On a machine that is not
    /// looping the call changes nothing, so a second stop adds nothing to
    /// the first.
    pub fn stop_looping(&mut self)
        requires
            old(self).wf(),
        ensures
            final(self).wf(),
            final(self)@ == old(self)@.stop_looping(),
            !old(self)@.looping ==> final(self)@ == old(self)@,
            !final(self)@.looping,
    {
        if !self.is_looping {
            return ;
        }
        self.is_looping = false;
        self.scheduler.clear();
        let next_grid_interval: i64 = self.next_boundary(self.grid_interval);
        self.scheduler.schedule_event(next_grid_interval, LoopEvent::StopGrain);
        self.scheduler.schedule_event(next_grid_interval, LoopEvent::FadeInDry);
        proof {
            assert(self@.events =~= old(self)@.stop_looping().events);
        }
    }

    /// Moves musical time forward to `beat_time` and returns the events
    /// that are due, in the order in which they were scheduled. A restart
    /// is returned as the start of a grain one grid interval long, and the
    /// next restart is scheduled one grid interval after `beat_time`.
    pub fn tick(&mut self, beat_time: i64) -> (returned_events: Vec<LoopEvent>)
        requires
            old(self).wf(),
            old(self)@.now < beat_time <= MAX_BEATS,
        ensures
            final(self).wf(),
            final(self)@ == old(self)@.tick(beat_time as int),
            returned_events@ == old(self)@.emitted(beat_time as int),
    {
        self.current_song_time = beat_time;
        let events: Vec<LoopEvent> = self.scheduler.tick(beat_time);
        let mut returned_events: Vec<LoopEvent> = Vec::new();
        let ghost before = old(self)@;
        let ghost stay = kept(before.events, beat_time as int);
        proof {
            lemma_due_is_every_event_in_time(before.events, beat_time as int);
            lemma_restart_empties_queue(before, beat_time as int);
            assert(events@.take(0) =~= Seq::<LoopEvent>::empty());
            assert(self.scheduler@ =~= stay + Seq::new(
                0nat,
                |j: int| ((beat_time + before.grid) as i64, LoopEvent::NextLoop),
            ));
        }
        let mut i: usize = 0;
        while i < events.len()
            invariant
                i <= events.len(),
                before == old(self)@,
                before.valid(),
                before.now < beat_time <= MAX_BEATS,
                stay == kept(before.events, beat_time as int),
                events@ == due(before.events, beat_time as int),
                self.scheduler.wf(),
                self.grid_interval == before.grid,
                self.fade_in_time == before.fade_in,
                self.time_looping_initiated == before.looping_since,
                self.is_looping == before.looping,
                self.current_song_time == beat_time,
                restarts(events@) > 0 ==> stay.len() == 0 && before.looping,
                self.scheduler@ == stay + Seq::new(
                    restarts(events@.take(i as int)),
                    |j: int| ((beat_time + before.grid) as i64, LoopEvent::NextLoop),
                ),
                returned_events@.len() == i,
                forall|j: int|
                    0 <= j < i ==> returned_events@[j] == published(events@[j], before.grid),
            decreases events.len() - i,
        {
            let event: LoopEvent = events[i];
            proof {
                assert(events@.take(i + 1).drop_last() =~= events@.take(i as int));
                assert(events@.take(i + 1).last() == events@[i as int]);
                lemma_restarts_of_prefix(events@, (i + 1) as int);
            }
            match event {
                LoopEvent::NextLoop => {
                    returned_events.push(LoopEvent::StartGrain { duration: self.grid_interval });
                    self.scheduler.schedule_event(
                        self.current_song_time + self.grid_interval,
                        LoopEvent::NextLoop,
                    );
                    proof {
                        assert(self.scheduler@ =~= stay + Seq::new(
                            restarts(events@.take(i + 1)),
                            |j: int| ((beat_time + before.grid) as i64, LoopEvent::NextLoop),
                        ));
                    }
                },
                _ => {
                    returned_events.push(event);
                },
            }
            i = i + 1;
        }
        proof {
            assert(events@.take(events@.len() as int) =~= events@);
            assert(returned_events@ =~= before.emitted(beat_time as int));
            assert(self@.events == before.tick(beat_time as int).events);
            lemma_tick_keeps_valid(before, beat_time as int);
        }
        returned_events
    }

    /// Whether [`LoopScheduler::start_looping`] may be called.
    pub fn can_start_looping(&self) -> (ok: bool)
        requires
            self.wf(),
        ensures
            ok == (!self@.looping && accepts(self@.events, self@.boundary())),
    {
        if self.is_looping {
            return false;
        }
        let line: i64 = self.next_boundary(self.grid_interval);
        self.scheduler.can_schedule(line)
    }

    /// Whether the machine is looping.
    pub fn is_looping(&self) -> (r: bool)
        ensures
            r == self@.looping,
    {
        self.is_looping
    }

    /// The musical time of the latest step.
    pub fn current_song_time(&self) -> (r: i64)
        ensures
            r == self@.now,
    {
        self.current_song_time
    }

    /// The grid interval, in beats.
    pub fn grid_interval(&self) -> (r: i64)
        ensures
            r == self@.grid,
    {
        self.grid_interval
    }

    /// The next grid line for the grid interval `interval`.
    pub fn next_boundary(&self, interval: i64) -> (line: i64)
        requires
            self.wf(),
            0 < interval <= MAX_BEATS,
        ensures
            line == self@.boundary_for(interval as int),
            self@.now <= line < self@.now + interval,
    {
        proof {
            lemma_grid_lines_are_near(self@.now, interval as int, self@.fade_in);
        }
        next_grid_in_beats(self.current_song_time, interval, self.fade_in_time)
    }
}

} // verus!
