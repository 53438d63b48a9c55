//! A linear ramp between two fixed-point levels, for click-free fades.

use vstd::prelude::*;

verus! {

/// How far from its target a ramp is that has `remaining` of `total` steps
/// still to go over `distance`: that fraction of the distance, rounded
/// down, but not nothing while steps remain, so that the target is reached
/// on the last step and on no earlier one.
pub open spec fn ramp_share(distance: int, remaining: nat, total: nat) -> int {
    if remaining == 0 {
        0
    } else if (distance * remaining) / (total as int) == 0 && distance > 0 {
        1
    } else {
        (distance * remaining) / (total as int)
    }
}

/// The level of a ramp from `start` to `target` with `remaining` of `total`
/// steps still to go: its share of the distance away from `target`, on the
/// side of `start`.
pub open spec fn ramp_level(start: int, target: int, remaining: nat, total: nat) -> int {
    if start >= target {
        target + ramp_share(start - target, remaining, total)
    } else {
        target - ramp_share(target - start, remaining, total)
    }
}

/// The mathematical state of a ramp.
pub struct RampModel {
    /// The level most recently reached.
    pub value: int,
    /// The level at which the current ramp began.
    pub start: int,
    /// The level at which the ramp ends.
    pub target: int,
    /// Steps still to go.
    pub remaining: nat,
    /// Steps of the whole ramp.
    pub total: nat,
}

impl RampModel {
    /// A ramp at rest at `level`.
    pub open spec fn resting(level: int) -> RampModel {
        RampModel { value: level, start: level, target: level, remaining: 0, total: 0 }
    }

    /// Jumping to `level` cancels any ramp in flight.
    pub open spec fn set(self, level: int) -> RampModel {
        RampModel { value: level, target: level, remaining: 0, ..self }
    }

    /// Starting a ramp toward `target` with `time` intermediate steps.
    pub open spec fn ramp(self, target: int, time: nat) -> RampModel {
        RampModel {
            value: self.value,
            start: self.value,
            target,
            remaining: time + 1,
            total: time + 1,
        }
    }

    /// The level that the next step returns.
    pub open spec fn output(self) -> int {
        if self.remaining == 0 {
            self.target
        } else {
            ramp_level(self.start, self.target, (self.remaining - 1) as nat, self.total)
        }
    }

    /// The state after one step.
    pub open spec fn tick(self) -> RampModel {
        if self.remaining == 0 {
            self
        } else {
            RampModel {
                value: self.output(),
                remaining: (self.remaining - 1) as nat,
                ..self
            }
        }
    }

    /// The state after `count` steps.
    pub open spec fn ticks(self, count: nat) -> RampModel
        decreases count,
    {
        if count == 0 {
            self
        } else {
            self.ticks((count - 1) as nat).tick()
        }
    }

    /// What every reachable state satisfies.
    pub open spec fn valid(self) -> bool {
        &&& self.remaining <= self.total
        &&& self.remaining == 0 ==> self.value == self.target
    }
}

/// A ramp level lies between the target and the start. It is the target
/// once no step remains, and where start and target differ it is not the
/// target while a step remains; while fewer steps remain than the ramp has
/// and the distance is two or more, it is not the start either.
pub proof fn lemma_ramp_level_bounds(start: int, target: int, remaining: nat, total: nat)
    requires
        remaining <= total,
        total > 0,
    ensures
        start >= target ==> target <= ramp_level(start, target, remaining, total) <= start,
        start < target ==> start <= ramp_level(start, target, remaining, total) <= target,
        remaining == 0 ==> ramp_level(start, target, remaining, total) == target,
        remaining > 0 && start != target ==> ramp_level(start, target, remaining, total)
            != target,
        remaining < total && (start - target >= 2 || target - start >= 2) ==> ramp_level(
            start,
            target,
            remaining,
            total,
        ) != start,
{
    let d: int = if start >= target {
        start - target
    } else {
        target - start
    };
    let q: int = (d * remaining) / (total as int);
    assert(0 <= q <= d) by (nonlinear_arith)
        requires
            d >= 0,
            0 <= remaining <= total,
            total > 0,
            q == (d * remaining) / (total as int),
    ;
    assert(remaining < total && d > 0 ==> q < d) by (nonlinear_arith)
        requires
            d >= 0,
            0 <= remaining <= total,
            total > 0,
            q == (d * remaining) / (total as int),
    ;
}

/// Two ramps that run against each other between the same two levels, step
/// for step, add up to the sum of the two levels on every step: what one
/// gives up the other takes on.
pub proof fn law_opposite_ramps_are_complementary(a: int, b: int, remaining: nat, total: nat)
    requires
        total > 0,
    ensures
        ramp_level(a, b, remaining, total) + ramp_level(b, a, remaining, total) == a + b,
{
    assert((0int * remaining) / (total as int) == 0) by (nonlinear_arith)
        requires
            total > 0,
    ;
}

/// A value that moves to a target in equal steps.
#[derive(Clone, Copy, Debug)]
pub struct RampedValue {
    value: i64,
    start: i64,
    target_value: i64,
    ramp_time_counter: usize,
    ramp_time_total: usize,
}

impl View for RampedValue {
    type V = RampModel;

    closed spec fn view(&self) -> RampModel {
        RampModel {
            value: self.value as int,
            start: self.start as int,
            target: self.target_value as int,
            remaining: self.ramp_time_counter as nat,
            total: self.ramp_time_total as nat,
        }
    }
}

impl RampedValue {
    /// The representation invariant.
    pub open spec fn wf(&self) -> bool {
        self@.valid()
    }

    /// A ramp at rest at `initial_value`.
    pub fn new(initial_value: i64) -> (r: RampedValue)
        ensures
            r.wf(),
            r@ == RampModel::resting(initial_value as int),
    {
        RampedValue {
            value: initial_value,
            start: initial_value,
            target_value: initial_value,
            ramp_time_counter: 0,
            ramp_time_total: 0,
        }
    }

    /// Jumps to `value` at once and cancels a ramp in flight.
    pub fn set(&mut self, value: i64)
        ensures
            final(self).wf(),
            final(self)@ == old(self)@.set(value as int),
    {
        self.value = value;
        self.target_value = value;
        self.ramp_time_counter = 0;
    }

    /// Begins a ramp from the current level that reaches `target_value`
    /// on step `ramp_time + 1`.
    pub fn ramp(&mut self, target_value: i64, ramp_time: usize)
        requires
            ramp_time < usize::MAX,
        ensures
            final(self).wf(),
            final(self)@ == old(self)@.ramp(target_value as int, ramp_time as nat),
    {
        self.ramp_time_counter = ramp_time + 1;
        self.ramp_time_total = ramp_time + 1;
        self.start = self.value;
        self.target_value = target_value;
    }

    /// Advances one step and returns the level reached, see
    /// [`ramp_level`]; a ramp at rest returns its target.
    pub fn tick(&mut self) -> (level: i64)
        requires
            old(self).wf(),
        ensures
            final(self).wf(),
            final(self)@ == old(self)@.tick(),
            level == old(self)@.output(),
    {
        if self.ramp_time_counter == 0 {
            return self.target_value;
        }
        self.ramp_time_counter = self.ramp_time_counter - 1;
        let falling: bool = self.start >= self.target_value;
        let distance: u128 = if falling {
            (self.start as i128 - self.target_value as i128) as u128
        } else {
            (self.target_value as i128 - self.start as i128) as u128
        };
        let steps: u128 = self.ramp_time_counter as u128;
        assert(distance * steps <= 0xffff_ffff_ffff_ffff * 0xffff_ffff_ffff_ffff) by (nonlinear_arith)
            requires
                0 <= distance <= 0xffff_ffff_ffff_ffff,
                0 <= steps <= 0xffff_ffff_ffff_ffff,
        ;
        let floor: u128 = (distance * steps) / (self.ramp_time_total as u128);
        let share: u128 = if steps > 0 && floor == 0 && distance > 0 {
            1
        } else {
            floor
        };
        proof {
            lemma_ramp_level_bounds(
                self.start as int,
                self.target_value as int,
                self.ramp_time_counter as nat,
                self.ramp_time_total as nat,
            );
        }
        let level: i128 = if falling {
            self.target_value as i128 + share as i128
        } else {
            self.target_value as i128 - share as i128
        };
        self.value = level as i64;
        self.value
    }
}

/// A ramp of `time` intermediate steps returns exactly its target on step
/// `time + 1` and on every step after that.
pub proof fn law_ramp_reaches_target(before: RampModel, target: int, time: nat, steps: nat)
    requires
        steps >= time,
    ensures
        before.ramp(target, time).ticks(steps).output() == target,
        steps > time ==> before.ramp(target, time).ticks(steps).value == target,
{
    lemma_ramp_progress(before, target, time, steps);
    if steps == time {
        lemma_ramp_level_bounds(before.value, target, 0, time + 1);
    }
}

/// The state of a ramp after a number of steps.
pub proof fn lemma_ramp_progress(before: RampModel, target: int, time: nat, steps: nat)
    ensures
        ({
            let after = before.ramp(target, time).ticks(steps);
            &&& after.start == before.value
            &&& after.target == target
            &&& after.total == time + 1
            &&& steps <= time + 1 ==> after.remaining == time + 1 - steps
            &&& steps > time ==> after.remaining == 0 && after.value == target
        }),
    decreases steps,
{
    if steps > 0 {
        lemma_ramp_progress(before, target, time, (steps - 1) as nat);
        if steps == time + 1 {
            lemma_ramp_level_bounds(before.value, target, 0, time + 1);
        }
    }
}

} // verus!
