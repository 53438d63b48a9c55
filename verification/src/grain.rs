//! One grain: a faded, time-limited, delayed read position.
//!
//! A grain holds counters and a read position only. The buffer that it is
//! read from belongs to the player, which asks the grain for a position and
//! a gain once per sample.

use crate::fixed::{clamp, from_count, saturating_difference, UNIT};
use crate::ramped_value::{lemma_ramp_level_bounds, ramp_level, RampModel, RampedValue};
use vstd::prelude::*;

verus! {

/// The mathematical state of a grain.
pub struct GrainModel {
    /// Steps to wait before the grain starts.
    pub wait: nat,
    /// The current delay position; it moves down to read forward in time.
    pub position: int,
    /// Steps that the grain lasts, both fades included.
    pub duration: nat,
    /// Steps of the fade at either end.
    pub fade: nat,
    /// Steps played so far.
    pub elapsed: nat,
    /// The delay at which the grain was set to start.
    pub offset: int,
    /// What the position moves down by on every step.
    pub increment: int,
    /// The envelope.
    pub ramp: RampModel,
}

impl GrainModel {
    /// The grain that waits `wait` steps and then plays `duration` steps from
    /// the delay `offset`, fading over `fade` steps at both ends. A fade
    /// longer than half the duration is shortened to half the duration. A
    /// forward grain starts one sample after `offset` and moves toward the
    /// present; a reversed one starts `duration` samples after `offset` and
    /// moves toward the past.
    pub open spec fn fresh(
        wait: nat,
        offset: int,
        duration: nat,
        fade: nat,
        reverse: bool,
        speed: int,
    ) -> GrainModel {
        GrainModel {
            wait,
            position: if reverse {
                clamp(offset - clamp(duration * UNIT))
            } else {
                clamp(offset - UNIT)
            },
            duration,
            fade: if fade * 2 > duration {
                duration / 2
            } else {
                fade
            },
            elapsed: 0,
            offset,
            increment: if reverse {
                clamp(-speed)
            } else {
                speed
            },
            ramp: RampModel::resting(UNIT as int),
        }
    }

    /// The grain has played all its steps.
    pub open spec fn is_finished(self) -> bool {
        self.elapsed == self.duration || self.duration == 0
    }

    /// The grain has not started yet.
    pub open spec fn is_waiting(self) -> bool {
        self.wait > 0
    }

    /// The grain is sounding.
    pub open spec fn is_playing(self) -> bool {
        !self.is_finished() && !self.is_waiting()
    }

    /// The grain is within its opening fade.
    pub open spec fn is_fading_in(self) -> bool {
        self.elapsed < self.fade
    }

    /// The grain is within its closing fade.
    pub open spec fn is_fading_out(self) -> bool {
        self.elapsed > self.duration - self.fade
    }

    /// The closing fade has begun.
    pub open spec fn is_closing(self) -> bool {
        self.elapsed > self.duration - self.fade && self.duration > self.fade
    }

    /// Once the grain has sounded, its envelope is where the counters say:
    /// falling from full level within the closing fade, and otherwise
    /// rising from silence or arrived at full level.
    pub open spec fn envelope_in_step(self) -> bool {
        self.elapsed > 0 ==> {
            &&& self.ramp.total == self.fade + 1
            &&& if self.is_closing() {
                &&& self.ramp.start == UNIT
                &&& self.ramp.target == 0
                &&& self.ramp.remaining == self.duration + 1 - self.elapsed
            } else {
                &&& self.ramp.start == 0
                &&& self.ramp.target == UNIT
                &&& self.ramp.remaining == if self.elapsed <= self.fade {
                    self.fade + 1 - self.elapsed
                } else {
                    0
                }
            }
        }
    }

    /// What every reachable state satisfies.
    pub open spec fn valid(self) -> bool {
        &&& self.fade <= self.duration
        &&& self.elapsed <= self.duration
        &&& self.ramp.valid()
        &&& self.envelope_in_step()
    }

    /// The envelope that the next sounding step advances: restarted toward
    /// full level on the first step, restarted toward silence where the
    /// closing fade begins, and otherwise as it stands.
    pub open spec fn envelope(self) -> RampModel {
        if self.elapsed == 0 {
            self.ramp.set(0).ramp(UNIT as int, self.fade)
        } else if self.elapsed == self.duration - self.fade {
            self.ramp.set(UNIT as int).ramp(0, self.fade)
        } else {
            self.ramp
        }
    }

    /// The delay position that the next step reports: zero unless the
    /// grain is sounding.
    pub open spec fn reported_position(self) -> int {
        if self.is_playing() {
            self.position
        } else {
            0
        }
    }

    /// The gain that the next step reports: zero unless the grain is
    /// sounding.
    pub open spec fn reported_gain(self) -> int {
        if self.is_playing() {
            self.envelope().output()
        } else {
            0
        }
    }

    /// The state after one step.
    pub open spec fn tick(self) -> GrainModel {
        if self.is_finished() {
            self
        } else if self.is_waiting() {
            GrainModel { wait: (self.wait - 1) as nat, ..self }
        } else {
            GrainModel {
                position: clamp(self.position - self.increment),
                elapsed: self.elapsed + 1,
                ramp: self.envelope().tick(),
                ..self
            }
        }
    }

    /// The state after `count` steps.
    pub open spec fn ticks(self, count: nat) -> GrainModel
        decreases count,
    {
        if count == 0 {
            self
        } else {
            self.ticks((count - 1) as nat).tick()
        }
    }

    /// The state after a stop: a grain that is not yet in its closing fade
    /// is cut to end one fade from now.
    pub open spec fn stop(self) -> GrainModel {
        if self.is_fading_out() {
            self
        } else {
            GrainModel { duration: self.elapsed + self.fade, ..self }
        }
    }
}

/// A single faded grain.
#[derive(Clone, Copy, Debug)]
pub struct Grain {
    scheduled_wait: usize,
    delay_pos: i64,
    duration: usize,
    fade_duration: usize,
    elapsed_sample_count: usize,
    offset: i64,
    sample_increment: i64,
    fade_ramp: RampedValue,
}

impl View for Grain {
    type V = GrainModel;

    closed spec fn view(&self) -> GrainModel {
        GrainModel {
            wait: self.scheduled_wait as nat,
            position: self.delay_pos as int,
            duration: self.duration as nat,
            fade: self.fade_duration as nat,
            elapsed: self.elapsed_sample_count as nat,
            offset: self.offset as int,
            increment: self.sample_increment as int,
            ramp: self.fade_ramp@,
        }
    }
}

impl Grain {
    /// The representation invariant.
    pub open spec fn wf(&self) -> bool {
        &&& self@.valid()
        &&& self@.fade < usize::MAX
    }

    /// A grain that waits `scheduled_wait` steps, then plays `duration`
    /// steps from the delay `offset` at `speed`, with `fade` steps of fade
    /// at both ends.
    pub fn new(
        scheduled_wait: usize,
        offset: i64,
        duration: usize,
        fade: usize,
        reverse: bool,
        speed: i64,
    ) -> (grain: Grain)
        ensures
            grain.wf(),
            grain@ == GrainModel::fresh(
                scheduled_wait as nat,
                offset as int,
                duration as nat,
                fade as nat,
                reverse,
                speed as int,
            ),
    {
        let actual_fade: usize = if fade > duration / 2 {
            duration / 2
        } else {
            fade
        };
        let start_delay: i64 = if reverse {
            saturating_difference(offset, from_count(duration))
        } else {
            saturating_difference(offset, UNIT)
        };
        let sample_increment: i64 = if reverse {
            saturating_difference(0, speed)
        } else {
            speed
        };
        Grain {
            scheduled_wait,
            delay_pos: start_delay,
            duration,
            fade_duration: actual_fade,
            elapsed_sample_count: 0,
            offset,
            sample_increment,
            fade_ramp: RampedValue::new(UNIT),
        }
    }

    /// Advances one step and returns the delay position to read at and the
    /// gain to read with. A grain that waits counts down and returns zeros;
    /// a finished one returns zeros and stays as it is.
    pub fn tick(&mut self) -> (reported: (i64, i64))
        requires
            old(self).wf(),
        ensures
            final(self).wf(),
            final(self)@ == old(self)@.tick(),
            reported.0 == old(self)@.reported_position(),
            reported.1 == old(self)@.reported_gain(),
    {
        if self.is_finished() {
            return (0, 0);
        }
        if self.is_waiting() {
            self.scheduled_wait = self.scheduled_wait - 1;
            return (0, 0);
        }
        if self.elapsed_sample_count == 0 {
            self.fade_ramp.set(0);
            self.fade_ramp.ramp(UNIT, self.fade_duration);
        } else if self.elapsed_sample_count == self.duration - self.fade_duration {
            self.fade_ramp.set(UNIT);
            self.fade_ramp.ramp(0, self.fade_duration);
        }
        let return_delay: i64 = self.delay_pos;
        self.delay_pos = saturating_difference(self.delay_pos, self.sample_increment);
        self.elapsed_sample_count = self.elapsed_sample_count + 1;
        let win: i64 = self.fade_ramp.tick();
        (return_delay, win)
    }

    /// Ends the grain one fade from now, unless its closing fade has
    /// already begun.
    pub fn stop(&mut self)
        requires
            old(self).wf(),
        ensures
            final(self).wf(),
            final(self)@ == old(self)@.stop(),
    {
        if self.elapsed_sample_count > self.duration - self.fade_duration {
            return;
        }
        self.duration = self.elapsed_sample_count + self.fade_duration;
    }

    /// Whether the grain has played all its steps.
    pub fn is_finished(&self) -> (r: bool)
        ensures
            r == self@.is_finished(),
            self.wf() ==> r == (self@.elapsed == self@.duration),
    {
        self.elapsed_sample_count == self.duration || self.duration == 0
    }

    /// Whether the grain has yet to start.
    pub fn is_waiting(&self) -> (r: bool)
        ensures
            r == self@.is_waiting(),
    {
        self.scheduled_wait > 0
    }

    /// Whether the grain is sounding.
    pub fn is_playing(&self) -> (r: bool)
        ensures
            r == self@.is_playing(),
    {
        !self.is_finished() && !self.is_waiting()
    }

    /// Whether the grain is within its opening fade.
    pub fn is_fading_in(&self) -> (r: bool)
        ensures
            r == self@.is_fading_in(),
    {
        self.elapsed_sample_count < self.fade_duration
    }

    /// Whether the grain is within its closing fade.
    pub fn is_fading_out(&self) -> (r: bool)
        requires
            self.wf(),
        ensures
            r == self@.is_fading_out(),
    {
        self.elapsed_sample_count > self.duration - self.fade_duration
    }

    /// The delay position that the next sounding step reads at.
    pub fn delay_position(&self) -> (r: i64)
        ensures
            r == self@.position,
    {
        self.delay_pos
    }

    /// Steps played so far.
    pub fn elapsed_sample_count(&self) -> (r: usize)
        ensures
            r == self@.elapsed,
    {
        self.elapsed_sample_count
    }

    /// The delay at which the grain was set to start.
    pub fn offset(&self) -> (r: i64)
        ensures
            r == self@.offset,
    {
        self.offset
    }

    /// Steps that the grain lasts.
    pub fn duration(&self) -> (r: usize)
        ensures
            r == self@.duration,
    {
        self.duration
    }
}

/// A step and a stop keep a grain valid.
pub proof fn lemma_grain_stays_valid(grain: GrainModel)
    requires
        grain.valid(),
    ensures
        grain.tick().valid(),
        grain.stop().valid(),
{
    if grain.is_playing() {
        let env = grain.envelope();
        assert(env.remaining <= env.total);
        if env.remaining > 0 {
            lemma_ramp_level_bounds(
                env.start,
                env.target,
                (env.remaining - 1) as nat,
                env.total,
            );
        }
    }
}

/// A valid grain is finished exactly when it has played as many steps as it
/// lasts, and a sounding grain reaches that point after the steps it has
/// left, not before.
pub proof fn law_finished_at_duration(grain: GrainModel, steps: nat)
    requires
        grain.valid(),
        !grain.is_waiting(),
        grain.elapsed + steps <= grain.duration,
    ensures
        grain.is_finished() <==> grain.elapsed == grain.duration,
        grain.ticks(steps).valid(),
        grain.ticks(steps).elapsed == grain.elapsed + steps,
        grain.ticks(steps).duration == grain.duration,
        grain.ticks(steps).fade == grain.fade,
        grain.ticks(steps).wait == 0,
        grain.ticks(steps).is_finished() <==> grain.elapsed + steps == grain.duration,
    decreases steps,
{
    if steps > 0 {
        law_finished_at_duration(grain, (steps - 1) as nat);
        lemma_grain_stays_valid(grain.ticks((steps - 1) as nat));
    }
}

/// A sounding grain without fades has full gain on every step.
pub proof fn law_full_gain_without_fade(grain: GrainModel)
    requires
        grain.valid(),
        grain.is_playing(),
        grain.fade == 0,
    ensures
        grain.reported_gain() == UNIT,
{
    if grain.elapsed == 0 {
        lemma_ramp_level_bounds(0, UNIT as int, 0, 1);
    }
}

/// The level of a ramp between silence and full level is above silence
/// while a step remains on the way down, and from the first step on the
/// way up.
pub proof fn lemma_fade_levels_nonzero(remaining: nat, total: nat)
    requires
        remaining < total,
    ensures
        ramp_level(0, UNIT as int, remaining, total) > 0,
        remaining > 0 ==> ramp_level(UNIT as int, 0, remaining, total) > 0,
{
    lemma_ramp_level_bounds(0, UNIT as int, remaining, total);
    lemma_ramp_level_bounds(UNIT as int, 0, remaining, total);
}

/// Stopping a sounding grain before its closing fade leaves it exactly
/// `fade` further steps, each with a gain above silence, and then it is
/// finished. A second stop changes nothing.
pub proof fn law_stop_fades_out_once(grain: GrainModel, step: nat)
    requires
        grain.valid(),
        grain.is_playing(),
        !grain.is_fading_out(),
        step <= grain.fade,
    ensures
        grain.stop().stop() == grain.stop(),
        step < grain.fade ==> grain.stop().ticks(step).is_playing(),
        step < grain.fade ==> grain.stop().ticks(step).reported_gain() > 0,
        step == grain.fade ==> grain.stop().ticks(step).is_finished(),
{
    let stopped = grain.stop();
    lemma_grain_stays_valid(grain);
    law_finished_at_duration(stopped, step);
    let now = stopped.ticks(step);
    if step < grain.fade {
        let env = now.envelope();
        assert(env.total == grain.fade + 1);
        assert(0 < env.remaining <= env.total);
        lemma_fade_levels_nonzero((env.remaining - 1) as nat, env.total);
        if grain.elapsed != 0 {
            assert(now.is_closing() || now.elapsed == now.duration - now.fade);
            assert(env.start == UNIT && env.target == 0);
            assert(env.remaining - 1 > 0);
        }
    }
}

} // verus!
