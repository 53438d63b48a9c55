//! The loop engine: one step per sample turns musical time into grains and
//! mixes what they play with the faded dry input.

use crate::fixed::{
    clamp, count_of, from_count, lemma_scaled_ratio_sign, mul_div, saturating_difference,
    scaled_ratio, to_count, UNIT,
};
use crate::grain::{Grain, GrainModel};
use crate::grain_player::{
    lemma_mix_without_sounding_grains, GrainPlayer, GrainPlayerModel, Phase,
};
use crate::loop_scheduler::{LoopEvent, LoopScheduler, LoopSchedulerModel, MAX_BEATS};
use crate::ramped_value::{RampModel, RampedValue};
use crate::stereo_pair::AudioSampleOps;
use vstd::prelude::*;

verus! {

/// The length, in samples, of the region that a default engine can scrub
/// through.
pub const LOOPABLE_REGION_LENGTH: usize = 100000;

/// The longest fade, in samples, of a default engine.
pub const MAX_FADE_TIME_SAMPLES: usize = 10000;

/// The longest loop, in samples, of a default engine.
pub const MAX_LOOP_LENGTH: usize = 50000;

/// Sixty seconds, the length of a minute, in fixed point.
pub const MINUTE: i64 = 60_000_000_000;

/// Seconds as beats at `tempo` beats per minute.
pub open spec fn seconds_to_beats_of(seconds: int, tempo: int) -> int {
    scaled_ratio(seconds, tempo, MINUTE as int)
}

/// Beats as seconds at `tempo` beats per minute.
pub open spec fn beats_to_seconds_of(beats: int, tempo: int) -> int {
    scaled_ratio(beats, MINUTE as int, tempo)
}

/// Seconds as a whole number of samples at `sample_rate` samples per
/// second.
pub open spec fn seconds_to_samples_of(seconds: int, sample_rate: int) -> nat {
    count_of(scaled_ratio(seconds, sample_rate, UNIT as int))
}

/// A number of samples as beats.
pub open spec fn samples_to_beats_of(samples: nat, tempo: int, sample_rate: int) -> int {
    seconds_to_beats_of(scaled_ratio(clamp(samples * UNIT), UNIT as int, sample_rate), tempo)
}

/// Beats as samples, fractions included.
pub open spec fn beats_to_samples_of(beats: int, tempo: int, sample_rate: int) -> int {
    scaled_ratio(beats_to_seconds_of(beats, tempo), sample_rate, UNIT as int)
}

/// `a + b`, held at the largest count.
pub open spec fn count_sum(a: nat, b: nat) -> nat {
    if a + b > usize::MAX {
        usize::MAX as nat
    } else {
        a + b
    }
}

/// Seconds as beats at `tempo` beats per minute.
pub fn seconds_to_beats(seconds: i64, tempo: i64) -> (beats: i64)
    ensures
        beats == seconds_to_beats_of(seconds as int, tempo as int),
{
    mul_div(seconds, tempo, MINUTE)
}

/// Beats as seconds at `tempo` beats per minute.
pub fn beats_to_seconds(beats: i64, tempo: i64) -> (seconds: i64)
    requires
        tempo > 0,
    ensures
        seconds == beats_to_seconds_of(beats as int, tempo as int),
{
    mul_div(beats, MINUTE, tempo)
}

/// Seconds as a whole number of samples at `sample_rate` samples per
/// second.
pub fn seconds_to_samples(seconds: i64, sample_rate: i64) -> (samples: usize)
    ensures
        samples == seconds_to_samples_of(seconds as int, sample_rate as int),
{
    to_count(mul_div(seconds, sample_rate, UNIT))
}

/// A number of samples as beats.
pub fn samples_to_beats(samples: usize, tempo: i64, sample_rate: i64) -> (beats: i64)
    requires
        sample_rate > 0,
    ensures
        beats == samples_to_beats_of(samples as nat, tempo as int, sample_rate as int),
{
    seconds_to_beats(mul_div(from_count(samples), UNIT, sample_rate), tempo)
}

/// Beats as samples, fractions included.
pub fn beats_to_samples(beats: i64, tempo: i64, sample_rate: i64) -> (samples: i64)
    requires
        tempo > 0,
    ensures
        samples == beats_to_samples_of(beats as int, tempo as int, sample_rate as int),
{
    mul_div(beats_to_seconds(beats, tempo), sample_rate, UNIT)
}

/// A number of samples is never a negative number of beats.
pub proof fn lemma_samples_to_beats_sign(samples: nat, tempo: int, sample_rate: int)
    requires
        tempo > 0,
        sample_rate > 0,
    ensures
        samples_to_beats_of(samples, tempo, sample_rate) >= 0,
{
    assert(samples * UNIT >= 0) by (nonlinear_arith)
        requires
            samples >= 0,
            UNIT > 0,
    ;
    lemma_scaled_ratio_sign(clamp(samples * UNIT), UNIT as int, sample_rate);
    let seconds = scaled_ratio(clamp(samples * UNIT), UNIT as int, sample_rate);
    lemma_scaled_ratio_sign(seconds, tempo, MINUTE as int);
}

/// `a + b`, held at the largest count.
pub fn saturating_count_sum(a: usize, b: usize) -> (sum: usize)
    ensures
        sum == count_sum(a as nat, b as nat),
{
    if a > usize::MAX - b {
        usize::MAX
    } else {
        a + b
    }
}

/// The mathematical state of the engine.
pub struct GrainLooperModel<T> {
    /// The grain pool.
    pub player: GrainPlayerModel<T>,
    /// The beat-grid state machine.
    pub scheduler: LoopSchedulerModel,
    /// Whether a loop plays: a grain has been started since looping last
    /// began, and looping has not been stopped since.
    pub is_looping: bool,
    /// Samples per second.
    pub sample_rate: int,
    /// How far back the loop lies, in beats.
    pub loop_offset_beats: int,
    /// The length of the fades, in samples.
    pub fade_duration_samples: nat,
    /// The longest fade that the buffers have room for, in samples.
    pub max_fade_time: nat,
    /// The level of the dry signal.
    pub dry_ramp: RampModel,
    /// Whether grains play backwards.
    pub reverse: bool,
    /// The playback speed of the grains.
    pub speed: int,
    /// Beats per minute.
    pub tempo: int,
}

impl<T: AudioSampleOps> GrainLooperModel<T> {
    /// What every reachable state satisfies.
    pub open spec fn valid(self) -> bool {
        &&& self.player.valid()
        &&& self.scheduler.valid()
        &&& self.dry_ramp.valid()
        &&& self.sample_rate > 0
        &&& self.tempo > 0
        &&& self.fade_duration_samples <= self.max_fade_time
        &&& self.max_fade_time < usize::MAX
    }

    /// The fade lead-in, in beats, for the current fade length.
    pub open spec fn lead_in(self) -> int {
        samples_to_beats_of(self.fade_duration_samples, self.tempo, self.sample_rate)
    }

    /// The grain that plays `duration` beats of the loop, starting
    /// `offset_reduction` beats into it: it lasts one fade longer than
    /// that, so that it fades out over the start of the next one.
    pub open spec fn grain_for(self, duration: int, offset_reduction: int) -> GrainModel {
        GrainModel::fresh(
            0,
            beats_to_samples_of(
                clamp(self.loop_offset_beats - offset_reduction),
                self.tempo,
                self.sample_rate,
            ),
            count_sum(
                count_of(beats_to_samples_of(duration, self.tempo, self.sample_rate)),
                self.fade_duration_samples,
            ),
            self.fade_duration_samples,
            self.reverse,
            self.speed,
        )
    }

    /// The state after one event of the state machine has been acted on.
    pub open spec fn handle(self, event: LoopEvent) -> GrainLooperModel<T> {
        match event {
            LoopEvent::StartGrain { duration } => GrainLooperModel {
                player: self.player.schedule(self.grain_for(duration as int, 0)),
                is_looping: true,
                ..self
            },
            LoopEvent::StartLegatoGrain { duration, offset_reduction } => GrainLooperModel {
                player: self.player.schedule(
                    self.grain_for(duration as int, offset_reduction as int),
                ),
                is_looping: true,
                ..self
            },
            LoopEvent::StopGrain => GrainLooperModel { player: self.player.stop_all(), ..self },
            LoopEvent::FadeInDry => GrainLooperModel {
                dry_ramp: self.dry_ramp.ramp(UNIT as int, self.fade_duration_samples),
                ..self
            },
            LoopEvent::FadeOutDry => GrainLooperModel {
                dry_ramp: self.dry_ramp.ramp(0, self.fade_duration_samples),
                ..self
            },
            LoopEvent::NextLoop => self,
        }
    }

    /// The state after `events` have been acted on in order.
    pub open spec fn handle_all(self, events: Seq<LoopEvent>) -> GrainLooperModel<T>
        decreases events.len(),
    {
        if events.len() == 0 {
            self
        } else {
            self.handle_all(events.drop_last()).handle(events.last())
        }
    }

    /// The state after musical time has moved to `beat_time`: the state
    /// machine has stepped, and its events have been acted on.
    pub open spec fn advance(self, beat_time: int) -> GrainLooperModel<T> {
        (GrainLooperModel { scheduler: self.scheduler.tick(beat_time), ..self }).handle_all(
            self.scheduler.emitted(beat_time),
        )
    }

    /// Whether the next sample can be rendered: every sounding grain reads
    /// within its buffer.
    pub open spec fn can_render(self) -> bool {
        self.player.can_tick()
    }

    /// The state after `input` has been rendered.
    pub open spec fn render(self, input: T) -> GrainLooperModel<T> {
        GrainLooperModel {
            player: self.player.tick(input),
            dry_ramp: self.dry_ramp.tick(),
            ..self
        }
    }

    /// What rendering `input` returns: the mix of the grains plus the input
    /// at the level of the dry signal.
    pub open spec fn rendered(self, input: T) -> T {
        self.player.output(input).sum(input.scaled(self.dry_ramp.output()))
    }

    /// The state after the tempo is set to `bpm`: while a loop plays and
    /// looping has not been stopped, the loop offset is rescaled so that it
    /// stays where it is in samples; otherwise it stays as it is.
    pub open spec fn set_tempo(self, bpm: int) -> GrainLooperModel<T> {
        let retimed = GrainLooperModel {
            loop_offset_beats: if self.is_looping && self.scheduler.looping {
                scaled_ratio(self.loop_offset_beats, bpm, self.tempo)
            } else {
                self.loop_offset_beats
            },
            tempo: bpm,
            ..self
        };
        retimed.with_lead_in()
    }

    /// Nothing is in flight: every grain slot is finished, no event is
    /// pending, and the dry signal rests at full level.
    pub open spec fn is_idle(self) -> bool {
        &&& forall|i: int|
            0 <= i < self.player.grains.len() ==> (#[trigger] self.player.grains[i]).is_finished()
        &&& self.scheduler.events.len() == 0
        &&& self.dry_ramp.remaining == 0
        &&& self.dry_ramp.target == UNIT
    }

    /// The state after looping is stopped: the state machine schedules the
    /// end of the loop, the pool lets the loop go, and no loop plays any
    /// more. An engine whose state machine is not looping stays as it is.
    pub open spec fn stop_looping(self) -> GrainLooperModel<T> {
        if self.scheduler.looping {
            GrainLooperModel {
                scheduler: self.scheduler.stop_looping(),
                player: self.player.stop_looping(),
                is_looping: false,
                ..self
            }
        } else {
            self
        }
    }

    /// The state with the state machine's lead-in brought up to date.
    pub open spec fn with_lead_in(self) -> GrainLooperModel<T> {
        GrainLooperModel {
            scheduler: LoopSchedulerModel { fade_in: self.lead_in(), ..self.scheduler },
            ..self
        }
    }
}

/// A fixed-point sample at full level is the sample itself.
pub proof fn lemma_full_level_keeps_sample(sample: i64)
    ensures
        sample.scaled(UNIT as int) == sample,
        0i64.sum(sample) == sample,
{
    let x: int = sample as int;
    let u: int = UNIT as int;
    assert(x >= 0 ==> (x * u) / u == x) by (nonlinear_arith)
        requires
            u > 0,
    ;
    assert(x < 0 ==> -((-(x * u)) / u) == x) by (nonlinear_arith)
        requires
            u > 0,
    ;
    assert(x >= 0 <==> x * u >= 0) by (nonlinear_arith)
        requires
            u > 0,
    ;
}

/// An engine in which nothing is in flight passes its input through: a
/// step returns the fixed-point input sample as it is, and nothing is in
/// flight after it.
pub proof fn law_idle_engine_passes_input_through(
    engine: GrainLooperModel<i64>,
    input: i64,
    beat_time: int,
)
    requires
        engine.valid(),
        engine.is_idle(),
    ensures
        engine.advance(beat_time) == (GrainLooperModel {
            scheduler: LoopSchedulerModel { now: beat_time, ..engine.scheduler },
            ..engine
        }),
        engine.advance(beat_time).rendered(input) == input,
        engine.advance(beat_time).render(input).is_idle(),
        engine.advance(beat_time).render(input).player.grains == engine.player.grains,
{
    let none = Seq::<(i64, LoopEvent)>::empty();
    assert(engine.scheduler.events =~= none);
    assert(crate::scheduler::due(none, beat_time) =~= Seq::<LoopEvent>::empty());
    assert(crate::scheduler::kept(none, beat_time) =~= none);
    assert(engine.scheduler.emitted(beat_time) =~= Seq::<LoopEvent>::empty());
    assert(engine.scheduler.tick(beat_time).events =~= none);
    let advanced = engine.advance(beat_time);
    assert(advanced.player == engine.player);
    assert(advanced.dry_ramp == engine.dry_ramp);
    let source = if advanced.player.next_phase() == Phase::UsingStatic {
        advanced.player.next_frozen(input)
    } else {
        advanced.player.next_rolling(input)
    };
    lemma_mix_without_sounding_grains(
        advanced.player.grains,
        source,
        advanced.player.next_reference(),
        0i64,
    );
    lemma_full_level_keeps_sample(input);
    assert(advanced.render(input).player.grains =~= engine.player.grains);
}

/// A loop engine over samples of type `T`.
pub struct GrainLooper<T: AudioSampleOps> {
    grain_player: GrainPlayer<T>,
    loop_scheduler: LoopScheduler,
    is_looping: bool,
    sample_rate: i64,
    loop_offset_beats: i64,
    fade_duration_samples: usize,
    max_fade_time: usize,
    dry_ramp: RampedValue,
    reverse: bool,
    speed: i64,
    tempo: i64,
}

impl<T: AudioSampleOps> View for GrainLooper<T> {
    type V = GrainLooperModel<T>;

    closed spec fn view(&self) -> GrainLooperModel<T> {
        GrainLooperModel {
            player: self.grain_player@,
            scheduler: self.loop_scheduler@,
            is_looping: self.is_looping,
            sample_rate: self.sample_rate as int,
            loop_offset_beats: self.loop_offset_beats as int,
            fade_duration_samples: self.fade_duration_samples as nat,
            max_fade_time: self.max_fade_time as nat,
            dry_ramp: self.dry_ramp@,
            reverse: self.reverse,
            speed: self.speed as int,
            tempo: self.tempo as int,
        }
    }
}

impl<T: AudioSampleOps> GrainLooper<T> {
    /// The representation invariant.
    pub open spec fn wf(&self) -> bool {
        &&& self@.valid()
        &&& self.parts_wf()
    }

    /// The pool, the state machine and the dry ramp are well-formed.
    pub closed spec fn parts_wf(&self) -> bool {
        &&& self.grain_player.wf()
        &&& self.loop_scheduler.wf()
        &&& self.dry_ramp.wf()
    }

    /// An engine with the default buffer lengths.
    pub fn new(sample_rate: i64) -> (engine: GrainLooper<T>)
        requires
            sample_rate > 0,
        ensures
            engine.wf(),
            engine@.sample_rate == sample_rate,
            engine@.tempo == 120 * UNIT,
            engine@.speed == UNIT,
            engine@.scheduler == LoopSchedulerModel::initial(),
            engine@.dry_ramp == RampModel::resting(UNIT as int),
            engine@.player == GrainPlayerModel::<T>::fresh(
                LOOPABLE_REGION_LENGTH as nat,
                (MAX_FADE_TIME_SAMPLES + MAX_LOOP_LENGTH) as nat,
            ),
            engine@.max_fade_time == MAX_FADE_TIME_SAMPLES,
            !engine@.is_looping,
            !engine@.reverse,
            engine@.loop_offset_beats == 0,
            engine@.fade_duration_samples == 0,
            engine@.is_idle(),
    {
        GrainLooper::new_with_length(
            sample_rate,
            LOOPABLE_REGION_LENGTH,
            MAX_FADE_TIME_SAMPLES,
            MAX_LOOP_LENGTH,
        )
    }

    /// An engine that can scrub through `loopable_region_length` samples,
    /// with fades of up to `max_fade_time` samples and loops of up to
    /// `max_loop_length` samples. It starts at 120 beats per minute, at
    /// normal speed, forwards, with the dry signal at full level.
    pub fn new_with_length(
        sample_rate: i64,
        loopable_region_length: usize,
        max_fade_time: usize,
        max_loop_length: usize,
    ) -> (engine: GrainLooper<T>)
        requires
            sample_rate > 0,
            2 * loopable_region_length + max_fade_time + max_loop_length < usize::MAX,
        ensures
            engine.wf(),
            engine@.sample_rate == sample_rate,
            engine@.tempo == 120 * UNIT,
            engine@.speed == UNIT,
            engine@.scheduler == LoopSchedulerModel::initial(),
            engine@.dry_ramp == RampModel::resting(UNIT as int),
            engine@.player == GrainPlayerModel::<T>::fresh(
                loopable_region_length as nat,
                (max_fade_time + max_loop_length) as nat,
            ),
            engine@.max_fade_time == max_fade_time,
            !engine@.is_looping,
            !engine@.reverse,
            engine@.loop_offset_beats == 0,
            engine@.fade_duration_samples == 0,
            engine@.is_idle(),
    {
        let engine = GrainLooper {
            grain_player: GrainPlayer::new_with_length(
                loopable_region_length,
                max_fade_time,
                max_loop_length,
            ),
            loop_scheduler: LoopScheduler::new(),
            is_looping: false,
            sample_rate,
            loop_offset_beats: 0,
            fade_duration_samples: 0,
            max_fade_time,
            dry_ramp: RampedValue::new(UNIT),
            reverse: false,
            speed: UNIT,
            tempo: 120_000_000_000,
        };
        engine
    }

    /// The grain pool.
    pub fn grain_player(&self) -> (player: &GrainPlayer<T>)
        requires
            self.wf(),
        ensures
            player.wf(),
            player@ == self@.player,
    {
        &self.grain_player
    }

    /// The beat-grid state machine.
    pub fn loop_scheduler(&self) -> (scheduler: &LoopScheduler)
        requires
            self.wf(),
        ensures
            scheduler.wf(),
            scheduler@ == self@.scheduler,
    {
        &self.loop_scheduler
    }

    /// Whether a loop plays: a grain has been started since looping last
    /// began, and looping has not been stopped since.
    pub fn is_looping(&self) -> (r: bool)
        ensures
            r == self@.is_looping,
    {
        self.is_looping
    }

    /// The number of grains that sound.
    pub fn num_playing_grains(&self) -> (count: usize)
        requires
            self.wf(),
        ensures
            count == crate::grain_player::tally(
                self@.player.grains,
                |g: GrainModel| g.is_playing(),
            ),
    {
        self.grain_player.num_playing_grains()
    }

    /// Samples per second.
    pub fn sample_rate(&self) -> (r: i64)
        ensures
            r == self@.sample_rate,
    {
        self.sample_rate
    }

    /// Beats per minute.
    pub fn tempo(&self) -> (r: i64)
        ensures
            r == self@.tempo,
    {
        self.tempo
    }

    /// How far back the loop lies, in beats.
    pub fn loop_offset_beats(&self) -> (r: i64)
        ensures
            r == self@.loop_offset_beats,
    {
        self.loop_offset_beats
    }

    /// The length of the fades, in samples.
    pub fn fade_duration_samples(&self) -> (r: usize)
        ensures
            r == self@.fade_duration_samples,
    {
        self.fade_duration_samples
    }

    /// The longest fade that the buffers have room for, in samples.
    pub fn max_fade_time(&self) -> (r: usize)
        ensures
            r == self@.max_fade_time,
    {
        self.max_fade_time
    }

    /// Sets the sample rate. The fade lead-in that follows from it must
    /// not exceed `MAX_BEATS`.
    pub fn set_sample_rate(&mut self, sample_rate: i64)
        requires
            old(self).wf(),
            sample_rate > 0,
            samples_to_beats_of(
                old(self)@.fade_duration_samples,
                old(self)@.tempo,
                sample_rate as int,
            ) <= MAX_BEATS,
        ensures
            final(self).wf(),
            final(self)@ == (GrainLooperModel {
                sample_rate: sample_rate as int,
                ..old(self)@
            }).with_lead_in(),
    {
        self.sample_rate = sample_rate;
        self.update_scheduler_fade();
    }

    /// Sets the tempo, in beats per minute. While a loop plays, the loop
    /// offset is rescaled by the ratio of the new tempo to the old one, so
    /// that the loop stays where it is in samples; before the first grain
    /// and after looping has stopped the offset stays as it is. The fade
    /// lead-in that follows from the tempo must not exceed `MAX_BEATS`.
    pub fn set_tempo(&mut self, bpm: i64)
        requires
            old(self).wf(),
            bpm > 0,
            samples_to_beats_of(
                old(self)@.fade_duration_samples,
                bpm as int,
                old(self)@.sample_rate,
            ) <= MAX_BEATS,
        ensures
            final(self).wf(),
            final(self)@ == old(self)@.set_tempo(bpm as int),
            !old(self)@.scheduler.looping ==> final(self)@.loop_offset_beats
                == old(self)@.loop_offset_beats,
    {
        if self.is_looping && self.loop_scheduler.is_looping() {
            self.loop_offset_beats = mul_div(self.loop_offset_beats, bpm, self.tempo);
        }
        self.tempo = bpm;
        self.update_scheduler_fade();
    }

    /// Sets the length of the fades, given in beats: it becomes the whole
    /// number of samples in `fade_beats`, which must not exceed the longest
    /// fade that the engine was made for. The fade lead-in that follows
    /// from it must not exceed `MAX_BEATS`.
    pub fn set_fade_time(&mut self, fade_beats: i64)
        requires
            old(self).wf(),
            count_of(
                beats_to_samples_of(fade_beats as int, old(self)@.tempo, old(self)@.sample_rate),
            ) <= old(self)@.max_fade_time,
            samples_to_beats_of(
                count_of(
                    beats_to_samples_of(
                        fade_beats as int,
                        old(self)@.tempo,
                        old(self)@.sample_rate,
                    ),
                ),
                old(self)@.tempo,
                old(self)@.sample_rate,
            ) <= MAX_BEATS,
        ensures
            final(self).wf(),
            final(self)@ == (GrainLooperModel {
                fade_duration_samples: count_of(
                    beats_to_samples_of(
                        fade_beats as int,
                        old(self)@.tempo,
                        old(self)@.sample_rate,
                    ),
                ),
                ..old(self)@
            }).with_lead_in(),
    {
        let fade_samples: usize = to_count(
            beats_to_samples(fade_beats, self.tempo, self.sample_rate),
        );
        self.fade_duration_samples = fade_samples;
        self.update_scheduler_fade();
    }

    /// Hands the state machine the fade lead-in for the current fade
    /// length, tempo and sample rate.
    fn update_scheduler_fade(&mut self)
        requires
            old(self).wf(),
            old(self)@.lead_in() <= MAX_BEATS,
        ensures
            final(self).wf(),
            final(self)@ == old(self)@.with_lead_in(),
    {
        proof {
            lemma_samples_to_beats_sign(
                self@.fade_duration_samples,
                self@.tempo,
                self@.sample_rate,
            );
        }
        self.loop_scheduler.set_fade_lead_in(
            samples_to_beats(self.fade_duration_samples, self.tempo, self.sample_rate),
        );
    }

    /// Sets the length of the loop, in beats: the grid interval of the
    /// state machine. See [`LoopScheduler::set_grid_interval`].
    pub fn set_grid(&mut self, duration_beats: i64)
        requires
            old(self).wf(),
            0 < duration_beats <= MAX_BEATS,
        ensures
            final(self).wf(),
            final(self)@ == (GrainLooperModel {
                scheduler: old(self)@.scheduler.set_grid_interval(duration_beats as int),
                ..old(self)@
            }),
    {
        self.loop_scheduler.set_grid_interval(duration_beats);
    }

    /// Starts looping at the next grid line: the state machine schedules
    /// the first repetition, and the pool begins to keep the loopable
    /// region. See [`LoopScheduler::start_looping`].
    pub fn start_looping(&mut self)
        requires
            old(self).wf(),
            !old(self)@.scheduler.looping,
            crate::scheduler::accepts(old(self)@.scheduler.events, old(self)@.scheduler.boundary()),
        ensures
            final(self).wf(),
            final(self)@ == (GrainLooperModel {
                scheduler: old(self)@.scheduler.start_looping(),
                player: old(self)@.player.start_looping(),
                ..old(self)@
            }),
    {
        self.loop_scheduler.start_looping();
        self.grain_player.start_looping();
    }

    /// Stops looping at the next grid line, from where the dry signal
    /// fades back in; no loop plays from now on. Where looping is not under
    /// way the call changes nothing. See [`LoopScheduler::stop_looping`].
    pub fn stop_looping(&mut self)
        requires
            old(self).wf(),
        ensures
            final(self).wf(),
            final(self)@ == old(self)@.stop_looping(),
            !old(self)@.scheduler.looping ==> final(self)@ == old(self)@,
            !final(self)@.scheduler.looping,
    {
        if !self.loop_scheduler.is_looping() {
            return ;
        }
        self.loop_scheduler.stop_looping();
        self.grain_player.stop_looping();
        self.is_looping = false;
    }

    /// Schedules the grain that plays `duration` samples of the loop from
    /// `offset_reduction` beats into it, after `wait` steps.
    fn schedule_grain(&mut self, wait: usize, duration: usize, offset_reduction: i64)
        requires
            old(self).wf(),
        ensures
            final(self).wf(),
            final(self)@ == (GrainLooperModel {
                player: old(self)@.player.schedule(
                    GrainModel::fresh(
                        wait as nat,
                        beats_to_samples_of(
                            clamp(old(self)@.loop_offset_beats - offset_reduction),
                            old(self)@.tempo,
                            old(self)@.sample_rate,
                        ),
                        count_sum(duration as nat, old(self)@.fade_duration_samples),
                        old(self)@.fade_duration_samples,
                        old(self)@.reverse,
                        old(self)@.speed,
                    ),
                ),
                ..old(self)@
            }),
    {
        self.grain_player.schedule_grain(
            Grain::new(
                wait,
                beats_to_samples(
                    saturating_difference(self.loop_offset_beats, offset_reduction),
                    self.tempo,
                    self.sample_rate,
                ),
                saturating_count_sum(duration, self.fade_duration_samples),
                self.fade_duration_samples,
                self.reverse,
                self.speed,
            ),
        );
    }

    /// Acts on one event of the state machine: a grain is scheduled or the
    /// grains are stopped, or the dry signal begins to fade.
    fn handle(&mut self, event: LoopEvent)
        requires
            old(self).wf(),
        ensures
            final(self).wf(),
            final(self)@ == old(self)@.handle(event),
    {
        match event {
            LoopEvent::StartGrain { duration } => {
                let samples: usize = to_count(
                    beats_to_samples(duration, self.tempo, self.sample_rate),
                );
                self.schedule_grain(0, samples, 0);
                self.is_looping = true;
            },
            LoopEvent::StartLegatoGrain { duration, offset_reduction } => {
                let samples: usize = to_count(
                    beats_to_samples(duration, self.tempo, self.sample_rate),
                );
                self.schedule_grain(0, samples, offset_reduction);
                self.is_looping = true;
            },
            LoopEvent::StopGrain => {
                self.grain_player.stop_all_grains();
            },
            LoopEvent::FadeInDry => {
                self.dry_ramp.ramp(UNIT, self.fade_duration_samples);
            },
            LoopEvent::FadeOutDry => {
                self.dry_ramp.ramp(0, self.fade_duration_samples);
            },
            LoopEvent::NextLoop => {},
        }
    }

    /// Moves musical time forward to `beat_time` and acts on the events
    /// that are due: grains are started and stopped, and the dry signal
    /// begins its fades.
    pub fn advance(&mut self, beat_time: i64)
        requires
            old(self).wf(),
            old(self)@.scheduler.now < beat_time <= MAX_BEATS,
        ensures
            final(self).wf(),
            final(self)@ == old(self)@.advance(beat_time as int),
    {
        let events: Vec<LoopEvent> = self.loop_scheduler.tick(beat_time);
        let ghost start = self@;
        proof {
            assert(events@.take(0) =~= Seq::<LoopEvent>::empty());
        }
        let mut i: usize = 0;
        while i < events.len()
            invariant
                i <= events.len(),
                self.wf(),
                self@ == start.handle_all(events@.take(i as int)),
            decreases events.len() - i,
        {
            proof {
                assert(events@.take(i + 1).drop_last() =~= events@.take(i as int));
            }
            self.handle(events[i]);
            i = i + 1;
        }
        proof {
            assert(events@.take(i as int) =~= events@);
        }
    }

    /// Whether [`GrainLooper::render`] may be called: see
    /// [`GrainLooperModel::can_render`].
    pub fn can_render(&self) -> (ok: bool)
        requires
            self.wf(),
        ensures
            ok == self@.can_render(),
    {
        self.grain_player.can_tick()
    }

    /// Renders one sample: `input` enters the pool, and the mix of the
    /// grains is returned together with `input` at the level of the dry
    /// signal.
    pub fn render(&mut self, input: T) -> (output: T)
        requires
            old(self).wf(),
            old(self)@.can_render(),
        ensures
            final(self).wf(),
            final(self)@ == old(self)@.render(input),
            output == old(self)@.rendered(input),
    {
        let dry: T = input;
        let looped: T = self.grain_player.tick(input);
        let dry_level: i64 = self.dry_ramp.tick();
        looped.plus(dry.scale(dry_level))
    }

    /// One step of the engine: musical time moves to `beat_time`, the
    /// events that are due are acted on, and `input` is rendered.
    ///
    /// Once the events have been acted on, every sounding grain must read
    /// within its buffer.
    pub fn tick(&mut self, input: T, beat_time: i64) -> (output: T)
        requires
            old(self).wf(),
            old(self)@.scheduler.now < beat_time <= MAX_BEATS,
            old(self)@.advance(beat_time as int).can_render(),
        ensures
            final(self).wf(),
            final(self)@ == old(self)@.advance(beat_time as int).render(input),
            output == old(self)@.advance(beat_time as int).rendered(input),
    {
        self.advance(beat_time);
        self.render(input)
    }

    /// Empties the buffers, drops the pending events, and puts the dry
    /// signal back at full level.
    pub fn reset(&mut self)
        requires
            old(self).wf(),
        ensures
            final(self).wf(),
            final(self)@ == (GrainLooperModel {
                player: old(self)@.player.reset(),
                scheduler: old(self)@.scheduler.reset(),
                is_looping: false,
                dry_ramp: old(self)@.dry_ramp.set(UNIT as int),
                ..old(self)@
            }),
    {
        self.grain_player.reset();
        self.loop_scheduler.reset();
        self.is_looping = false;
        self.dry_ramp.set(UNIT);
    }

    /// Sets the offset of the loop in the buffer, in beats: how far back
    /// the looped material lies.
    pub fn set_loop_offset(&mut self, offset_beats: i64)
        requires
            old(self).wf(),
        ensures
            final(self).wf(),
            final(self)@ == (GrainLooperModel {
                loop_offset_beats: offset_beats as int,
                ..old(self)@
            }),
    {
        self.loop_offset_beats = offset_beats;
    }

    /// Sets whether grains play backwards.
    pub fn set_reverse(&mut self, reverse: bool)
        requires
            old(self).wf(),
        ensures
            final(self).wf(),
            final(self)@ == (GrainLooperModel { reverse, ..old(self)@ }),
    {
        self.reverse = reverse;
    }

    /// Sets the playback speed of the grains; `UNIT` is normal speed.
    pub fn set_speed(&mut self, speed: i64)
        requires
            old(self).wf(),
        ensures
            final(self).wf(),
            final(self)@ == (GrainLooperModel { speed: speed as int, ..old(self)@ }),
    {
        self.speed = speed;
    }
}

} // verus!
