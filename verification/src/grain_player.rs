//! The grain pool: a fixed number of grain slots and the two buffers that
//! the grains are read from.
//!
//! The rolling buffer takes every input sample. While a loop is held, the
//! region that may be looped is copied into the static buffer, one sample
//! per step, so that it stays available after the rolling buffer has moved
//! on; once the copy is complete, grains are read from the static buffer.

use crate::delay_line::{
    ceil_index, fill_delay_constant, history, interpolated, next_cursor, pushed, DelayLine,
};
use crate::fixed::{lemma_shift_by_whole, lemma_whole_and_fraction, split, UNIT};
use crate::grain::{lemma_grain_stays_valid, Grain, GrainModel};
use crate::stereo_pair::AudioSampleOps;
use vstd::prelude::*;

verus! {

/// The number of grain slots.
pub const MAX_GRAINS: usize = 10;

/// Which buffer the grains are read from, and whether the static buffer is
/// being filled.
#[derive(Debug, Clone, Copy, PartialEq, Eq)]
pub enum Phase {
    /// No loop is held: grains are read from the rolling buffer.
    NotLooping,
    /// A loop is held and the static buffer is being filled: grains are
    /// still read from the rolling buffer.
    FillingStatic,
    /// The static buffer is complete: grains are read from it.
    UsingStatic,
}

/// The models of a list of grains.
pub open spec fn models(grains: Seq<Grain>) -> Seq<GrainModel> {
    grains.map_values(|g: Grain| g@)
}

/// Whether a buffer of `len` samples can be read at `position` with
/// interpolation.
pub open spec fn in_reach(position: int, len: nat) -> bool {
    0 <= position && ceil_index(position) < len
}

/// The delay at which a grain at `position` reads, where `reference`
/// samples have passed since the positions were fixed.
pub open spec fn read_delay(position: int, reference: int) -> int {
    position + reference * UNIT
}

/// Whether the next step of `grain` reads within a buffer of `len` samples;
/// a grain that does not sound reads nothing.
pub open spec fn readable(grain: GrainModel, reference: int, len: nat) -> bool {
    grain.is_playing() ==> in_reach(read_delay(grain.position, reference), len)
}

/// The sum, onto `start`, of what the sounding grains read from `source`,
/// in slot order: each reads with interpolation at its reported position,
/// moved by `reference`, and is scaled by its reported gain.
pub open spec fn mix<T: AudioSampleOps>(
    grains: Seq<GrainModel>,
    source: Seq<T>,
    reference: int,
    start: T,
) -> T
    decreases grains.len(),
{
    if grains.len() == 0 {
        start
    } else {
        let before = mix(grains.drop_last(), source, reference, start);
        let grain = grains.last();
        if grain.is_playing() {
            before.sum(
                interpolated(source, read_delay(grain.reported_position(), reference)).scaled(
                    grain.reported_gain(),
                ),
            )
        } else {
            before
        }
    }
}

/// The index of the first finished grain, or the number of grains where
/// none is finished.
pub open spec fn first_finished(grains: Seq<GrainModel>) -> int
    decreases grains.len(),
{
    if grains.len() == 0 {
        0
    } else if first_finished(grains.drop_last()) < grains.len() - 1 {
        first_finished(grains.drop_last())
    } else if grains.last().is_finished() {
        grains.len() - 1
    } else {
        grains.len() as int
    }
}

/// The number of grains that satisfy `holds`.
pub open spec fn tally(grains: Seq<GrainModel>, holds: spec_fn(GrainModel) -> bool) -> nat
    decreases grains.len(),
{
    if grains.len() == 0 {
        0
    } else {
        tally(grains.drop_last(), holds) + if holds(grains.last()) {
            1nat
        } else {
            0nat
        }
    }
}

/// Whether grain `index` is the sounding grain that has played the fewest
/// steps, and the first of those where several have.
pub open spec fn is_most_recent(grains: Seq<GrainModel>, index: int) -> bool {
    &&& 0 <= index < grains.len()
    &&& grains[index].is_playing()
    &&& forall|j: int|
        0 <= j < grains.len() && (#[trigger] grains[j]).is_playing() ==> grains[index].elapsed
            <= grains[j].elapsed
    &&& forall|j: int|
        0 <= j < index && (#[trigger] grains[j]).is_playing() ==> grains[index].elapsed
            < grains[j].elapsed
}

/// The mathematical state of the pool.
pub struct GrainPlayerModel<T> {
    /// The grain slots.
    pub grains: Seq<GrainModel>,
    /// The rolling buffer by delay.
    pub rolling: Seq<T>,
    /// The slots of the rolling buffer in storage order.
    pub rolling_slots: Seq<T>,
    /// The slot of the rolling buffer that the next write goes to.
    pub rolling_cursor: nat,
    /// The static buffer by delay.
    pub frozen: Seq<T>,
    /// The slots of the static buffer in storage order.
    pub frozen_slots: Seq<T>,
    /// The slot of the static buffer that the next write goes to.
    pub frozen_cursor: nat,
    /// Steps since the loop was taken.
    pub rolling_offset: nat,
    /// The phase of the handoff.
    pub phase: Phase,
    /// The length of the region that may be looped.
    pub region: nat,
    /// What the static buffer holds beyond that region.
    pub margin: nat,
}

impl<T: AudioSampleOps> GrainPlayerModel<T> {
    /// What every reachable state satisfies.
    pub open spec fn valid(self) -> bool {
        &&& self.grains.len() == MAX_GRAINS
        &&& forall|i: int| 0 <= i < self.grains.len() ==> (#[trigger] self.grains[i]).valid()
        &&& self.frozen.len() == self.region + self.margin
        &&& self.rolling.len() == self.region + self.frozen.len()
        &&& self.rolling == history(self.rolling_slots, self.rolling_cursor as int)
        &&& self.frozen == history(self.frozen_slots, self.frozen_cursor as int)
        &&& self.rolling_cursor < self.rolling_slots.len() || (self.rolling_slots.len() == 0
            && self.rolling_cursor == 0)
        &&& self.frozen_cursor < self.frozen_slots.len() || (self.frozen_slots.len() == 0
            && self.frozen_cursor == 0)
    }

    /// A pool of empty slots and silent buffers, not looping, for a
    /// loopable region of `region` samples and `margin` samples beyond it.
    pub open spec fn fresh(region: nat, margin: nat) -> GrainPlayerModel<T> {
        GrainPlayerModel {
            grains: Seq::new(MAX_GRAINS as nat, |i: int| GrainModel::fresh(0, 0, 0, 0, false, 0)),
            rolling: Seq::new(2 * region + margin, |i: int| T::silent()),
            rolling_slots: Seq::new(2 * region + margin, |i: int| T::silent()),
            rolling_cursor: 0,
            frozen: Seq::new(region + margin, |i: int| T::silent()),
            frozen_slots: Seq::new(region + margin, |i: int| T::silent()),
            frozen_cursor: 0,
            rolling_offset: 0,
            phase: Phase::NotLooping,
            region,
            margin,
        }
    }

    /// The state with `grain` in the first finished slot; where no slot is
    /// finished the grain is dropped and the state stays as it is.
    pub open spec fn schedule(self, grain: GrainModel) -> GrainPlayerModel<T> {
        let slot = first_finished(self.grains);
        if slot < self.grains.len() {
            GrainPlayerModel { grains: self.grains.update(slot, grain), ..self }
        } else {
            self
        }
    }

    /// The state after a reset: both buffers hold silence, their cursors
    /// are rewound, and no loop is held. The grains stay as they are.
    pub open spec fn reset(self) -> GrainPlayerModel<T> {
        GrainPlayerModel {
            rolling: Seq::new(self.rolling.len(), |i: int| T::silent()),
            rolling_slots: Seq::new(self.rolling_slots.len(), |i: int| T::silent()),
            rolling_cursor: 0,
            frozen: Seq::new(self.frozen.len(), |i: int| T::silent()),
            frozen_slots: Seq::new(self.frozen_slots.len(), |i: int| T::silent()),
            frozen_cursor: 0,
            rolling_offset: 0,
            phase: Phase::NotLooping,
            ..self
        }
    }

    /// The state after a loop is taken: the copy into the static buffer
    /// begins, and the steps are counted from here.
    pub open spec fn start_looping(self) -> GrainPlayerModel<T> {
        GrainPlayerModel { rolling_offset: 0, phase: Phase::FillingStatic, ..self }
    }

    /// The state after the loop is let go: a copy in progress ends. A
    /// complete static buffer stays in use.
    pub open spec fn stop_looping(self) -> GrainPlayerModel<T> {
        GrainPlayerModel {
            phase: if self.phase == Phase::FillingStatic {
                Phase::NotLooping
            } else {
                self.phase
            },
            ..self
        }
    }

    /// The state with every grain stopped.
    pub open spec fn stop_all(self) -> GrainPlayerModel<T> {
        GrainPlayerModel { grains: self.grains.map_values(|g: GrainModel| g.stop()), ..self }
    }

    /// The phase after the next step: the static buffer comes into use with
    /// the step that completes it.
    pub open spec fn next_phase(self) -> Phase {
        if self.phase == Phase::FillingStatic && self.rolling_offset + 1 >= self.frozen.len() {
            Phase::UsingStatic
        } else {
            self.phase
        }
    }

    /// What the next step moves the grains' positions by: the margin of the
    /// static buffer where that is read, else the steps since the loop was
    /// taken.
    pub open spec fn next_reference(self) -> int {
        if self.next_phase() == Phase::UsingStatic {
            self.margin as int
        } else {
            (self.rolling_offset + 1) as int
        }
    }

    /// The length of the buffer that the next step reads.
    pub open spec fn next_source_len(self) -> nat {
        if self.next_phase() == Phase::UsingStatic {
            self.frozen.len()
        } else {
            self.rolling.len()
        }
    }

    /// Whether the next step can be taken: the buffers are not empty, the
    /// step count fits, and every sounding grain reads within the buffer.
    pub open spec fn can_tick(self) -> bool {
        &&& self.frozen.len() > 0
        &&& self.rolling_offset < usize::MAX
        &&& forall|i: int|
            0 <= i < self.grains.len() ==> readable(
                #[trigger] self.grains[i],
                self.next_reference(),
                self.next_source_len(),
            )
    }

    /// The rolling buffer after `input` was written.
    pub open spec fn next_rolling(self, input: T) -> Seq<T> {
        pushed(self.rolling, input)
    }

    /// The static buffer after the next step: while it is being filled it
    /// takes the sample that entered the rolling buffer one region ago.
    pub open spec fn next_frozen(self, input: T) -> Seq<T> {
        if self.phase == Phase::FillingStatic {
            pushed(self.frozen, self.next_rolling(input)[self.region as int])
        } else {
            self.frozen
        }
    }

    /// The state after one step with `input`: the rolling buffer takes
    /// `input` at its cursor; the static buffer takes its sample at its own
    /// cursor while it is being filled, and otherwise stays as it is, slots
    /// and cursor alike.
    pub open spec fn tick(self, input: T) -> GrainPlayerModel<T> {
        GrainPlayerModel {
            grains: self.grains.map_values(|g: GrainModel| g.tick()),
            rolling: self.next_rolling(input),
            rolling_slots: self.rolling_slots.update(self.rolling_cursor as int, input),
            rolling_cursor: next_cursor(self.rolling_cursor, self.rolling_slots.len()),
            frozen: self.next_frozen(input),
            frozen_slots: if self.phase == Phase::FillingStatic {
                self.frozen_slots.update(
                    self.frozen_cursor as int,
                    self.next_rolling(input)[self.region as int],
                )
            } else {
                self.frozen_slots
            },
            frozen_cursor: if self.phase == Phase::FillingStatic {
                next_cursor(self.frozen_cursor, self.frozen_slots.len())
            } else {
                self.frozen_cursor
            },
            rolling_offset: self.rolling_offset + 1,
            phase: self.next_phase(),
            ..self
        }
    }

    /// What one step with `input` returns: the mix of the sounding grains
    /// onto silence, read from the buffer that is in use after the step's
    /// writes.
    pub open spec fn output(self, input: T) -> T {
        mix(
            self.grains,
            if self.next_phase() == Phase::UsingStatic {
                self.next_frozen(input)
            } else {
                self.next_rolling(input)
            },
            self.next_reference(),
            T::silent(),
        )
    }

    /// The state after one step for each sample of `inputs`, in order.
    pub open spec fn run(self, inputs: Seq<T>) -> GrainPlayerModel<T>
        decreases inputs.len(),
    {
        if inputs.len() == 0 {
            self
        } else {
            self.run(inputs.drop_last()).tick(inputs.last())
        }
    }
}

/// A pool of grains with the buffers that they play from.
pub struct GrainPlayer<T: AudioSampleOps> {
    grains: Vec<Grain>,
    rolling_buffer: DelayLine<T>,
    static_buffer: DelayLine<T>,
    rolling_offset: usize,
    phase: Phase,
    loopable_region_length: usize,
    static_buffer_margin: usize,
}

impl<T: AudioSampleOps> View for GrainPlayer<T> {
    type V = GrainPlayerModel<T>;

    closed spec fn view(&self) -> GrainPlayerModel<T> {
        GrainPlayerModel {
            grains: models(self.grains@),
            rolling: self.rolling_buffer@,
            rolling_slots: self.rolling_buffer.storage(),
            rolling_cursor: self.rolling_buffer.cursor(),
            frozen: self.static_buffer@,
            frozen_slots: self.static_buffer.storage(),
            frozen_cursor: self.static_buffer.cursor(),
            rolling_offset: self.rolling_offset as nat,
            phase: self.phase,
            region: self.loopable_region_length as nat,
            margin: self.static_buffer_margin as nat,
        }
    }
}

impl<T: AudioSampleOps> GrainPlayer<T> {
    /// The representation invariant.
    pub open spec fn wf(&self) -> bool {
        &&& self@.valid()
        &&& self.parts_wf()
    }

    /// The buffers and the grains are well-formed.
    pub closed spec fn parts_wf(&self) -> bool {
        &&& self.rolling_buffer.wf()
        &&& self.static_buffer.wf()
        &&& forall|i: int| 0 <= i < self.grains@.len() ==> (#[trigger] self.grains@[i]).wf()
    }

    /// A pool of empty slots and silent buffers. The static buffer holds a
    /// loopable region
    /// of `loopable_region_length` samples and `max_fade_time +
    /// max_loop_time` samples beyond it; the rolling buffer holds one more
    /// region than that.
    pub fn new_with_length(
        loopable_region_length: usize,
        max_fade_time: usize,
        max_loop_time: usize,
    ) -> (player: GrainPlayer<T>)
        requires
            2 * loopable_region_length + max_fade_time + max_loop_time <= usize::MAX,
        ensures
            player.wf(),
            player@ == GrainPlayerModel::<T>::fresh(
                loopable_region_length as nat,
                (max_fade_time + max_loop_time) as nat,
            ),
    {
        let delay_line_length_static: usize = loopable_region_length + max_fade_time
            + max_loop_time;
        let delay_line_length_rolling: usize = loopable_region_length + delay_line_length_static;
        let silence: T = T::silence();
        let delay_line_static: DelayLine<T> = DelayLine::filled(delay_line_length_static, silence);
        let delay_line_rolling: DelayLine<T> = DelayLine::filled(
            delay_line_length_rolling,
            silence,
        );
        let mut grains_init: Vec<Grain> = Vec::new();
        let mut i: usize = 0;
        while i < MAX_GRAINS
            invariant
                i <= MAX_GRAINS,
                grains_init@.len() == i,
                forall|j: int|
                    0 <= j < i ==> (#[trigger] grains_init@[j]).wf() && grains_init@[j]@
                        == GrainModel::fresh(0, 0, 0, 0, false, 0),
            decreases MAX_GRAINS - i,
        {
            grains_init.push(Grain::new(0, 0, 0, 0, false, 0));
            i = i + 1;
        }
        let player = GrainPlayer {
            grains: grains_init,
            rolling_buffer: delay_line_rolling,
            static_buffer: delay_line_static,
            rolling_offset: 0,
            phase: Phase::NotLooping,
            loopable_region_length,
            static_buffer_margin: max_fade_time + max_loop_time,
        };
        proof {
            let fresh = GrainPlayerModel::<T>::fresh(
                loopable_region_length as nat,
                (max_fade_time + max_loop_time) as nat,
            );
            assert(player@.grains =~= fresh.grains);
            assert(player@.rolling =~= fresh.rolling);
            assert(player@.frozen =~= fresh.frozen);
            assert(player@.rolling_slots =~= fresh.rolling_slots);
            assert(player@.frozen_slots =~= fresh.frozen_slots);
        }
        player
    }

    /// Puts `grain` into the first finished slot. Where every slot is in
    /// use the grain is dropped and the pool stays as it is.
    pub fn schedule_grain(&mut self, grain: Grain)
        requires
            old(self).wf(),
            grain.wf(),
        ensures
            final(self).wf(),
            final(self)@ == old(self)@.schedule(grain@),
    {
        let mut i: usize = 0;
        while i < self.grains.len()
            invariant
                i <= self.grains@.len(),
                self.grains@.len() == MAX_GRAINS,
                *self == *old(self),
                old(self).wf(),
                grain.wf(),
                first_finished(models(self.grains@).take(i as int)) == i,
            decreases self.grains@.len() - i,
        {
            proof {
                assert(models(self.grains@).take(i + 1).drop_last() =~= models(self.grains@).take(
                    i as int,
                ));
            }
            if self.grains[i].is_finished() {
                self.grains[i] = grain;
                proof {
                    lemma_first_finished_of_prefix(models(old(self).grains@), (i + 1) as int);
                    assert(self@.grains =~= old(self)@.schedule(grain@).grains);
                    assert forall|j: int| 0 <= j < self@.grains.len() implies (
                    #[trigger] self@.grains[j]).valid() by {
                        if j != i {
                            assert(self@.grains[j] == old(self)@.grains[j]);
                        }
                    }
                }
                return ;
            }
            i = i + 1;
        }
        proof {
            assert(models(self.grains@).take(i as int) =~= models(self.grains@));
        }
    }

    /// Whether [`GrainPlayer::tick`] may be called: see
    /// [`GrainPlayerModel::can_tick`].
    pub fn can_tick(&self) -> (ok: bool)
        requires
            self.wf(),
        ensures
            ok == self@.can_tick(),
    {
        let static_len: usize = self.static_buffer.len();
        if static_len == 0 || self.rolling_offset == usize::MAX {
            return false;
        }
        let next_offset: usize = self.rolling_offset + 1;
        let to_static: bool = match self.phase {
            Phase::UsingStatic => true,
            Phase::FillingStatic => next_offset >= static_len,
            Phase::NotLooping => false,
        };
        let reference: usize = if to_static {
            self.static_buffer_margin
        } else {
            next_offset
        };
        let len: usize = if to_static {
            static_len
        } else {
            self.rolling_buffer.len()
        };
        let mut i: usize = 0;
        while i < self.grains.len()
            invariant
                i <= self.grains@.len(),
                reference == self@.next_reference(),
                len == self@.next_source_len(),
                forall|j: int|
                    0 <= j < i ==> readable(
                        #[trigger] self@.grains[j],
                        reference as int,
                        len as nat,
                    ),
            decreases self.grains@.len() - i,
        {
            if self.grains[i].is_playing() {
                let found: Option<(usize, i64)> = locate(
                    self.grains[i].delay_position(),
                    reference,
                    len,
                );
                if found.is_none() {
                    proof {
                        assert(!readable(self@.grains[i as int], reference as int, len as nat));
                    }
                    return false;
                }
            }
            i = i + 1;
        }
        true
    }

    /// Takes one step: writes `input` to the rolling buffer, advances the
    /// copy into the static buffer while that is being filled, brings the
    /// static buffer into use once it is complete, and steps every grain.
    /// Returns the sum of what the sounding grains read.
    ///
    /// Every sounding grain must read within the buffer that is in use
    /// after the step's writes.
    pub fn tick(&mut self, input: T) -> (out: T)
        requires
            old(self).wf(),
            old(self)@.can_tick(),
        ensures
            final(self).wf(),
            final(self)@ == old(self)@.tick(input),
            out == old(self)@.output(input),
    {
        self.rolling_buffer.tick(input);
        self.rolling_offset = self.rolling_offset + 1;
        self.tick_static_buffer_copy();
        let silence: T = T::silence();
        let ghost before = models(self.grains@);
        let out: T = match self.phase {
            Phase::UsingStatic => Self::read_grains(
                &mut self.grains,
                &self.static_buffer,
                self.static_buffer_margin,
                silence,
            ),
            _ => Self::read_grains(
                &mut self.grains,
                &self.rolling_buffer,
                self.rolling_offset,
                silence,
            ),
        };
        proof {
            assert forall|i: int| 0 <= i < self@.grains.len() implies (
            #[trigger] self@.grains[i]).valid() by {
                lemma_grain_stays_valid(before[i]);
            }
            assert(self@.grains =~= old(self)@.tick(input).grains);
        }
        out
    }

    /// Steps every grain and sums, onto `start`, what the sounding ones
    /// read from `delay_line`.
    fn read_grains(
        grains: &mut Vec<Grain>,
        delay_line: &DelayLine<T>,
        rolling_offset: usize,
        start: T,
    ) -> (out: T)
        requires
            delay_line.wf(),
            forall|i: int| 0 <= i < old(grains)@.len() ==> (#[trigger] old(grains)@[i]).wf(),
            forall|i: int|
                0 <= i < old(grains)@.len() ==> readable(
                    #[trigger] models(old(grains)@)[i],
                    rolling_offset as int,
                    delay_line@.len(),
                ),
        ensures
            final(grains)@.len() == old(grains)@.len(),
            forall|i: int| 0 <= i < final(grains)@.len() ==> (#[trigger] final(grains)@[i]).wf(),
            models(final(grains)@) =~= models(old(grains)@).map_values(|g: GrainModel| g.tick()),
            out == mix(models(old(grains)@), delay_line@, rolling_offset as int, start),
    {
        let mut out: T = start;
        let n: usize = grains.len();
        let len: usize = delay_line.len();
        let mut i: usize = 0;
        proof {
            assert(models(old(grains)@).take(0) =~= Seq::<GrainModel>::empty());
        }
        while i < n
            invariant
                i <= n,
                n == grains@.len(),
                n == old(grains)@.len(),
                len == delay_line@.len(),
                delay_line.wf(),
                forall|j: int| 0 <= j < n ==> (#[trigger] grains@[j]).wf(),
                forall|j: int| i <= j < n ==> grains@[j] == old(grains)@[j],
                forall|j: int| 0 <= j < i ==> (#[trigger] grains@[j])@ == old(grains)@[j]@.tick(),
                forall|j: int|
                    0 <= j < n ==> readable(
                        #[trigger] models(old(grains)@)[j],
                        rolling_offset as int,
                        delay_line@.len(),
                    ),
                out == mix(
                    models(old(grains)@).take(i as int),
                    delay_line@,
                    rolling_offset as int,
                    start,
                ),
            decreases n - i,
        {
            let mut grain: Grain = grains[i];
            proof {
                assert(models(old(grains)@).take(i + 1).drop_last() =~= models(old(grains)@).take(
                    i as int,
                ));
                assert(models(old(grains)@).take(i + 1).last() == old(grains)@[i as int]@);
                assert(models(old(grains)@)[i as int] == grain@);
                lemma_grain_stays_valid(grain@);
            }
            if grain.is_playing() {
                let position: i64 = grain.delay_position();
                let reported: (i64, i64) = grain.tick();
                let place: (usize, i64) = locate(position, rolling_offset, len).unwrap();
                out = out.plus(delay_line.read_at(place.0, place.1).scale(reported.1));
            } else {
                grain.tick();
            }
            grains[i] = grain;
            i = i + 1;
        }
        proof {
            assert(models(old(grains)@).take(n as int) =~= models(old(grains)@));
        }
        out
    }

    /// Advances the copy into the static buffer while that is being
    /// filled: the static buffer takes the sample that entered the rolling
    /// buffer one loopable region ago, and comes into use once as many
    /// samples have been copied as it holds.
    fn tick_static_buffer_copy(&mut self)
        requires
            old(self).wf(),
            old(self)@.frozen.len() > 0,
        ensures
            final(self).wf(),
            final(self)@ == (GrainPlayerModel {
                frozen: if old(self)@.phase == Phase::FillingStatic {
                    pushed(old(self)@.frozen, old(self)@.rolling[old(self)@.region as int])
                } else {
                    old(self)@.frozen
                },
                frozen_slots: if old(self)@.phase == Phase::FillingStatic {
                    old(self)@.frozen_slots.update(
                        old(self)@.frozen_cursor as int,
                        old(self)@.rolling[old(self)@.region as int],
                    )
                } else {
                    old(self)@.frozen_slots
                },
                frozen_cursor: if old(self)@.phase == Phase::FillingStatic {
                    next_cursor(old(self)@.frozen_cursor, old(self)@.frozen_slots.len())
                } else {
                    old(self)@.frozen_cursor
                },
                phase: if old(self)@.phase == Phase::FillingStatic && old(self)@.rolling_offset
                    >= old(self)@.frozen.len() {
                    Phase::UsingStatic
                } else {
                    old(self)@.phase
                },
                ..old(self)@
            }),
    {
        match self.phase {
            Phase::FillingStatic => {
                self.static_buffer.tick(self.rolling_buffer.read(self.loopable_region_length));
                if self.rolling_offset >= self.ticks_before_switch_to_static_buffer() {
                    self.phase = Phase::UsingStatic;
                }
            },
            _ => {},
        }
    }

    /// The number of steps of copying after which the static buffer comes
    /// into use: its length.
    pub fn ticks_before_switch_to_static_buffer(&self) -> (steps: usize)
        ensures
            steps == self@.frozen.len(),
    {
        self.static_buffer.len()
    }

    /// Whether the static buffer is being filled.
    pub fn is_filling_static_buffer(&self) -> (r: bool)
        ensures
            r == (self@.phase == Phase::FillingStatic),
    {
        match self.phase {
            Phase::FillingStatic => true,
            _ => false,
        }
    }

    /// Whether grains are read from the static buffer.
    pub fn is_using_static_buffer(&self) -> (r: bool)
        ensures
            r == (self@.phase == Phase::UsingStatic),
    {
        match self.phase {
            Phase::UsingStatic => true,
            _ => false,
        }
    }

    /// The static buffer.
    pub fn static_buffer(&self) -> (line: &DelayLine<T>)
        requires
            self.wf(),
        ensures
            line.wf(),
            line@ == self@.frozen,
            line.storage() == self@.frozen_slots,
            line.cursor() == self@.frozen_cursor,
    {
        &self.static_buffer
    }

    /// The rolling buffer.
    pub fn rolling_buffer(&self) -> (line: &DelayLine<T>)
        requires
            self.wf(),
        ensures
            line.wf(),
            line@ == self@.rolling,
            line.storage() == self@.rolling_slots,
            line.cursor() == self@.rolling_cursor,
    {
        &self.rolling_buffer
    }

    /// Steps since the loop was taken.
    pub fn rolling_offset(&self) -> (r: usize)
        ensures
            r == self@.rolling_offset,
    {
        self.rolling_offset
    }

    /// The length of the region that may be looped.
    pub fn loopable_region_length(&self) -> (r: usize)
        ensures
            r == self@.region,
    {
        self.loopable_region_length
    }

    /// Stops every grain: each fades out from where it is.
    pub fn stop_all_grains(&mut self)
        requires
            old(self).wf(),
        ensures
            final(self).wf(),
            final(self)@ == old(self)@.stop_all(),
    {
        let n: usize = self.grains.len();
        let mut i: usize = 0;
        while i < n
            invariant
                i <= n,
                n == self.grains@.len(),
                n == old(self).grains@.len(),
                old(self).wf(),
                self.rolling_buffer == old(self).rolling_buffer,
                self.static_buffer == old(self).static_buffer,
                self.rolling_offset == old(self).rolling_offset,
                self.phase == old(self).phase,
                self.loopable_region_length == old(self).loopable_region_length,
                self.static_buffer_margin == old(self).static_buffer_margin,
                forall|j: int| 0 <= j < n ==> (#[trigger] self.grains@[j]).wf(),
                forall|j: int| i <= j < n ==> self.grains@[j] == old(self).grains@[j],
                forall|j: int|
                    0 <= j < i ==> (#[trigger] self.grains@[j])@ == old(self).grains@[j]@.stop(),
            decreases n - i,
        {
            let mut grain: Grain = self.grains[i];
            grain.stop();
            self.grains[i] = grain;
            i = i + 1;
        }
        proof {
            assert(self@.grains =~= old(self)@.stop_all().grains);
        }
    }

    /// The number of grains that wait to start.
    pub fn num_scheduled_grains(&self) -> (count: usize)
        requires
            self.wf(),
        ensures
            count == tally(self@.grains, |g: GrainModel| g.is_waiting()),
    {
        let mut count: usize = 0;
        let mut i: usize = 0;
        proof {
            assert(self@.grains.take(0) =~= Seq::<GrainModel>::empty());
        }
        while i < self.grains.len()
            invariant
                i <= self.grains@.len(),
                count <= i,
                count == tally(self@.grains.take(i as int), |g: GrainModel| g.is_waiting()),
            decreases self.grains@.len() - i,
        {
            proof {
                assert(self@.grains.take(i + 1).drop_last() =~= self@.grains.take(i as int));
            }
            if self.grains[i].is_waiting() {
                count = count + 1;
            }
            i = i + 1;
        }
        proof {
            assert(self@.grains.take(i as int) =~= self@.grains);
        }
        count
    }

    /// The number of grains that sound.
    pub fn num_playing_grains(&self) -> (count: usize)
        requires
            self.wf(),
        ensures
            count == tally(self@.grains, |g: GrainModel| g.is_playing()),
    {
        let mut count: usize = 0;
        let mut i: usize = 0;
        proof {
            assert(self@.grains.take(0) =~= Seq::<GrainModel>::empty());
        }
        while i < self.grains.len()
            invariant
                i <= self.grains@.len(),
                count <= i,
                count == tally(self@.grains.take(i as int), |g: GrainModel| g.is_playing()),
            decreases self.grains@.len() - i,
        {
            proof {
                assert(self@.grains.take(i + 1).drop_last() =~= self@.grains.take(i as int));
            }
            if self.grains[i].is_playing() {
                count = count + 1;
            }
            i = i + 1;
        }
        proof {
            assert(self@.grains.take(i as int) =~= self@.grains);
        }
        count
    }

    /// The number of grains that are finished, empty slots included.
    pub fn num_finished_grains(&self) -> (count: usize)
        requires
            self.wf(),
        ensures
            count == tally(self@.grains, |g: GrainModel| g.is_finished()),
    {
        let mut count: usize = 0;
        let mut i: usize = 0;
        proof {
            assert(self@.grains.take(0) =~= Seq::<GrainModel>::empty());
        }
        while i < self.grains.len()
            invariant
                i <= self.grains@.len(),
                count <= i,
                count == tally(self@.grains.take(i as int), |g: GrainModel| g.is_finished()),
            decreases self.grains@.len() - i,
        {
            proof {
                assert(self@.grains.take(i + 1).drop_last() =~= self@.grains.take(i as int));
            }
            if self.grains[i].is_finished() {
                count = count + 1;
            }
            i = i + 1;
        }
        proof {
            assert(self@.grains.take(i as int) =~= self@.grains);
        }
        count
    }

    /// The sounding grain that has played the fewest steps, and the first
    /// of those in slot order where several have; nothing where no grain
    /// sounds.
    pub fn most_recent_grain(&self) -> (found: Option<&Grain>)
        requires
            self.wf(),
        ensures
            found.is_none() <==> forall|i: int|
                0 <= i < self@.grains.len() ==> !(#[trigger] self@.grains[i]).is_playing(),
            found matches Some(grain) ==> exists|i: int|
                is_most_recent(self@.grains, i) && grain@ == self@.grains[i],
    {
        let mut best: Option<usize> = None;
        let mut i: usize = 0;
        while i < self.grains.len()
            invariant
                i <= self.grains@.len(),
                best.is_none() <==> forall|j: int|
                    0 <= j < i ==> !(#[trigger] self@.grains[j]).is_playing(),
                best matches Some(b) ==> is_most_recent(self@.grains.take(i as int), b as int),
            decreases self.grains@.len() - i,
        {
            proof {
                assert(self@.grains[i as int] == self.grains@[i as int]@);
                assert(self@.grains.take(i + 1)[i as int] == self@.grains[i as int]);
                assert forall|j: int| 0 <= j < i implies self@.grains.take(i as int)[j]
                    == self@.grains.take(i + 1)[j] by {}
                if let Some(b) = best {
                    assert(self@.grains.take(i as int)[b as int] == self@.grains[b as int]);
                    assert(self@.grains[b as int] == self.grains@[b as int]@);
                }
            }
            if self.grains[i].is_playing() {
                let better: bool = match best {
                    Some(b) => self.grains[i].elapsed_sample_count()
                        < self.grains[b].elapsed_sample_count(),
                    None => true,
                };
                if better {
                    best = Some(i);
                }
            }
            i = i + 1;
        }
        proof {
            assert(self@.grains.take(i as int) =~= self@.grains);
        }
        match best {
            Some(b) => Some(&self.grains[b]),
            None => None,
        }
    }

    /// Fills both buffers with silence and lets the loop go.
    pub fn reset(&mut self)
        requires
            old(self).wf(),
        ensures
            final(self).wf(),
            final(self)@ == old(self)@.reset(),
    {
        let silence: T = T::silence();
        self.rolling_buffer.reset();
        fill_delay_constant(&mut self.rolling_buffer, silence);
        self.static_buffer.reset();
        fill_delay_constant(&mut self.static_buffer, silence);
        self.phase = Phase::NotLooping;
        self.rolling_offset = 0;
    }

    /// Takes the loop: from here on the loopable region is copied into the
    /// static buffer.
    pub fn start_looping(&mut self)
        requires
            old(self).wf(),
        ensures
            final(self).wf(),
            final(self)@ == old(self)@.start_looping(),
    {
        self.phase = Phase::FillingStatic;
        self.rolling_offset = 0;
    }

    /// Lets the loop go: a copy in progress ends. Grains that sound go on,
    /// and a complete static buffer stays in use.
    pub fn stop_looping(&mut self)
        requires
            old(self).wf(),
        ensures
            final(self).wf(),
            final(self)@ == old(self)@.stop_looping(),
    {
        match self.phase {
            Phase::FillingStatic => {
                self.phase = Phase::NotLooping;
            },
            _ => {},
        }
    }
}

/// Finds where a grain at `position` reads in a buffer of `len` samples,
/// `reference` samples after its positions were fixed: the whole delay and
/// the fraction above it, or nothing where the read would leave the buffer.
pub fn locate(position: i64, reference: usize, len: usize) -> (found: Option<(usize, i64)>)
    ensures
        found.is_some() == in_reach(read_delay(position as int, reference as int), len as nat),
        found matches Some(place) ==> place.0 * UNIT + place.1 == read_delay(
            position as int,
            reference as int,
        ) && 0 <= place.1 < UNIT,
{
    let (whole, frac): (i64, i64) = split(position);
    let index: i128 = whole as i128 + reference as i128;
    proof {
        lemma_shift_by_whole(position as int, reference as int);
        lemma_whole_and_fraction(index as int, frac as int);
        let delay: int = read_delay(position as int, reference as int);
        assert(delay == index * UNIT + frac) by (nonlinear_arith)
            requires
                delay == position + reference * UNIT,
                position == whole * UNIT + frac,
                index == whole + reference,
        ;
        assert(delay >= 0 <==> index >= 0) by (nonlinear_arith)
            requires
                delay == index * UNIT + frac,
                0 <= frac < UNIT,
        ;
    }
    if index < 0 {
        return None;
    }
    let top: i128 = if frac == 0 {
        index
    } else {
        index + 1
    };
    if top >= len as i128 {
        return None;
    }
    Some((index as usize, frac))
}

/// Where no grain sounds, the mix is what it started from.
pub proof fn lemma_mix_without_sounding_grains<T: AudioSampleOps>(
    grains: Seq<GrainModel>,
    source: Seq<T>,
    reference: int,
    start: T,
)
    requires
        forall|i: int| 0 <= i < grains.len() ==> !(#[trigger] grains[i]).is_playing(),
    ensures
        mix(grains, source, reference, start) == start,
    decreases grains.len(),
{
    if grains.len() > 0 {
        assert forall|i: int| 0 <= i < grains.drop_last().len() implies !(
        #[trigger] grains.drop_last()[i]).is_playing() by {
            assert(grains.drop_last()[i] == grains[i]);
        }
        lemma_mix_without_sounding_grains(grains.drop_last(), source, reference, start);
        assert(!grains[grains.len() - 1].is_playing());
    }
}

/// A pool without a finished slot stays as it is when a grain is
/// scheduled.
pub proof fn law_saturated_pool_drops_grain<T: AudioSampleOps>(
    pool: GrainPlayerModel<T>,
    grain: GrainModel,
)
    requires
        forall|i: int| 0 <= i < pool.grains.len() ==> !(#[trigger] pool.grains[i]).is_finished(),
    ensures
        pool.schedule(grain) == pool,
{
    lemma_first_finished_is_first(pool.grains);
}

/// The first finished grain is finished and no grain before it is; where
/// no grain is finished the index is the number of grains.
pub proof fn lemma_first_finished_is_first(grains: Seq<GrainModel>)
    ensures
        0 <= first_finished(grains) <= grains.len(),
        first_finished(grains) < grains.len() ==> grains[first_finished(grains)].is_finished(),
        forall|i: int| 0 <= i < first_finished(grains) ==> !(#[trigger] grains[i]).is_finished(),
    decreases grains.len(),
{
    if grains.len() > 0 {
        lemma_first_finished_is_first(grains.drop_last());
        assert forall|i: int| 0 <= i < first_finished(grains) implies !(
        #[trigger] grains[i]).is_finished() by {
            if i < grains.len() - 1 {
                assert(grains.drop_last()[i] == grains[i]);
            }
        }
    }
}

/// After a loop is taken, the pool fills the static buffer for as many
/// steps as the static buffer holds samples, and reads from it from the
/// step that completes it. At that step the static buffer holds what the
/// rolling buffer holds one loopable region back, so a grain reads the same
/// samples from either; from then on the static buffer stays as it is,
/// slots and cursor included.
pub proof fn law_static_buffer_handoff<T: AudioSampleOps>(
    pool: GrainPlayerModel<T>,
    inputs: Seq<T>,
)
    requires
        pool.valid(),
        pool.frozen.len() > 0,
    ensures
        ({
            let after = pool.start_looping().run(inputs);
            let capacity = pool.frozen.len();
            &&& after.frozen.len() == capacity
            &&& after.rolling.len() == pool.rolling.len()
            &&& after.region == pool.region
            &&& after.margin == pool.margin
            &&& inputs.len() < capacity ==> after.phase == Phase::FillingStatic
                && after.rolling_offset == inputs.len()
            &&& inputs.len() >= capacity ==> after.phase == Phase::UsingStatic
            &&& inputs.len() <= capacity ==> forall|d: int|
                0 <= d < inputs.len() ==> after.frozen[d] == after.rolling[d + pool.region]
            &&& inputs.len() > capacity ==> after.frozen == pool.start_looping().run(
                inputs.take(capacity as int),
            ).frozen
            &&& inputs.len() > capacity ==> after.frozen_slots == pool.start_looping().run(
                inputs.take(capacity as int),
            ).frozen_slots
            &&& inputs.len() > capacity ==> after.frozen_cursor == pool.start_looping().run(
                inputs.take(capacity as int),
            ).frozen_cursor
        }),
    decreases inputs.len(),
{
    let capacity = pool.frozen.len();
    if inputs.len() > 0 {
        let shorter = inputs.drop_last();
        law_static_buffer_handoff(pool, shorter);
        let prior = pool.start_looping().run(shorter);
        let after = prior.tick(inputs.last());
        assert(after == pool.start_looping().run(inputs));
        if inputs.len() <= capacity {
            assert forall|d: int| 0 <= d < inputs.len() implies after.frozen[d] == after.rolling[d
                + pool.region] by {
                if d > 0 {
                    assert(prior.frozen[d - 1] == prior.rolling[d - 1 + pool.region]);
                }
            }
        } else if inputs.len() == capacity + 1 {
            assert(shorter =~= inputs.take(capacity as int));
        } else {
            assert(shorter.take(capacity as int) =~= inputs.take(capacity as int));
        }
    }
}

/// Once a prefix holds a finished grain, the first finished grain of the
/// whole list is that of the prefix.
pub proof fn lemma_first_finished_of_prefix(grains: Seq<GrainModel>, n: int)
    requires
        0 <= n <= grains.len(),
        first_finished(grains.take(n)) < n,
    ensures
        first_finished(grains) == first_finished(grains.take(n)),
    decreases grains.len() - n,
{
    if n < grains.len() {
        assert(grains.take(n + 1).drop_last() =~= grains.take(n));
        lemma_first_finished_of_prefix(grains, n + 1);
    } else {
        assert(grains.take(n) =~= grains);
    }
}

} // verus!
