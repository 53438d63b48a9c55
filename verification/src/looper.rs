//! A plain looper that steps a read position round a stretch of a buffer
//! which stands still while the loop plays.

use crate::delay_line::{is_default, DelayLine};
use vstd::arithmetic::div_mod::{lemma_mod_multiples_vanish, lemma_small_mod};
use vstd::prelude::*;

verus! {

/// `i` wrapped into the range from `min` to `max`, both included: the
/// number of that range that differs from `i` by a multiple of the range's
/// length.
pub open spec fn wrapped(i: int, min: int, max: int) -> int {
    min + (i - min) % (max - min + 1)
}

/// Wraps an index into the range from `min` to `max`, both included.
pub fn wrap(i: usize, min: usize, max: usize) -> (r: usize)
    requires
        min < max,
        max - min < usize::MAX,
        i < min ==> i % ((max - min + 1) as usize) + (max - min + 1) <= usize::MAX,
    ensures
        r == wrapped(i as int, min as int, max as int),
        min <= r <= max,
{
    if max == 0 {
        return 0;
    }
    let range: usize = max - min + 1;
    let ghost m: int = range as int;
    if i >= min {
        proof {
            assert(0 <= (i - min) % m < m) by (nonlinear_arith)
                requires
                    m > 0,
            ;
        }
        ((i - min) % range) + min
    } else {
        let offset: usize = min % range;
        let i_offset: usize = i % range;
        proof {
            let qi: int = (i as int) / m;
            let qm: int = (min as int) / m;
            assert(i == qi * m + i_offset && min == qm * m + offset && 0 <= i_offset < m && 0
                <= offset < m) by (nonlinear_arith)
                requires
                    m > 0,
                    qi == (i as int) / m,
                    qm == (min as int) / m,
                    i_offset == (i as int) % m,
                    offset == (min as int) % m,
            ;
            let shifted: int = i_offset + m - offset;
            assert(shifted == m * (qm - qi + 1) + (i - min)) by (nonlinear_arith)
                requires
                    i == qi * m + i_offset,
                    min == qm * m + offset,
                    shifted == i_offset + m - offset,
            ;
            lemma_mod_multiples_vanish(qm - qi + 1, i - min, m);
            assert(0 <= shifted % m < m) by (nonlinear_arith)
                requires
                    m > 0,
            ;
        }
        (((i_offset + range) - offset) % range) + min
    }
}

/// The mathematical state of a looper.
pub struct LooperModel<T> {
    /// The buffer by delay.
    pub line: Seq<T>,
    /// Whether the loop plays.
    pub is_looping: bool,
    /// The delay at which the loop starts; the larger of the two.
    pub loop_start: nat,
    /// The delay at which the loop ends.
    pub loop_end: nat,
    /// The start of the loop that fades.
    pub fade_loop_start: nat,
    /// The end of the loop that fades.
    pub fade_loop_end: nat,
    /// The delay that is read next.
    pub position: nat,
    /// The delay that the fading loop reads next.
    pub fading_position: nat,
    /// The length of the fade, in samples.
    pub fade_length: nat,
}

/// A looper over a buffer of 64 samples.
pub struct Looper<T: Copy + Default> {
    delay_line: DelayLine<T>,
    is_looping: bool,
    loop_start: usize,
    loop_end: usize,
    fade_loop_start: usize,
    fade_loop_end: usize,
    current_read_position: usize,
    fading_read_position: usize,
    fade_length_samples: usize,
}

impl<T: Copy + Default> View for Looper<T> {
    type V = LooperModel<T>;

    closed spec fn view(&self) -> LooperModel<T> {
        LooperModel {
            line: self.delay_line@,
            is_looping: self.is_looping,
            loop_start: self.loop_start as nat,
            loop_end: self.loop_end as nat,
            fade_loop_start: self.fade_loop_start as nat,
            fade_loop_end: self.fade_loop_end as nat,
            position: self.current_read_position as nat,
            fading_position: self.fading_read_position as nat,
            fade_length: self.fade_length_samples as nat,
        }
    }
}

impl<T: Copy + Default> Looper<T> {
    /// The representation invariant: the buffer is sound and not empty.
    pub closed spec fn wf(&self) -> bool {
        &&& self.delay_line.wf()
        &&& self@.line.len() > 0
    }

    /// A looper that does not loop, over 64 default samples.
    pub fn new() -> (looper: Looper<T>)
        ensures
            looper.wf(),
            looper@.line.len() == 64,
            forall|d: int| 0 <= d < 64 ==> is_default(#[trigger] looper@.line[d]),
            looper@ == (LooperModel {
                line: looper@.line,
                is_looping: false,
                loop_start: 10,
                loop_end: 0,
                fade_loop_start: 10,
                fade_loop_end: 0,
                position: 0,
                fading_position: 0,
                fade_length: 0,
            }),
    {
        let size: usize = 64;
        let del: DelayLine<T> = DelayLine::new(size);
        Looper {
            delay_line: del,
            is_looping: false,
            loop_start: 10,
            loop_end: 0,
            fade_loop_start: 10,
            fade_loop_end: 0,
            current_read_position: 0,
            fading_read_position: 0,
            fade_length_samples: 0,
        }
    }

    /// Sets the stretch that loops, as delays counted back from the most
    /// recent sample, so that `start` is the larger one, and starts the
    /// loop at `start`.
    pub fn set_looping_region(&mut self, start: usize, end: usize)
        requires
            old(self).wf(),
            start > end,
            start + old(self)@.fade_length <= usize::MAX,
        ensures
            final(self).wf(),
            final(self)@ == (LooperModel {
                is_looping: true,
                loop_start: start as nat,
                loop_end: end as nat,
                position: start as nat,
                fade_loop_end: end as nat + old(self)@.fade_length,
                fade_loop_start: start as nat + old(self)@.fade_length,
                ..old(self)@
            }),
    {
        self.is_looping = true;
        self.loop_start = start;
        self.loop_end = end;
        self.current_read_position = self.loop_start;
        self.fade_loop_end = self.loop_end + self.fade_length_samples;
        self.fade_loop_start = self.loop_start + self.fade_length_samples;
    }

    /// Sets the length of the fade, which is at most the length of the
    /// loop.
    pub fn set_fade_length(&mut self, length_samples: usize)
        requires
            old(self).wf(),
            old(self)@.loop_start <= old(self)@.loop_end,
            old(self)@.loop_end - old(self)@.loop_start < usize::MAX,
        ensures
            final(self).wf(),
            final(self)@ == (LooperModel {
                fade_length: if length_samples <= old(self)@.loop_end - old(self)@.loop_start
                    + 1 {
                    length_samples as nat
                } else {
                    (old(self)@.loop_end - old(self)@.loop_start + 1) as nat
                },
                ..old(self)@
            }),
    {
        let longest: usize = self.loop_length();
        self.fade_length_samples = if length_samples <= longest {
            length_samples
        } else {
            longest
        };
    }

    /// The number of delays from the loop's start up to its end, both
    /// included.
    pub fn loop_length(&self) -> (length: usize)
        requires
            self@.loop_start <= self@.loop_end,
            self@.loop_end - self@.loop_start < usize::MAX,
        ensures
            length == self@.loop_end - self@.loop_start + 1,
    {
        self.loop_end - self.loop_start + 1
    }

    /// Stops the loop.
    pub fn stop_looping(&mut self)
        requires
            old(self).wf(),
        ensures
            final(self).wf(),
            final(self)@ == (LooperModel { is_looping: false, ..old(self)@ }),
    {
        self.is_looping = false;
    }

    /// Writes `input` to the buffer, which must not be looping.
    pub fn tick_delay(&mut self, input: T)
        requires
            old(self).wf(),
            !old(self)@.is_looping,
        ensures
            final(self).wf(),
            final(self)@ == (LooperModel {
                line: crate::delay_line::pushed(old(self)@.line, input),
                ..old(self)@
            }),
    {
        self.delay_line.tick(input);
    }

    /// Whether a looping looper can take its next step: the read position
    /// lies within the buffer and can move on.
    pub open spec fn can_step(&self) -> bool {
        &&& self@.position < self@.line.len()
        &&& self@.position > 0
        &&& self@.loop_end < self@.loop_start
        &&& self@.loop_start - self@.loop_end < usize::MAX
        &&& self@.position - 1 < self@.loop_end ==> (self@.position - 1) % (self@.loop_start
            - self@.loop_end + 1) + (self@.loop_start - self@.loop_end + 1) <= usize::MAX
    }

    /// Returns the most recent sample while the looper does not loop. While
    /// it loops, returns the sample at the read position and moves the
    /// position on.
    pub fn tick_loop(&mut self) -> (out: T)
        requires
            old(self).wf(),
            old(self)@.is_looping ==> old(self).can_step(),
        ensures
            final(self).wf(),
            !old(self)@.is_looping ==> out == old(self)@.line[0] && final(self)@ == old(self)@,
            old(self)@.is_looping ==> out == old(self)@.line[old(self)@.position as int]
                && final(self)@ == (LooperModel {
                position: wrapped(
                    old(self)@.position - 1,
                    old(self)@.loop_end as int,
                    old(self)@.loop_start as int,
                ) as nat,
                ..old(self)@
            }),
    {
        if !self.is_looping {
            return self.delay_line.read(0);
        }
        let out: T = self.delay_line.read(self.current_read_position);
        self.tick_read_pos();
        out
    }

    /// Moves the read position one sample on, from the loop's end back to
    /// its start, and returns it.
    pub fn tick_read_pos(&mut self) -> (position: usize)
        requires
            old(self).wf(),
            old(self)@.position > 0,
            old(self)@.loop_end < old(self)@.loop_start,
            old(self)@.loop_start - old(self)@.loop_end < usize::MAX,
            old(self)@.position - 1 < old(self)@.loop_end ==> (old(self)@.position - 1) % (old(
                self,
            )@.loop_start - old(self)@.loop_end + 1) + (old(self)@.loop_start - old(
                self,
            )@.loop_end + 1) <= usize::MAX,
        ensures
            final(self).wf(),
            position == wrapped(
                old(self)@.position - 1,
                old(self)@.loop_end as int,
                old(self)@.loop_start as int,
            ),
            final(self)@ == (LooperModel { position: position as nat, ..old(self)@ }),
    {
        self.current_read_position = wrap(
            self.current_read_position - 1,
            self.loop_end,
            self.loop_start,
        );
        self.current_read_position
    }
}

} // verus!
