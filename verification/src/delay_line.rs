//! A fixed-capacity circular buffer that is read by delay.

use crate::fixed::{lemma_whole_and_fraction, UNIT};
use crate::stereo_pair::AudioSampleOps;
use vstd::prelude::*;

verus! {

/// The slot of `storage` that holds the sample written `delay` steps ago,
/// when the next write goes to `cursor`.
pub open spec fn slot_of(cursor: int, len: int, delay: int) -> int {
    if delay < cursor {
        cursor - 1 - delay
    } else {
        cursor - 1 - delay + len
    }
}

/// The contents of a circular buffer listed by delay: element 0 is the most
/// recent sample.
pub open spec fn history<T>(storage: Seq<T>, cursor: int) -> Seq<T> {
    Seq::new(storage.len(), |delay: int| storage[slot_of(cursor, storage.len() as int, delay)])
}

/// The slot that the next write goes to, after a write at `cursor` in a
/// buffer of `len` slots.
pub open spec fn next_cursor(cursor: nat, len: nat) -> nat {
    if cursor + 1 == len {
        0
    } else {
        cursor + 1
    }
}

/// The history after one more sample: the new sample comes first and the
/// oldest one is dropped.
pub open spec fn pushed<T>(past: Seq<T>, value: T) -> Seq<T> {
    Seq::new(
        past.len(),
        |delay: int|
            if delay == 0 {
                value
            } else {
                past[delay - 1]
            },
    )
}

/// The history after the samples of `values` were written in order.
pub open spec fn written<T>(past: Seq<T>, values: Seq<T>) -> Seq<T>
    decreases values.len(),
{
    if values.len() == 0 {
        past
    } else {
        pushed(written(past, values.drop_last()), values.last())
    }
}

/// Whether `sample` is what the type's `default()` returns.
pub open spec fn is_default<T: Default>(sample: T) -> bool {
    call_ensures(T::default, (), sample)
}

/// The whole part of a fractional position that is not negative.
pub open spec fn floor_index(position: int) -> int {
    position / (UNIT as int)
}

/// The fractional part of a position that is not negative.
pub open spec fn fraction(position: int) -> int {
    position % (UNIT as int)
}

/// The position rounded up to a whole index.
pub open spec fn ceil_index(position: int) -> int {
    if position % (UNIT as int) == 0 {
        position / (UNIT as int)
    } else {
        position / (UNIT as int) + 1
    }
}

/// The point at fraction `f` of the way from `a` to `b`.
pub open spec fn lerp_of<T: AudioSampleOps>(a: T, b: T, f: int) -> T {
    b.difference(a).scaled(f).sum(a)
}

/// A history read at a fractional delay, interpolating between the two
/// neighbouring samples.
pub open spec fn interpolated<T: AudioSampleOps>(past: Seq<T>, position: int) -> T {
    lerp_of(past[floor_index(position)], past[ceil_index(position)], fraction(position))
}

/// Linear interpolation from `a` to `b` by the fixed-point fraction `f`.
pub fn lerp<T: AudioSampleOps>(a: T, b: T, f: i64) -> (r: T)
    ensures
        r == lerp_of(a, b, f as int),
{
    b.minus(a).scale(f).plus(a)
}

/// A buffer of fixed capacity that keeps the most recent samples.
pub struct DelayLine<T: Copy + Default> {
    buffer: Vec<T>,
    write_index: usize,
}

impl<T: Copy + Default> View for DelayLine<T> {
    type V = Seq<T>;

    /// The samples by delay: element `d` was written `d` steps ago.
    open spec fn view(&self) -> Seq<T> {
        history(self.storage(), self.cursor() as int)
    }
}

impl<T: Copy + Default> DelayLine<T> {
    /// The slots in storage order.
    pub closed spec fn storage(&self) -> Seq<T> {
        self.buffer@
    }

    /// The slot that the next write goes to.
    pub closed spec fn cursor(&self) -> nat {
        self.write_index as nat
    }

    /// The representation invariant: the cursor points into the storage.
    pub open spec fn wf(&self) -> bool {
        self.cursor() < self.storage().len() || (self.storage().len() == 0 && self.cursor() == 0)
    }

    /// The capacity fits the machine's index type.
    pub proof fn lemma_len_in_range(&self)
        ensures
            self.storage().len() <= usize::MAX,
            self@.len() == self.storage().len(),
    {
        assert(self.buffer@.len() == self.buffer.len());
    }

    /// A buffer of `size` samples, each the type's default sample.
    pub fn new(size: usize) -> (r: DelayLine<T>)
        ensures
            r.wf(),
            r.cursor() == 0,
            r.storage().len() == size,
            r@.len() == size,
            forall|i: int| 0 <= i < size ==> is_default(#[trigger] r.storage()[i]),
            forall|d: int| 0 <= d < size ==> is_default(#[trigger] r@[d]),
            forall|i: int, j: int| 0 <= i < size && 0 <= j < size ==> r.storage()[i] == r.storage()[j],
    {
        DelayLine::filled(size, T::default())
    }

    /// A buffer of `size` samples, each `value`.
    pub fn filled(size: usize, value: T) -> (r: DelayLine<T>)
        ensures
            r.wf(),
            r.cursor() == 0,
            r.storage() =~= Seq::new(size as nat, |i: int| value),
            r@ =~= Seq::new(size as nat, |i: int| value),
    {
        let mut buffer: Vec<T> = Vec::new();
        let mut i: usize = 0;
        while i < size
            invariant
                i <= size,
                buffer@.len() == i,
                forall|j: int| 0 <= j < i ==> buffer@[j] == value,
            decreases size - i,
        {
            buffer.push(value);
            i = i + 1;
        }
        DelayLine { buffer, write_index: 0 }
    }

    /// Overwrites every slot with the type's default sample and rewinds
    /// the cursor: the buffer is as one that was just made.
    pub fn reset(&mut self)
        ensures
            final(self).wf(),
            final(self).cursor() == 0,
            final(self).storage().len() == old(self).storage().len(),
            final(self)@.len() == old(self)@.len(),
            forall|i: int|
                0 <= i < final(self).storage().len() ==> is_default(
                    #[trigger] final(self).storage()[i],
                ),
            forall|d: int| 0 <= d < final(self)@.len() ==> is_default(#[trigger] final(self)@[d]),
            forall|i: int, j: int|
                0 <= i < final(self).storage().len() && 0 <= j < final(self).storage().len()
                    ==> final(self).storage()[i] == final(self).storage()[j],
    {
        self.write_index = 0;
        let zero: T = T::default();
        let n: usize = self.buffer.len();
        let mut i: usize = 0;
        while i < n
            invariant
                i <= n,
                self.buffer@.len() == n,
                self.write_index == 0,
                is_default(zero),
                forall|j: int| 0 <= j < i ==> self.buffer@[j] == zero,
            decreases n - i,
        {
            self.buffer[i] = zero;
            i = i + 1;
        }
    }

    /// Writes `value` at the cursor and advances the cursor, wrapping at
    /// the end.
    pub fn tick(&mut self, value: T)
        requires
            old(self).wf(),
            old(self).storage().len() > 0,
        ensures
            final(self).wf(),
            final(self).storage() == old(self).storage().update(old(self).cursor() as int, value),
            final(self).cursor() == next_cursor(old(self).cursor(), old(self).storage().len()),
            final(self)@ =~= pushed(old(self)@, value),
    {
        let n: usize = self.buffer.len();
        self.buffer[self.write_index] = value;
        self.write_index = if self.write_index + 1 == n {
            0
        } else {
            self.write_index + 1
        };
    }

    /// The sample written `delay_samples` steps ago; 0 is the most recent.
    pub fn read(&self, delay_samples: usize) -> (value: T)
        requires
            self.wf(),
            delay_samples < self@.len(),
        ensures
            value == self@[delay_samples as int],
    {
        let read_index: usize = if delay_samples < self.write_index {
            self.write_index - 1 - delay_samples
        } else {
            self.buffer.len() - 1 - (delay_samples - self.write_index)
        };
        self.buffer[read_index]
    }

    /// The capacity.
    pub fn len(&self) -> (n: usize)
        ensures
            n == self.storage().len(),
            n == self@.len(),
    {
        self.buffer.len()
    }

    /// The slots in storage order.
    pub fn buffer(&self) -> (slots: &Vec<T>)
        ensures
            slots@ == self.storage(),
    {
        &self.buffer
    }
}

impl<T: AudioSampleOps> DelayLine<T> {
    /// The buffer read at a fractional delay, by linear interpolation
    /// between the samples at the delay rounded down and rounded up.
    pub fn read_interpolated(&self, delay_samples: i64) -> (value: T)
        requires
            self.wf(),
            delay_samples >= 0,
            ceil_index(delay_samples as int) < self@.len(),
        ensures
            value == interpolated(self@, delay_samples as int),
    {
        proof {
            self.lemma_len_in_range();
        }
        let whole: i64 = delay_samples / UNIT;
        let frac: i64 = delay_samples % UNIT;
        self.read_at(whole as usize, frac)
    }

    /// The buffer read at the delay of `whole` samples and the fraction
    /// `frac` of one more.
    pub fn read_at(&self, whole: usize, frac: i64) -> (value: T)
        requires
            self.wf(),
            0 <= frac < UNIT,
            ceil_index(whole * UNIT + frac) < self@.len(),
        ensures
            value == interpolated(self@, whole * UNIT + frac),
    {
        proof {
            self.lemma_len_in_range();
            lemma_whole_and_fraction(whole as int, frac as int);
        }
        let next: usize = if frac == 0 {
            whole
        } else {
            whole + 1
        };
        let v0: T = self.read(whole);
        let v1: T = self.read(next);
        lerp(v0, v1, frac)
    }
}

/// Fills the whole buffer with `value`.
pub fn fill_delay_constant<T: Copy + Default>(delay_line: &mut DelayLine<T>, value: T)
    requires
        old(delay_line).wf(),
    ensures
        final(delay_line).wf(),
        final(delay_line).cursor() == old(delay_line).cursor(),
        final(delay_line).storage() =~= Seq::new(old(delay_line).storage().len(), |i: int| value),
        final(delay_line)@ =~= Seq::new(old(delay_line)@.len(), |i: int| value),
{
    let n: usize = delay_line.len();
    let mut i: usize = 0;
    while i < n
        invariant
            i <= n,
            delay_line.wf(),
            delay_line@.len() == n,
            delay_line.storage().len() == n,
            forall|d: int| 0 <= d < i ==> delay_line@[d] == value,
            n > 0 ==> old(delay_line).cursor() < n,
            n > 0 ==> delay_line.cursor() == if old(delay_line).cursor() + i < n {
                old(delay_line).cursor() + i
            } else {
                old(delay_line).cursor() + i - n
            },
        decreases n - i,
    {
        delay_line.tick(value);
        i = i + 1;
    }
    proof {
        if n > 0 {
            assert forall|s: int| 0 <= s < n implies delay_line.storage()[s] == value by {
                let c: int = delay_line.cursor() as int;
                let d: int = if s < c {
                    c - 1 - s
                } else {
                    c - 1 - s + n
                };
                assert(slot_of(c, n as int, d) == s);
                assert(delay_line@[d] == value);
            }
        }
    }
}

/// After any run of writes, a read at a delay within the capacity returns
/// the sample written that many steps ago; delays that reach back beyond
/// the run return what the buffer held before.
pub proof fn law_read_returns_written<T>(past: Seq<T>, values: Seq<T>, delay: int)
    requires
        0 <= delay < past.len(),
    ensures
        written(past, values).len() == past.len(),
        delay < values.len() ==> written(past, values)[delay] == values[values.len() - 1 - delay],
        delay >= values.len() ==> written(past, values)[delay] == past[delay - values.len()],
    decreases values.len(),
{
    if values.len() > 0 {
        law_read_returns_written(past, values.drop_last(), delay);
        if delay > 0 {
            law_read_returns_written(past, values.drop_last(), delay - 1);
        }
    }
}

} // verus!
