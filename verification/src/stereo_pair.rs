//! What a sample must offer to pass through the engine, the fixed-point
//! sample, and the stereo sample built from two samples.

use crate::delay_line::is_default;
use crate::fixed::{clamp, mul_div, saturating_difference, saturating_sum, scaled_ratio, UNIT};
use vstd::prelude::*;

verus! {

/// The arithmetic that the engine needs of a sample: silence, sum,
/// difference and scaling by a fixed-point factor.
///
/// Each operation is a function of its operands alone. The engine's
/// contracts state its output in terms of the spec functions; what they
/// compute is the implementing type's own matter.
pub trait AudioSampleOps: Copy + Default {
    /// The silent sample.
    spec fn silent() -> Self;

    /// The sum of two samples.
    spec fn sum(self, other: Self) -> Self;

    /// The sample minus `other`.
    spec fn difference(self, other: Self) -> Self;

    /// The sample scaled by a fixed-point `factor`.
    spec fn scaled(self, factor: int) -> Self;

    /// The silent sample.
    fn silence() -> (r: Self)
        ensures
            r == Self::silent(),
    ;

    /// Adds `other` to the sample.
    fn plus(self, other: Self) -> (r: Self)
        ensures
            r == self.sum(other),
    ;

    /// Subtracts `other` from the sample.
    fn minus(self, other: Self) -> (r: Self)
        ensures
            r == self.difference(other),
    ;

    /// Scales the sample by a fixed-point `factor`.
    fn scale(self, factor: i64) -> (r: Self)
        ensures
            r == self.scaled(factor as int),
    ;
}

/// A sample in fixed point, where `UNIT` is full scale. Sums and
/// differences are held at the ends of the `i64` range, and a scaled
/// sample is rounded toward zero.
impl AudioSampleOps for i64 {
    open spec fn silent() -> i64 {
        0
    }

    open spec fn sum(self, other: i64) -> i64 {
        clamp(self + other) as i64
    }

    open spec fn difference(self, other: i64) -> i64 {
        clamp(self - other) as i64
    }

    open spec fn scaled(self, factor: int) -> i64 {
        scaled_ratio(self as int, factor, UNIT as int) as i64
    }

    fn silence() -> (r: i64) {
        0
    }

    fn plus(self, other: i64) -> (r: i64) {
        saturating_sum(self, other)
    }

    fn minus(self, other: i64) -> (r: i64) {
        saturating_difference(self, other)
    }

    fn scale(self, factor: i64) -> (r: i64) {
        mul_div(self, factor, UNIT)
    }
}

/// A left and a right sample that are processed as one.
#[derive(Debug, Clone, Copy, PartialEq)]
pub struct StereoPair<T: AudioSampleOps> {
    pub left: T,
    pub right: T,
}

impl<T: AudioSampleOps> Default for StereoPair<T> {
    /// The pair of two default samples.
    fn default() -> (r: StereoPair<T>)
        ensures
            is_default(r.left),
            is_default(r.right),
    {
        StereoPair { left: T::default(), right: T::default() }
    }
}

impl<T: AudioSampleOps> StereoPair<T> {
    /// The pair of `left` and `right`.
    pub fn new(left: T, right: T) -> (r: StereoPair<T>)
        ensures
            r.left == left,
            r.right == right,
    {
        StereoPair { left, right }
    }

    /// The left sample.
    pub fn left(&self) -> (r: T)
        ensures
            r == self.left,
    {
        self.left
    }

    /// The right sample.
    pub fn right(&self) -> (r: T)
        ensures
            r == self.right,
    {
        self.right
    }
}

impl<T: AudioSampleOps> AudioSampleOps for StereoPair<T> {
    open spec fn silent() -> Self {
        StereoPair { left: T::silent(), right: T::silent() }
    }

    open spec fn sum(self, other: Self) -> Self {
        StereoPair { left: self.left.sum(other.left), right: self.right.sum(other.right) }
    }

    open spec fn difference(self, other: Self) -> Self {
        StereoPair {
            left: self.left.difference(other.left),
            right: self.right.difference(other.right),
        }
    }

    open spec fn scaled(self, factor: int) -> Self {
        StereoPair { left: self.left.scaled(factor), right: self.right.scaled(factor) }
    }

    fn silence() -> (r: Self) {
        StereoPair { left: T::silence(), right: T::silence() }
    }

    fn plus(self, other: Self) -> (r: Self) {
        StereoPair { left: self.left.plus(other.left), right: self.right.plus(other.right) }
    }

    fn minus(self, other: Self) -> (r: Self) {
        StereoPair { left: self.left.minus(other.left), right: self.right.minus(other.right) }
    }

    fn scale(self, factor: i64) -> (r: Self) {
        StereoPair { left: self.left.scale(factor), right: self.right.scale(factor) }
    }
}

} // verus!
