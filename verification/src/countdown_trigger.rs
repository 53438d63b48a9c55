//! A counter that fires once it has counted down to zero.

use vstd::prelude::*;

verus! {

/// A countdown: each step takes one off the count, and a step at zero
/// fires instead.
pub struct CountdownTrigger {
    count: i32,
}

impl View for CountdownTrigger {
    type V = int;

    /// The steps left before the trigger fires.
    closed spec fn view(&self) -> int {
        self.count as int
    }
}

impl CountdownTrigger {
    /// A trigger that fires on step `count + 1`.
    pub fn new(count: i32) -> (trigger: CountdownTrigger)
        ensures
            trigger@ == count,
    {
        CountdownTrigger { count }
    }

    /// Starts the countdown again from `count`.
    pub fn reset(&mut self, count: i32)
        ensures
            final(self)@ == count,
    {
        self.count = count;
    }

    /// Takes one step: fires where the count is zero, and otherwise takes
    /// one off the count.
    pub fn tick(&mut self) -> (fired: Option<()>)
        requires
            old(self)@ > i32::MIN,
        ensures
            old(self)@ == 0 ==> fired == Some(()) && final(self)@ == 0,
            old(self)@ != 0 ==> fired.is_none() && final(self)@ == old(self)@ - 1,
    {
        if self.count == 0 {
            return Some(());
        } else {
            self.count = self.count - 1;
        }
        None
    }
}

} // verus!
