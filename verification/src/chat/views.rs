//! The delivery counter shared by every room.

use vstd::prelude::*;

verus! {

/// Counts the messages handed to clients since the last reset.
pub struct ViewCounter {
    count: usize,
}

impl View for ViewCounter {
    type V = nat;

    closed spec fn view(&self) -> nat {
        self.count as nat
    }
}

impl ViewCounter {
    /// A counter at zero.
    pub fn new() -> (c: Self)
        ensures
            c@ == 0,
    {
        ViewCounter { count: 0 }
    }

    /// Adds one delivery. At the top of the range the counter wraps to zero,
    /// as an atomic add does.
    pub fn increment(&mut self)
        ensures
            final(self)@ == if old(self)@ == usize::MAX { 0 } else { old(self)@ + 1 },
    {
        self.count = self.count.wrapping_add(1);
    }

    /// The number of deliveries since the last reset.
    pub fn get(&self) -> (n: usize)
        ensures
            n == self@,
    {
        self.count
    }

    /// Sets the counter back to zero.
    pub fn reset(&mut self)
        ensures
            final(self)@ == 0,
    {
        self.count = 0;
    }
}

} // verus!
