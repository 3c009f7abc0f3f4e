use vstd::prelude::*;

verus! {

/// A container that hands out copies of its value and is changed only by
/// replacing the whole value.
pub struct Cell<T> {
    val: T,
}

impl<T> View for Cell<T> {
    type V = T;

    closed spec fn view(&self) -> T {
        self.val
    }
}

impl<T> Cell<T> {
    /// Stores `val`.
    pub fn new(val: T) -> (r: Self)
        ensures
            r@ == val,
    {
        Cell { val }
    }

    /// Replaces the value held.
    pub fn set(&mut self, val: T)
        ensures
            final(self)@ == val,
    {
        self.val = val;
    }

    /// A copy of the value held.
    pub fn get(&self) -> (r: T) where T: Copy
        ensures
            r == self@,
    {
        self.val
    }
}

} // verus!
