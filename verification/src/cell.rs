use vstd::prelude::*;

verus! {

/// A cell that owns exactly one value and exposes it only as a whole: the
/// value can be replaced or (for freely copyable contents) read out, but a
/// reference to the interior is never given out.
///
/// The cell is meant for single-threaded bookkeeping fields; it performs no
/// synchronization of any kind and must not be shared across threads.
/// Exclusive access is threaded through `&mut self`, so the verifier rules
/// out overlapping mutation statically.
pub struct Cell<T> {
    value: T,
}

impl<T> View for Cell<T> {
    type V = T;

    closed spec fn view(&self) -> T {
        self.value
    }
}

impl<T> Cell<T> {
    /// Wraps `value` in a fresh cell.
    pub fn new(value: T) -> (c: Cell<T>)
        ensures
            c@ == value,
    {
        Cell { value }
    }

    /// Replaces the owned value; the previous value is dropped.
    pub fn set(&mut self, value: T)
        ensures
            final(self)@ == value,
    {
        self.value = value;
    }

    /// Reads the current value by copy.
    pub fn get(&self) -> (r: T) where T: Copy
        ensures
            r == self@,
    {
        self.value
    }

    /// Replaces the owned value and hands the previous value back by move,
    /// for contents that cannot be copied.
    pub fn replace(&mut self, value: T) -> (r: T)
        ensures
            final(self)@ == value,
            r == old(self)@,
    {
        let mut taken = value;
        core::mem::swap(&mut self.value, &mut taken);
        taken
    }
}

} // verus!
