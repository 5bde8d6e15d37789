//! The value slot: a last-write-wins holder of the latest reading of one
//! sensor, written by that sensor's task and read by the packet assembler.
use vstd::prelude::*;

verus! {

/// What a slot holds after `set(v)`, whatever it held before: the new value,
/// with no trace of the old one.
pub open spec fn stored_after<T>(prev: Option<T>, v: T) -> Option<T> {
    Some(v)
}

/// Holds the latest reading of one sensor, or nothing before the first one.
/// No history is kept and nothing queues: a write replaces the reading that
/// a reader may never have seen. A slot shared between tasks is reached
/// through a lock, so that a read never sees half of a write.
pub struct ValueSlot<T> {
    value: Option<T>,
}

impl<T> View for ValueSlot<T> {
    type V = Option<T>;

    closed spec fn view(&self) -> Option<T> {
        self.value
    }
}

impl<T: Copy> ValueSlot<T> {
    /// An empty slot.
    pub fn new() -> (r: ValueSlot<T>)
        ensures
            r@ == None::<T>,
    {
        ValueSlot { value: None }
    }

    /// Overwrite the slot with `v`.
    pub fn set(&mut self, v: T)
        ensures
            final(self)@ == stored_after(old(self)@, v),
    {
        self.value = Some(v);
    }

    /// A copy of what the slot holds now.
    pub fn get(&self) -> (r: Option<T>)
        ensures
            r == self@,
    {
        self.value
    }
}

/// Coalescing: after `set(a)` and then `set(b)`, with no read between, the
/// slot holds `b`, and nothing of `a`, whatever it held before.
pub proof fn coalescing<T>(start: Option<T>, a: T, b: T)
    ensures
        stored_after(stored_after(start, a), b) == Some(b),
{
}

} // verus!
