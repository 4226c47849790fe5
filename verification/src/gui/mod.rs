use std::sync::atomic::AtomicBool;
use std::sync::atomic::Ordering;
use vstd::prelude::*;

verus! {

/// A flag that one thread raises and another thread consumes, used to ask
/// the render loop to reload its GPU resources.
///
/// The flag is a `std::sync::atomic::AtomicBool`, which other threads may
/// change at any moment; the contracts below therefore claim nothing of the
/// value that a call observes.
pub struct DirtyBit(AtomicBool);

impl DirtyBit {
    /// A lowered flag.
    pub fn new() -> Self {
        DirtyBit(AtomicBool::new(false))
    }

    /// Lowers the flag and tells whether it was raised.
    pub fn take(&self) -> bool {
        self.0.swap(false, Ordering::Relaxed)
    }

    /// Raises the flag.
    pub fn set(&self) {
        self.0.store(true, Ordering::Relaxed);
    }
}

} // verus!
