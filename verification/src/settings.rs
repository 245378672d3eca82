//! Tuning of the input buffer.

use vstd::prelude::*;

verus! {

/// The capacity of the input buffer when nothing else is configured: 32 MiB.
pub const DEFAULT_BUFFER_CAPACITY: usize = 33_554_432;

/// How the input is buffered.
#[derive(Debug, Clone)]
pub struct BufferSettings {
    /// The size of the input buffer in bytes.
    pub capacity: usize,
}

/// The settings of a run.
#[derive(Debug, Clone)]
pub struct Settings {
    pub buffer: BufferSettings,
}

impl Settings {
    /// The size of the input buffer in bytes.
    pub fn buffer_capacity(&self) -> (r: usize)
        ensures
            r == self.buffer.capacity,
    {
        self.buffer.capacity
    }
}

impl Default for Settings {
    /// Settings with the default buffer of 32 MiB.
    fn default() -> (r: Settings)
        ensures
            r.buffer.capacity == DEFAULT_BUFFER_CAPACITY,
    {
        Settings { buffer: BufferSettings { capacity: DEFAULT_BUFFER_CAPACITY } }
    }
}

} // verus!
