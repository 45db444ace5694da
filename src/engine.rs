//! Run state of the engine.
use vstd::prelude::*;

verus! {

/// The engine: running or stopped.
pub struct Engine {
    running: bool,
}

impl View for Engine {
    /// Whether the engine is running.
    type V = bool;

    closed spec fn view(&self) -> bool {
        self.running
    }
}

impl Engine {
    /// A stopped engine.
    pub fn new() -> (r: Self)
        ensures
            !r@,
    {
        Self { running: false }
    }

    /// Starts the engine; always succeeds.
    pub fn start(&mut self) -> (r: bool)
        ensures
            r,
            final(self)@,
    {
        self.running = true;
        true
    }

    /// Stops the engine; always succeeds.
    pub fn stop(&mut self) -> (r: bool)
        ensures
            r,
            !final(self)@,
    {
        self.running = false;
        true
    }

    /// Whether the engine is running.
    pub fn is_running(&self) -> (r: bool)
        ensures
            r == self@,
    {
        self.running
    }

    /// Whether the engine is ready; it always is.
    pub fn is_ready(&self) -> (r: bool)
        ensures
            r,
    {
        true
    }
}

impl Default for Engine {
    fn default() -> (r: Self)
        ensures
            !r@,
    {
        Self::new()
    }
}

} // verus!
