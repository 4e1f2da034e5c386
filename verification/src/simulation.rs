//! What the user can step forward (and back, through saved states).
use vstd::prelude::*;

verus! {

/// Something the user can step forward (and backward, e.g. in the web UI).
pub trait Simulation {
    fn step(&mut self);

    /// `count` steps (useful when called through a trait object).
    fn steps(&mut self, count: usize) {
        let mut i: usize = 0;
        while i < count
            decreases count - i,
        {
            self.step();
            i = i + 1;
        }
    }

    /// Save the simulation's state. Does not need to include the simulation's
    /// parameters, only enough information to undo a `.step()`.
    fn save_state(&self) -> Vec<u8>;

    fn load_state(&mut self, data: &[u8]);
}

} // verus!
