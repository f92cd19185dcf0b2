//! The server's game state: the authoritative tick counter.
use vstd::prelude::*;

verus! {

#[derive(Debug)]
pub struct GameState {
    pub tick: u64,
}

impl GameState {
    /// A state at tick 0.
    pub fn new() -> (r: GameState)
        ensures
            r.tick == 0,
    {
        GameState { tick: 0 }
    }

    /// Advances the tick by one.
    pub fn update(&mut self)
        requires
            old(self).tick < u64::MAX,
        ensures
            final(self).tick == old(self).tick + 1,
    {
        self.tick = self.tick + 1;
    }

    pub fn get_tick(&self) -> (r: u64)
        ensures
            r == self.tick,
    {
        self.tick
    }
}

impl Default for GameState {
    fn default() -> (r: GameState)
        ensures
            r.tick == 0,
    {
        GameState::new()
    }
}

} // verus!
