//! Player profiles, kept apart from the per-tick simulation.
use vstd::prelude::*;
use vstd::string::StringExecFns;

verus! {

/// The identity of a player.
#[derive(Debug, Clone)]
pub struct PlayerProfile {
    pub player_id: String,
    pub username: String,
}

/// The store could not be reached.
#[derive(Clone, Copy, Debug, PartialEq, Eq, Structural)]
pub enum StoreError {
    Unavailable,
}

/// A profile store with no backing database: saving keeps nothing, and loading gives
/// the fresh profile of the player.
pub struct PlayerDataStore {}

impl PlayerDataStore {
    pub fn new() -> (r: PlayerDataStore) {
        PlayerDataStore {  }
    }

    /// Accepts a profile; this store keeps none.
    pub fn save_profile(&self, profile: &PlayerProfile) -> (r: Result<(), StoreError>)
        ensures
            r is Ok,
    {
        Ok(())
    }

    /// The profile of `player_id`: a fresh one, with the username "Player".
    pub fn load_profile(&self, player_id: &str) -> (r: Result<PlayerProfile, StoreError>)
        ensures
            r matches Ok(p) && p.player_id@ == player_id@ && p.username@ == "Player"@,
    {
        Ok(
            PlayerProfile {
                player_id: <String as StringExecFns>::from_str(player_id),
                username: <String as StringExecFns>::from_str("Player"),
            },
        )
    }
}

impl Default for PlayerDataStore {
    fn default() -> (r: PlayerDataStore) {
        PlayerDataStore::new()
    }
}

} // verus!
