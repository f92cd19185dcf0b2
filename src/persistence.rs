//! Long-lived player records: progression and match statistics.
use vstd::prelude::*;
use vstd::string::StringExecFns;

verus! {

#[derive(Debug, Clone, Copy, Default, PartialEq, Eq, Structural)]
pub struct PlayerStats {
    pub matches_played: u32,
    pub wins: u32,
    pub losses: u32,
    pub kills: u32,
    pub deaths: u32,
}

#[derive(Debug, Clone)]
pub struct PlayerProfile {
    pub player_id: String,
    pub username: String,
    pub level: u32,
    pub experience: u64,
    pub stats: PlayerStats,
}

/// The store could not be reached.
#[derive(Clone, Copy, Debug, PartialEq, Eq, Structural)]
pub enum PersistenceError {
    Unavailable,
}

/// Profile storage and the matchmaking queue, with no database behind them yet: saving
/// and queueing keep nothing, and loading gives the player's fresh profile.
pub struct PersistenceLayer {}

/// Whether `p` is the fresh profile of `player_id`: named "Player", at level 1, with no
/// experience and no recorded matches.
pub open spec fn is_fresh_profile(p: PlayerProfile, player_id: Seq<char>) -> bool {
    &&& p.player_id@ == player_id
    &&& p.username@ == "Player"@
    &&& p.level == 1
    &&& p.experience == 0
    &&& p.stats == (PlayerStats { matches_played: 0, wins: 0, losses: 0, kills: 0, deaths: 0 })
}

impl PersistenceLayer {
    pub fn new() -> (r: PersistenceLayer) {
        PersistenceLayer {  }
    }

    /// Accepts a profile; nothing is kept.
    pub fn save_player_profile(&self, profile: &PlayerProfile) -> (r: Result<(), PersistenceError>)
        ensures
            r is Ok,
    {
        Ok(())
    }

    /// The profile of `player_id`: a fresh one.
    pub fn load_player_profile(&self, player_id: &str) -> (r: Result<PlayerProfile, PersistenceError>)
        ensures
            r matches Ok(p) && is_fresh_profile(p, player_id@),
    {
        Ok(
            PlayerProfile {
                player_id: <String as StringExecFns>::from_str(player_id),
                username: <String as StringExecFns>::from_str("Player"),
                level: 1,
                experience: 0,
                stats: PlayerStats { matches_played: 0, wins: 0, losses: 0, kills: 0, deaths: 0 },
            },
        )
    }

    /// Puts a player in the matchmaking queue; nothing is kept.
    pub fn enqueue_matchmaking(&self, player_id: &str) -> (r: Result<(), PersistenceError>)
        ensures
            r is Ok,
    {
        Ok(())
    }
}

impl Default for PersistenceLayer {
    fn default() -> (r: PersistenceLayer) {
        PersistenceLayer::new()
    }
}

} // verus!
