//! The data directories that are remembered between sessions.

use vstd::prelude::*;
use crate::game::Game;

verus! {

/// The data directory of each game, as far as it has been found or chosen.
#[derive(Debug)]
pub struct Paths {
    pub zzz: Option<String>,
    pub hsr: Option<String>,
    pub gi: Option<String>,
}

impl Paths {
    /// The directory that is remembered for `game`.
    pub open spec fn of(self, game: Game) -> Option<String> {
        match game {
            Game::Hsr => self.hsr,
            Game::Gi => self.gi,
            Game::Zzz => self.zzz,
        }
    }

    /// No directory is remembered.
    pub fn new() -> (paths: Paths)
        ensures
            forall|game: Game| paths.of(game) is None,
    {
        Paths { zzz: None, hsr: None, gi: None }
    }

    /// The directory that is remembered for `game`.
    pub fn get(&self, game: Game) -> (path: Option<&String>)
        ensures
            path.is_some() == self.of(game).is_some(),
            path matches Some(p) ==> Some(*p) == self.of(game),
    {
        match game {
            Game::Hsr => self.hsr.as_ref(),
            Game::Gi => self.gi.as_ref(),
            Game::Zzz => self.zzz.as_ref(),
        }
    }

    /// Remembers `path` for `game`. What is remembered for the other games
    /// stays.
    pub fn set(&mut self, game: Game, path: String)
        ensures
            final(self).of(game) == Some(path),
            forall|other: Game| other != game ==> final(self).of(other) == old(self).of(other),
    {
        match game {
            Game::Hsr => self.hsr = Some(path),
            Game::Gi => self.gi = Some(path),
            Game::Zzz => self.zzz = Some(path),
        }
    }
}

impl Default for Paths {
    fn default() -> (paths: Paths)
        ensures
            forall|game: Game| paths.of(game) is None,
    {
        Paths::new()
    }
}

} // verus!
