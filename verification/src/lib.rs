//! A microphone-driven rhythm game's core: the streaming spectrum pipeline,
//! the device protocol and the note scorer.

use vstd::prelude::*;

pub mod channel;
pub mod game;
pub mod mic;
pub mod settings;
pub mod songs;
pub mod spectrum;
pub mod timeline;
pub mod window;

verus! {

/// Where the game is.
#[derive(Debug, Hash, Clone, Copy, PartialEq, Eq, Structural)]
pub enum GameState {
    /// Choosing a device and a song.
    Settings,
    SongLoading,
    SongPlaying,
    /// Looking at the result.
    PostSongInfo,
}

impl Default for GameState {
    fn default() -> (state: Self)
        ensures
            state == GameState::Settings,
    {
        GameState::Settings
    }
}

impl GameState {
    /// The state that follows: from the settings through loading and
    /// playing to the result, and from there back to the settings.
    pub open spec fn next_spec(self) -> GameState {
        match self {
            GameState::Settings => GameState::SongLoading,
            GameState::SongLoading => GameState::SongPlaying,
            GameState::SongPlaying => GameState::PostSongInfo,
            GameState::PostSongInfo => GameState::Settings,
        }
    }

    #[verifier::when_used_as_spec(next_spec)]
    pub fn next(self) -> (state: GameState)
        ensures
            state == self.next_spec(),
    {
        match self {
            GameState::Settings => GameState::SongLoading,
            GameState::SongLoading => GameState::SongPlaying,
            GameState::SongPlaying => GameState::PostSongInfo,
            GameState::PostSongInfo => GameState::Settings,
        }
    }
}

} // verus!
