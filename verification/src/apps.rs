//! The states the watch's user interface can be in, and what an app update
//! asks for.
use vstd::prelude::*;

verus! {

/// Result of an app update
#[derive(Debug, Clone, Copy, PartialEq, Eq)]
pub enum AppResult {
    Continue,
    /// Return to launcher/watchface
    Exit,
}

/// All available app states
#[derive(Clone, Copy, PartialEq, Debug)]
pub enum AppState {
    Watchface,
    Launcher,
    Snake,
    Game2048,
    Tetris,
    Flappy,
    Maze,
    Mp3Player,
    SmartHome,
    Settings,
}

} // verus!
