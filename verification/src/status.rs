use vstd::prelude::*;

verus! {

/// The phase the game is in. It governs which intents are honoured and
/// whether a tick advances the simulation.
#[derive(Clone, Copy, PartialEq, Eq, Structural, Debug)]
pub enum GameStatus {
    Ready,
    Running,
    Paused,
    GameOver,
}

} // verus!
