use vstd::prelude::*;

verus! {

/// The top-level screen the run is currently on.
#[derive(Debug, PartialEq, Eq, Structural, Clone, Copy)]
pub enum GameState {
    Menu,
    RuneSelect,
    Playing,
    BattleResult,
    Shop,
    StatsMenu,
    Settings,
    GameOver,
    Exit,
}

/// The phase of the round state machine within the playing screen.
/// `Idle` accepts commits; `PlayingAnimation` and `ScoringSeq` pace the
/// per-card reveal of a committed play; `Scoring` is the tally step;
/// `Discarding` replaces the selected cards.
#[derive(Debug, PartialEq, Eq, Structural, Clone, Copy)]
pub enum AnimationState {
    Idle,
    Dealing,
    Playing,
    PlayingAnimation,
    ScoringSeq,
    Scoring,
    Discarding,
}

} // verus!
