//! The two state machines governing a session, and the score counter.

use vstd::prelude::*;

verus! {

/// Top-level game flow. `Menu` is the initial state; an activating input in
/// `Menu` starts a session, the bird falling below the death threshold ends
/// it, and an activating input in `GameOver` returns to `Menu`.
#[derive(Clone, Copy, Debug, PartialEq, Eq, Structural)]
pub enum GameState {
    Menu,
    Playing,
    GameOver,
}

/// In-session sub-state. `Normal` on entering `Playing`; the first frame a
/// collision is detected it becomes `HitPipe` and never reverts within the
/// session. While `HitPipe`, gameplay-progression systems are suspended but
/// the bird keeps falling until it crosses the death threshold.
#[derive(Clone, Copy, Debug, PartialEq, Eq, Structural)]
pub enum PlayState {
    Normal,
    HitPipe,
}

/// Number of pipe pairs the bird has passed in the current session.
/// Non-decreasing within a session; reset to zero when the session ends.
#[derive(Clone, Copy, Debug, PartialEq, Eq, Structural)]
pub struct Score(pub usize);

/// Resets the score to zero, as happens when a session ends.
pub fn reset_score(score: &mut Score)
    ensures
        final(score).0 == 0,
{
    score.0 = 0;
}

} // verus!
