//! The player's score and the survival clock.

use vstd::prelude::*;
use crate::timer::{Stopwatch, Timer, TimerMode, NANOS_PER_SEC};

verus! {

/// Points awarded for each full score interval survived.
pub const SURVIVAL_POINTS: u32 = 5;

/// The length of a score interval, in nanoseconds.
pub const SCORE_INTERVAL: u64 = 10 * NANOS_PER_SEC;

/// The cumulative score, the timer of the periodic award, and the time
/// survived since the game began.
#[derive(Clone, Copy, PartialEq, Eq, Structural, Debug)]
pub struct PlayerScore {
    pub score: u32,
    pub add_score_timer: Timer,
    pub survived_time: Stopwatch,
}

impl PlayerScore {
    /// The score when a game begins.
    pub open spec fn initial() -> PlayerScore {
        PlayerScore {
            score: 0,
            add_score_timer: Timer::fresh(SCORE_INTERVAL, TimerMode::Repeating),
            survived_time: Stopwatch { elapsed: 0 },
        }
    }

    /// The score after `delta` nanoseconds of play: both clocks advance, and
    /// where the award timer completes an interval the award is made once and
    /// the timer starts over from zero.
    pub open spec fn after(self, delta: u64) -> PlayerScore {
        let timer = self.add_score_timer.ticked(delta);
        PlayerScore {
            score: if timer.just_finished_spec() {
                (self.score + SURVIVAL_POINTS) as u32
            } else {
                self.score
            },
            add_score_timer: if timer.just_finished_spec() {
                timer.rewound()
            } else {
                timer
            },
            survived_time: Stopwatch { elapsed: (self.survived_time.elapsed + delta) as u64 },
        }
    }

    /// Creates the score of a game that begins.
    pub fn new() -> (score: PlayerScore)
        ensures
            score == PlayerScore::initial(),
    {
        PlayerScore {
            score: 0,
            add_score_timer: Timer::new(SCORE_INTERVAL, TimerMode::Repeating),
            survived_time: Stopwatch::new(),
        }
    }
}

/// Advances the score clocks by `delta` nanoseconds and makes the periodic
/// award when it falls due.
pub fn update_score(delta: u64, score: &mut PlayerScore)
    requires
        old(score).survived_time.elapsed + delta <= u64::MAX,
        old(score).score + SURVIVAL_POINTS <= u32::MAX,
    ensures
        *final(score) == old(score).after(delta),
{
    score.add_score_timer.tick(delta);
    score.survived_time.tick(delta);
    if score.add_score_timer.just_finished() {
        score.score = score.score + SURVIVAL_POINTS;
        score.add_score_timer.reset();
    }
}

/// The score never goes down as time passes, and grows by at most one award
/// per update.
pub proof fn lemma_score_grows_with_time(score: PlayerScore, delta: u64)
    requires
        score.score + SURVIVAL_POINTS <= u32::MAX,
    ensures
        score.score <= score.after(delta).score <= score.score + SURVIVAL_POINTS,
{
}

} // verus!
