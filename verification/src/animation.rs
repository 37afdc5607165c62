//! Timed sequences of stages, as the shield indicator and the explosion use
//! them: a repeating timer advances a stage counter, and the sequence ends
//! when the timer fires on the last stage.

use vstd::prelude::*;
use crate::timer::Timer;

verus! {

/// A sequence after `delta` nanoseconds: its timer and stage, or `None` if it
/// has ended. The timer always advances. Where it completes a round, a
/// sequence short of `last_stage` moves on by one stage, and a sequence at
/// `last_stage` or beyond ends.
pub open spec fn stepped(timer: Timer, index: usize, delta: u64, last_stage: usize) -> Option<
    (Timer, usize),
> {
    let timer = timer.ticked(delta);
    if !timer.just_finished_spec() {
        Some((timer, index))
    } else if index < last_stage {
        Some((timer, (index + 1) as usize))
    } else {
        None
    }
}

/// Advances a sequence by `delta` nanoseconds and says whether it goes on.
pub fn step(timer: &mut Timer, index: &mut usize, delta: u64, last_stage: usize) -> (alive: bool)
    ensures
        *final(timer) == old(timer).ticked(delta),
        match stepped(*old(timer), *old(index), delta, last_stage) {
            Some(next) => alive && next == (*final(timer), *final(index)),
            None => !alive && *final(index) == *old(index),
        },
{
    timer.tick(delta);
    if !timer.just_finished() {
        true
    } else if *index < last_stage {
        *index = *index + 1;
        true
    } else {
        false
    }
}

/// A sequence that goes on never skips a stage and never goes back.
pub proof fn lemma_stages_come_in_order(timer: Timer, index: usize, delta: u64, last_stage: usize)
    ensures
        stepped(timer, index, delta, last_stage) matches Some(next) ==> next.1 == index || (next.1
            == index + 1 && next.1 <= last_stage),
{
}

} // verus!
