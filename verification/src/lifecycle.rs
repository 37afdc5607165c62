//! The stages before a game: the main menu and the tutorial.

use vstd::prelude::*;
use crate::border::GameLifecycleState;
use crate::dialogue::Dialogue;

verus! {

/// The lines of the tutorial and the one that is being shown.
pub struct TutorialDialogue {
    pub dialogue: Vec<String>,
    pub index: usize,
}

/// The stage that the main menu leads to: the game if its key is held,
/// else the tutorial if its key is held, else none.
pub open spec fn menu_choice(tutorial: bool, game: bool) -> Option<GameLifecycleState> {
    if game {
        Some(GameLifecycleState::Game)
    } else if tutorial {
        Some(GameLifecycleState::Tutorial)
    } else {
        None
    }
}

/// Applies the keys of the main menu to the stage of the game.
pub fn handle_menu_inputs(tutorial: bool, game: bool, state: &mut GameLifecycleState)
    ensures
        *final(state) == match menu_choice(tutorial, game) {
            Some(chosen) => chosen,
            None => *old(state),
        },
{
    if tutorial {
        *state = GameLifecycleState::Tutorial;
    }
    if game {
        *state = GameLifecycleState::Game;
    }
}

/// One tick of the tutorial. Where the key that advances the dialogue has
/// just been released the tutorial moves on to its next line, and past its
/// last line the game begins, the dialogue box being left as it is. In every
/// other case the dialogue box shows the line that the tutorial is at.
pub fn handle_inputs_tutorial(
    advance: bool,
    dialogue: &mut Dialogue,
    tutorial_words: &mut TutorialDialogue,
    state: &mut GameLifecycleState,
)
    requires
        old(tutorial_words).index < old(tutorial_words).dialogue.len(),
    ensures
        final(tutorial_words).dialogue == old(tutorial_words).dialogue,
        final(tutorial_words).index == if advance {
            old(tutorial_words).index + 1
        } else {
            old(tutorial_words).index as int
        },
        final(tutorial_words).index >= old(tutorial_words).dialogue.len() ==> {
            &&& *final(state) == GameLifecycleState::Game
            &&& final(dialogue).visible == old(dialogue).visible
            &&& final(dialogue).contents == old(dialogue).contents
        },
        final(tutorial_words).index < old(tutorial_words).dialogue.len() ==> {
            &&& *final(state) == *old(state)
            &&& final(dialogue).visible
            &&& final(dialogue).contents@
                == old(tutorial_words).dialogue[final(tutorial_words).index as int]@
        },
{
    if advance {
        tutorial_words.index = tutorial_words.index + 1;
        if tutorial_words.index >= tutorial_words.dialogue.len() {
            *state = GameLifecycleState::Game;
            return ;
        }
    }
    dialogue.show();
    dialogue.set_text(tutorial_words.dialogue[tutorial_words.index].clone());
}

} // verus!
