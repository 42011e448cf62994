//! Decisions of the title screen.
//!
//! The title view maps clicks to a [`TitleAction`]; the host loop asks
//! [`decide_title_action`] what to do with one, performs the outside work
//! (window mode changes, saving, confirmation dialogs), and loops or
//! leaves as told.

use vstd::prelude::*;

verus! {

/// What the title view asks for.
#[derive(Clone, Copy, Debug, PartialEq, Eq, Structural)]
pub enum TitleAction {
    /// Switch the window in or out of fullscreen mode.
    SetFullscreen(bool),
    /// Start (or continue) the game.
    StartGame,
    /// Erase the saved game, after confirmation.
    EraseGame,
    /// Leave the program.
    Quit,
}

/// What the host loop must do with a title action.
#[derive(Clone, Copy, Debug, PartialEq, Eq, Structural)]
pub enum TitleDecision {
    /// Apply the window mode, save the preference, and keep looping.
    ApplyFullscreen(bool),
    /// Enter the saved game where it left off.
    ContinueGame,
    /// Create a new game, save it, and enter it.
    BeginNewGame,
    /// Ask for confirmation, then erase if confirmed, and keep looping.
    ConfirmErase,
    /// Leave the title screen and the program.
    Leave,
}

/// Decides what one title action means, given whether a saved game
/// exists: starting with a saved game continues it, without one begins a
/// new one; erasing never proceeds without confirmation.
pub fn decide_title_action(action: &TitleAction, has_game: bool) -> (d: TitleDecision)
    ensures
        d == match *action {
            TitleAction::SetFullscreen(full) => TitleDecision::ApplyFullscreen(full),
            TitleAction::StartGame => if has_game {
                TitleDecision::ContinueGame
            } else {
                TitleDecision::BeginNewGame
            },
            TitleAction::EraseGame => TitleDecision::ConfirmErase,
            TitleAction::Quit => TitleDecision::Leave,
        },
{
    match action {
        TitleAction::SetFullscreen(full) => TitleDecision::ApplyFullscreen(*full),
        TitleAction::StartGame => {
            if has_game {
                TitleDecision::ContinueGame
            } else {
                TitleDecision::BeginNewGame
            }
        }
        TitleAction::EraseGame => TitleDecision::ConfirmErase,
        TitleAction::Quit => TitleDecision::Leave,
    }
}

} // verus!
