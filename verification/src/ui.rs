//! The two lines of text beside the board.

use vstd::prelude::*;
use crate::board::PlayerTurn;
use crate::history::{last_of, History};
use crate::pieces::color_name;

verus! {

/// Writes the lines of text beside the board.
#[derive(Clone, Copy, Debug)]
pub struct UIPlugin;

impl UIPlugin {
    /// The line that says whose move it is.
    pub fn next_move_text(&self, turn: &PlayerTurn) -> (text: String)
        ensures
            text@ == "Next move: "@ + color_name(turn.0),
    {
        let mut text: String = String::from_str("Next move: ");
        text.append(turn.0.name());
        text
    }

    /// The line that shows the last turn played; `None` while no turn was
    /// played, when the line stays as it is.
    pub fn last_turn_text(&self, history: &History) -> (text: Option<String>)
        ensures
            match last_of(history@) {
                Some(turn) => text matches Some(line) && line@ == turn.text(),
                None => text is None,
            },
    {
        match history.last() {
            Some(turn) => Some(turn.notation()),
            None => None,
        }
    }
}

} // verus!
