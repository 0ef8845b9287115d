//! How a tick ends, how a match ends, and what the operator is told.

use vstd::prelude::*;
use vstd::string::*;
use crate::text::{decimal, push_decimal};

verus! {

/// The status of a process that ended well.
pub const EXIT_SUCCESS: i32 = 0;

/// The status after a failure: parameters that cannot be used, or the input
/// reader lost.
pub const EXIT_FAILURE: i32 = 1;

/// The status after a lost match.
pub const EXIT_LOST: i32 = 2;

/// How a match ended.
#[derive(Clone, Copy, Debug, PartialEq, Eq, Structural)]
pub enum Ending {
    /// The snake filled the board.
    Won,
    /// The snake ran into itself.
    Lost,
    /// The player left.
    Quit,
    /// The input reader went away.
    InputLost,
}

/// What the caller of the engine does next.
#[derive(Clone, Copy, Debug, PartialEq, Eq, Structural)]
pub enum Action {
    /// Wait for the tick interval, then poll the input.
    Sleep,
    /// Poll the input again at once.
    Poll,
    /// Stop: the match is over.
    Finish(Ending),
}

impl Ending {
    /// The status that the process leaves with.
    pub open spec fn status(self) -> i32 {
        match self {
            Ending::Won => EXIT_SUCCESS,
            Ending::Quit => EXIT_SUCCESS,
            Ending::Lost => EXIT_LOST,
            Ending::InputLost => EXIT_FAILURE,
        }
    }

    /// What the operator is told at the end of a match with `score` pellets
    /// eaten; nothing after quitting.
    pub open spec fn text(self, score: nat) -> Option<Seq<char>> {
        match self {
            Ending::Won => Some("You won!\nYour score was "@ + decimal(score)),
            Ending::Lost => Some(
                "You lost. Better luck next time...\nYour score was "@ + decimal(score),
            ),
            Ending::Quit => None,
            Ending::InputLost => Some("input source exited unexpectedly"@),
        }
    }

    /// The status that the process leaves with: zero after a win or after
    /// quitting, and after a lost match a status of its own, which is neither
    /// zero nor that of a failure.
    pub fn exit_code(&self) -> (code: i32)
        ensures
            code == self.status(),
            (*self == Ending::Won || *self == Ending::Quit) <==> code == 0,
            *self == Ending::Lost ==> code != EXIT_FAILURE,
    {
        match self {
            Ending::Won => EXIT_SUCCESS,
            Ending::Quit => EXIT_SUCCESS,
            Ending::Lost => EXIT_LOST,
            Ending::InputLost => EXIT_FAILURE,
        }
    }

    /// The message for the operator at the end of a match with `score`
    /// pellets eaten.
    pub fn message(&self, score: usize) -> (m: Option<String>)
        ensures
            m is Some <==> self.text(score as nat) is Some,
            m matches Some(s) ==> self.text(score as nat) == Some(s@),
    {
        match self {
            Ending::Won => {
                let mut m = String::from_str("You won!\nYour score was ");
                push_decimal(&mut m, score);
                Some(m)
            },
            Ending::Lost => {
                let mut m = String::from_str("You lost. Better luck next time...\nYour score was ");
                push_decimal(&mut m, score);
                Some(m)
            },
            Ending::Quit => None,
            Ending::InputLost => Some(String::from_str("input source exited unexpectedly")),
        }
    }
}

} // verus!
