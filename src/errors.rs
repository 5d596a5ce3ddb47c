use vstd::prelude::*;

verus! {

/// The two ways an operation of the library can fail.
#[derive(Clone, Copy, Debug, PartialEq, Eq, Structural)]
pub enum Error {
    /// A coordinate step left the board.
    PositionOutOfBounds,
    /// An action that is not among the board's legal actions was executed.
    InvalidAction,
}

impl Error {
    /// The message that describes the error.
    pub fn message(&self) -> (r: &'static str) {
        match self {
            Error::PositionOutOfBounds => "position out of bounds",
            Error::InvalidAction => "action is invalid",
        }
    }
}

} // verus!
