//! Chess position model and legal-move generator.
//!
//! A [`board::Board`] holds the pieces of the side to move and of its
//! opponent, enumerates the actions available to the side to move, executes a
//! chosen action and swaps perspective between turns.
use vstd::prelude::*;

pub mod board;
pub mod errors;
pub mod lines;
pub mod pieces;
pub mod position;
pub mod ray;
pub mod slide;
pub mod targets;

use crate::position::Position;

verus! {

/// A move of the piece standing on `source` to `destination`.
#[derive(Clone, Copy, Debug, PartialEq, Eq, Structural)]
pub struct Action {
    pub source: Position,
    pub destination: Position,
}

impl Action {
    pub fn new(source: Position, destination: Position) -> (r: Action)
        ensures
            r == (Action { source, destination }),
    {
        Action { source, destination }
    }
}

/// The actions that move the piece on `source` to each of `destinations`, in
/// their order.
pub open spec fn actions_to(source: Position, destinations: Seq<Position>) -> Seq<Action> {
    Seq::new(destinations.len(), |i: int| Action { source, destination: destinations[i] })
}

} // verus!
