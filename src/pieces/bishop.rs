use vstd::prelude::*;

use crate::board::Board;
use crate::pieces::Icon;
use crate::position::{Direction, Position};
use crate::slide::{slide_captures, slide_moves, sliding_captures, sliding_moves};

verus! {

#[derive(Clone, Copy, Debug, PartialEq, Eq, Structural)]
pub struct Bishop {
    pub position: Position,
}

/// The directions along which a bishop slides, in the order they are walked.
pub open spec fn bishop_directions() -> Seq<Direction> {
    seq![Direction::UpRight, Direction::DownRight, Direction::DownLeft, Direction::UpLeft]
}

impl Bishop {
    pub open spec fn moves(self, b: Board) -> Seq<Position> {
        slide_moves(b, self.position, bishop_directions())
    }

    pub open spec fn captures(self, b: Board) -> Seq<Position> {
        slide_captures(b, self.position, bishop_directions())
    }

    pub fn new(position: Position) -> (r: Bishop)
        ensures
            r == (Bishop { position }),
    {
        Bishop { position }
    }

    pub fn directions() -> (r: Vec<Direction>)
        ensures
            r@ == bishop_directions(),
    {
        let r = vec![Direction::UpRight, Direction::DownRight, Direction::DownLeft, Direction::UpLeft];
        assert(r@ =~= bishop_directions());
        r
    }

    pub fn get_position(&self) -> (r: Position)
        ensures
            r == self.position,
    {
        self.position
    }

    pub fn icon(&self) -> (r: Icon)
        ensures
            r == (Icon { dark: '♝', light: '♗' }),
    {
        Icon { dark: '♝', light: '♗' }
    }

    /// The empty squares along each direction, up to the first occupied one.
    pub fn possible_moves(&self, board: &Board) -> (r: Vec<Position>)
        ensures
            r@ == self.moves(*board),
    {
        sliding_moves(&Bishop::directions(), self.position, board)
    }

    /// The first occupied square along each direction, when the opponent holds it.
    pub fn possible_captures(&self, board: &Board) -> (r: Vec<Position>)
        ensures
            r@ == self.captures(*board),
    {
        sliding_captures(&Bishop::directions(), self.position, board)
    }
}

} // verus!
