use vstd::prelude::*;

use crate::board::Board;
use crate::pieces::Icon;
use crate::position::{Direction, Position};
use crate::slide::{
    enemy_held, keep, lemma_reach_then_filter_is_captures, raw_reachable, slide_captures, slide_moves,
    slide_reach, sliding_moves,
};

verus! {

#[derive(Clone, Copy, Debug, PartialEq, Eq, Structural)]
pub struct Queen {
    pub position: Position,
}

/// The directions along which a queen slides, in the order they are walked.
pub open spec fn queen_directions() -> Seq<Direction> {
    seq![
        Direction::Up,
        Direction::Right,
        Direction::Down,
        Direction::Left,
        Direction::UpRight,
        Direction::DownRight,
        Direction::DownLeft,
        Direction::UpLeft,
    ]
}

impl Queen {
    pub open spec fn moves(self, b: Board) -> Seq<Position> {
        slide_moves(b, self.position, queen_directions())
    }

    /// Every square the queen threatens.
    pub open spec fn threatened(self, b: Board) -> Seq<Position> {
        slide_reach(b, self.position, queen_directions())
    }

    /// The threatened squares that the opponent holds.
    pub open spec fn captures(self, b: Board) -> Seq<Position> {
        keep(self.threatened(b), b.enemy_fn())
    }

    pub fn new(position: Position) -> (r: Queen)
        ensures
            r == (Queen { position }),
    {
        Queen { position }
    }

    pub fn directions() -> (r: Vec<Direction>)
        ensures
            r@ == queen_directions(),
    {
        let r = vec![
            Direction::Up,
            Direction::Right,
            Direction::Down,
            Direction::Left,
            Direction::UpRight,
            Direction::DownRight,
            Direction::DownLeft,
            Direction::UpLeft,
        ];
        assert(r@ =~= queen_directions());
        r
    }

    pub fn get_position(&self) -> (r: Position)
        ensures
            r == self.position,
    {
        self.position
    }

    pub fn icon(&self) -> (r: Icon)
        ensures
            r == (Icon { dark: '♛', light: '♕' }),
    {
        Icon { dark: '♛', light: '♕' }
    }

    /// The empty squares along each direction, up to the first occupied one.
    pub fn possible_moves(&self, board: &Board) -> (r: Vec<Position>)
        ensures
            r@ == self.moves(*board),
    {
        sliding_moves(&Queen::directions(), self.position, board)
    }

    /// Every square the queen threatens: along each direction, up to the
    /// first occupied square, which is included when the opponent holds it.
    pub fn allowed_strike_destinations(&self, board: &Board) -> (r: Vec<Position>)
        ensures
            r@ == self.threatened(*board),
    {
        raw_reachable(&Queen::directions(), self.position, board)
    }

    /// The threatened squares that the opponent holds.
    pub fn possible_captures(&self, board: &Board) -> (r: Vec<Position>)
        ensures
            r@ == self.captures(*board),
    {
        enemy_held(board, &self.allowed_strike_destinations(board))
    }
}

/// The queen's captures, taken from the squares it threatens, are the sliding
/// captures along its eight directions.
pub proof fn lemma_queen_captures_slide(q: Queen, b: Board)
    ensures
        q.captures(b) == slide_captures(b, q.position, queen_directions()),
{
    lemma_reach_then_filter_is_captures(b, q.position, queen_directions());
}

} // verus!
