use vstd::prelude::*;

use crate::board::Board;
use crate::pieces::Icon;
use crate::position::{Direction, Position};

verus! {

/// A pawn; `starting_position` allows the two-square advance.
#[derive(Clone, Copy, Debug, PartialEq, Eq, Structural)]
pub struct Pawn {
    pub position: Position,
    pub starting_position: bool,
}

/// The square one step from `p` in direction `d`, when the opponent holds it.
pub open spec fn diagonal_capture(b: Board, p: Position, d: Direction) -> Seq<Position> {
    match p.moved(d, 1) {
        Ok(q) => if b.enemy_at(q) {
            seq![q]
        } else {
            Seq::empty()
        },
        Err(_) => Seq::empty(),
    }
}

impl Pawn {
    /// One square up when it is empty; then two squares up from the starting
    /// position when that square is empty too.
    pub open spec fn moves(self, b: Board) -> Seq<Position> {
        match self.position.moved(Direction::Up, 1) {
            Err(_) => Seq::empty(),
            Ok(one) => if b.occupied(one) {
                Seq::empty()
            } else {
                match self.position.moved(Direction::Up, 2) {
                    Ok(two) => if self.starting_position && !b.occupied(two) {
                        seq![one, two]
                    } else {
                        seq![one]
                    },
                    Err(_) => seq![one],
                }
            },
        }
    }

    /// The squares up-left, then up-right, that the opponent holds.
    pub open spec fn captures(self, b: Board) -> Seq<Position> {
        diagonal_capture(b, self.position, Direction::UpLeft) + diagonal_capture(
            b,
            self.position,
            Direction::UpRight,
        )
    }

    pub fn new(position: Position, starting_position: bool) -> (r: Pawn)
        ensures
            r == (Pawn { position, starting_position }),
    {
        Pawn { position, starting_position }
    }

    pub fn get_position(&self) -> (r: Position)
        ensures
            r == self.position,
    {
        self.position
    }

    pub fn icon(&self) -> (r: Icon)
        ensures
            r == (Icon { dark: '♟', light: '♙' }),
    {
        Icon { dark: '♟', light: '♙' }
    }

    /// The squares the pawn can move to without capturing.
    pub fn possible_moves(&self, board: &Board) -> (r: Vec<Position>)
        ensures
            r@ == self.moves(*board),
    {
        let mut moves: Vec<Position> = Vec::new();
        let adjacent_pos = match self.position.move_copy(Direction::Up, 1) {
            Ok(pos) => pos,
            Err(_) => return moves,
        };
        if board.collision(adjacent_pos).is_some() {
            return moves;
        }
        moves.push(adjacent_pos);
        let starting_move_pos = match self.position.move_copy(Direction::Up, 2) {
            Ok(pos) => pos,
            Err(_) => {
                assert(moves@ =~= seq![adjacent_pos]);
                return moves;
            },
        };
        if self.starting_position && board.collision(starting_move_pos).is_none() {
            moves.push(starting_move_pos);
            assert(moves@ =~= seq![adjacent_pos, starting_move_pos]);
        } else {
            assert(moves@ =~= seq![adjacent_pos]);
        }
        moves
    }

    /// The squares the pawn can capture on.
    pub fn possible_captures(&self, board: &Board) -> (r: Vec<Position>)
        ensures
            r@ == self.captures(*board),
    {
        let mut captures: Vec<Position> = Vec::new();
        if let Ok(pos) = self.position.move_copy(Direction::UpLeft, 1) {
            if board.enemy_collision(pos).is_some() {
                captures.push(pos);
            }
        }
        let ghost left = captures@;
        assert(left =~= diagonal_capture(*board, self.position, Direction::UpLeft));
        if let Ok(pos) = self.position.move_copy(Direction::UpRight, 1) {
            if board.enemy_collision(pos).is_some() {
                captures.push(pos);
            }
        }
        assert(captures@ =~= left + diagonal_capture(*board, self.position, Direction::UpRight));
        captures
    }
}

} // verus!
