use vstd::prelude::*;

use crate::board::Board;
use crate::pieces::Icon;
use crate::position::{Direction, Position};
use crate::slide::{keep, unoccupied};

verus! {

#[derive(Clone, Copy, Debug, PartialEq, Eq, Structural)]
pub struct King {
    pub position: Position,
}

/// The directions of the king's steps, clockwise from up.
pub open spec fn king_directions() -> Seq<Direction> {
    seq![
        Direction::Up,
        Direction::UpRight,
        Direction::Right,
        Direction::DownRight,
        Direction::Down,
        Direction::DownLeft,
        Direction::Left,
        Direction::UpLeft,
    ]
}

/// The squares one step from `p` along each direction of `ds` that lie on the board.
pub open spec fn steps(p: Position, ds: Seq<Direction>) -> Seq<Position>
    decreases ds.len(),
{
    if ds.len() == 0 {
        Seq::empty()
    } else {
        steps(p, ds.drop_last()) + match p.moved(ds.last(), 1) {
            Ok(q) => seq![q],
            Err(_) => Seq::empty(),
        }
    }
}

impl King {
    pub open spec fn moves(self, b: Board) -> Seq<Position> {
        keep(steps(self.position, king_directions()), b.free_fn())
    }

    pub fn new(position: Position) -> (r: King)
        ensures
            r == (King { position }),
    {
        King { position }
    }

    pub fn directions() -> (r: Vec<Direction>)
        ensures
            r@ == king_directions(),
    {
        let r = vec![
            Direction::Up,
            Direction::UpRight,
            Direction::Right,
            Direction::DownRight,
            Direction::Down,
            Direction::DownLeft,
            Direction::Left,
            Direction::UpLeft,
        ];
        assert(r@ =~= king_directions());
        r
    }

    pub fn get_position(&self) -> (r: Position)
        ensures
            r == self.position,
    {
        self.position
    }

    pub fn icon(&self) -> (r: Icon)
        ensures
            r == (Icon { dark: '♚', light: '♔' }),
    {
        Icon { dark: '♚', light: '♔' }
    }

    /// The adjacent squares that no piece occupies.
    pub fn possible_moves(&self, board: &Board) -> (r: Vec<Position>)
        ensures
            r@ == self.moves(*board),
    {
        let directions = King::directions();
        let mut adjacent: Vec<Position> = Vec::new();
        let mut i: usize = 0;
        assert(directions@.take(0) =~= Seq::<Direction>::empty());
        while i < directions.len()
            invariant
                0 <= i <= directions@.len(),
                directions@ == king_directions(),
                adjacent@ == steps(self.position, directions@.take(i as int)),
            decreases directions@.len() - i,
        {
            let d = directions[i];
            assert(directions@.take(i + 1).drop_last() =~= directions@.take(i as int));
            assert(directions@.take(i + 1).last() == d);
            let ghost before = adjacent@;
            match self.position.move_copy(d, 1) {
                Ok(q) => {
                    adjacent.push(q);
                    assert(adjacent@ =~= before + seq![q]);
                },
                Err(_) => {
                    assert(adjacent@ =~= before + Seq::<Position>::empty());
                },
            }
            i = i + 1;
        }
        assert(directions@.take(i as int) =~= directions@);
        unoccupied(board, &adjacent)
    }

    /// The king captures nothing.
    pub fn possible_captures(&self, board: &Board) -> (r: Vec<Position>)
        ensures
            r@ == Seq::<Position>::empty(),
    {
        Vec::new()
    }

    /// The king threatens nothing.
    pub fn allowed_strike_destinations(&self, board: &Board) -> (r: Vec<Position>)
        ensures
            r@ == Seq::<Position>::empty(),
    {
        Vec::new()
    }
}

} // verus!
