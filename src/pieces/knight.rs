use vstd::prelude::*;

use crate::board::Board;
use crate::pieces::Icon;
use crate::position::{Direction, Position};
use crate::slide::{enemy_held, keep, unoccupied};

verus! {

#[derive(Clone, Copy, Debug, PartialEq, Eq, Structural)]
pub struct Knight {
    pub position: Position,
}

/// A leap: `j.1` squares in direction `j.0`, then `j.3` squares in direction `j.2`.
pub type Leap = (Direction, usize, Direction, usize);

/// The eight leaps of a knight, in the order they are tried.
pub open spec fn knight_leaps() -> Seq<Leap> {
    seq![
        (Direction::Up, 2, Direction::Right, 1),
        (Direction::Up, 1, Direction::Right, 2),
        (Direction::Right, 2, Direction::Down, 1),
        (Direction::Right, 1, Direction::Down, 2),
        (Direction::Down, 2, Direction::Left, 1),
        (Direction::Down, 1, Direction::Left, 2),
        (Direction::Left, 2, Direction::Up, 1),
        (Direction::Left, 1, Direction::Up, 2),
    ]
}

/// The square that leap `j` reaches from `p`, when both of its steps stay on
/// the board.
pub open spec fn leap(p: Position, j: Leap) -> Seq<Position> {
    match p.moved(j.0, j.1 as int) {
        Ok(q) => match q.moved(j.2, j.3 as int) {
            Ok(r) => seq![r],
            Err(_) => Seq::empty(),
        },
        Err(_) => Seq::empty(),
    }
}

/// The squares that the leaps of `js` reach from `p`, in their order.
pub open spec fn leaps(p: Position, js: Seq<Leap>) -> Seq<Position>
    decreases js.len(),
{
    if js.len() == 0 {
        Seq::empty()
    } else {
        leaps(p, js.drop_last()) + leap(p, js.last())
    }
}

impl Knight {
    pub open spec fn destinations_of(self) -> Seq<Position> {
        leaps(self.position, knight_leaps())
    }

    pub open spec fn moves(self, b: Board) -> Seq<Position> {
        keep(self.destinations_of(), b.free_fn())
    }

    pub open spec fn captures(self, b: Board) -> Seq<Position> {
        keep(self.destinations_of(), b.enemy_fn())
    }

    pub fn new(position: Position) -> (r: Knight)
        ensures
            r == (Knight { position }),
    {
        Knight { position }
    }

    /// The squares on the board that the knight's leaps reach.
    pub fn destinations(&self) -> (r: Vec<Position>)
        ensures
            r@ == self.destinations_of(),
    {
        let jumps: Vec<Leap> = vec![
            (Direction::Up, 2, Direction::Right, 1),
            (Direction::Up, 1, Direction::Right, 2),
            (Direction::Right, 2, Direction::Down, 1),
            (Direction::Right, 1, Direction::Down, 2),
            (Direction::Down, 2, Direction::Left, 1),
            (Direction::Down, 1, Direction::Left, 2),
            (Direction::Left, 2, Direction::Up, 1),
            (Direction::Left, 1, Direction::Up, 2),
        ];
        assert(jumps@ =~= knight_leaps());
        let mut r: Vec<Position> = Vec::new();
        let mut i: usize = 0;
        assert(jumps@.take(0) =~= Seq::<Leap>::empty());
        while i < jumps.len()
            invariant
                0 <= i <= jumps@.len(),
                jumps@ == knight_leaps(),
                r@ == leaps(self.position, jumps@.take(i as int)),
            decreases jumps@.len() - i,
        {
            let j = jumps[i];
            assert(jumps@.take(i + 1).drop_last() =~= jumps@.take(i as int));
            assert(jumps@.take(i + 1).last() == j);
            let ghost before = r@;
            if let Ok(q) = self.position.move_copy(j.0, j.1) {
                if let Ok(dest) = q.move_copy(j.2, j.3) {
                    r.push(dest);
                }
            }
            assert(r@ =~= before + leap(self.position, j));
            i = i + 1;
        }
        assert(jumps@.take(i as int) =~= jumps@);
        r
    }

    pub fn get_position(&self) -> (r: Position)
        ensures
            r == self.position,
    {
        self.position
    }

    pub fn icon(&self) -> (r: Icon)
        ensures
            r == (Icon { dark: '♞', light: '♘' }),
    {
        Icon { dark: '♞', light: '♘' }
    }

    /// The reachable squares that no piece occupies.
    pub fn possible_moves(&self, board: &Board) -> (r: Vec<Position>)
        ensures
            r@ == self.moves(*board),
    {
        unoccupied(board, &self.destinations())
    }

    /// The reachable squares that the opponent holds.
    pub fn possible_captures(&self, board: &Board) -> (r: Vec<Position>)
        ensures
            r@ == self.captures(*board),
    {
        enemy_held(board, &self.destinations())
    }
}

} // verus!
