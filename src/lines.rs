//! Pieces described by the rays along which they move and strike.
use vstd::prelude::*;

use crate::position::{Direction, Position};
use crate::ray::Ray;

verus! {

/// A piece that knows only its square.
#[derive(Clone, Copy, Debug, PartialEq, Eq, Structural)]
pub enum Piece {
    Pawn(Position),
}

/// Whether a piece of `pieces` stands on `p`.
pub open spec fn occupied_by(pieces: Seq<Piece>, p: Position) -> bool {
    exists|i: int| 0 <= i < pieces.len() && (#[trigger] pieces[i]).stands_on(p)
}

/// The rays along which a pawn on `p` may move: one square up, or two from
/// its starting rank.
pub open spec fn pawn_move_rays(p: Position) -> Seq<Ray> {
    match p.moved(Direction::Up, 1) {
        Err(_) => Seq::empty(),
        Ok(q) => seq![
            Ray {
                start: q,
                direction: Direction::Up,
                limit: if p.y == 1 && p.moved(Direction::Up, 2) is Ok {
                    2
                } else {
                    1
                },
            },
        ],
    }
}

/// The single square reached from `p` in direction `d`, as a one-square ray,
/// when it lies on the board.
pub open spec fn strike_ray(p: Position, d: Direction) -> Seq<Ray> {
    match p.moved(d, 1) {
        Ok(q) => seq![Ray { start: q, direction: Direction::Up, limit: 1 }],
        Err(_) => Seq::empty(),
    }
}

/// The rays along which a pawn on `p` may strike: up-left, then up-right.
pub open spec fn pawn_strike_rays(p: Position) -> Seq<Ray> {
    strike_ray(p, Direction::UpLeft) + strike_ray(p, Direction::UpRight)
}

impl Piece {
    /// The square the piece stands on.
    pub open spec fn square(self) -> Position {
        match self {
            Piece::Pawn(p) => p,
        }
    }

    pub open spec fn stands_on(self, p: Position) -> bool {
        self.square() == p
    }

    /// The rays along which the piece may move.
    pub fn legal_moves(&self) -> (r: Vec<Ray>)
        ensures
            r@ == pawn_move_rays(self.square()),
    {
        match self {
            Piece::Pawn(pos) => pawn_moves(*pos),
        }
    }

    /// The rays along which the piece may strike.
    pub fn legal_strikes(&self) -> (r: Vec<Ray>)
        ensures
            r@ == pawn_strike_rays(self.square()),
    {
        match self {
            Piece::Pawn(pos) => pawn_strikes(*pos),
        }
    }

    /// Reports whether the piece stands on `position`.
    pub fn collides_with(&self, position: Position) -> (r: bool)
        ensures
            r == self.stands_on(position),
    {
        match self {
            Piece::Pawn(pos) => position == *pos,
        }
    }
}

/// The rays along which a pawn on `position` may move.
pub fn pawn_moves(position: Position) -> (r: Vec<Ray>)
    ensures
        r@ == pawn_move_rays(position),
{
    let starting_pos = match position.move_copy(Direction::Up, 1) {
        Ok(pos) => pos,
        Err(_) => return Vec::new(),
    };
    let mut ray_limit: usize = 1;
    if position.y == 1 {
        if position.move_copy(Direction::Up, 2).is_ok() {
            ray_limit = 2;
        }
    }
    let r = vec![Ray::new(starting_pos, Direction::Up, ray_limit)];
    assert(r@ =~= pawn_move_rays(position));
    r
}

/// The rays along which a pawn on `position` may strike.
pub fn pawn_strikes(position: Position) -> (r: Vec<Ray>)
    ensures
        r@ == pawn_strike_rays(position),
{
    let mut r: Vec<Ray> = Vec::new();
    if let Ok(pos) = position.move_copy(Direction::UpLeft, 1) {
        r.push(Ray::new_point(pos));
    }
    let ghost left = r@;
    if let Ok(pos) = position.move_copy(Direction::UpRight, 1) {
        r.push(Ray::new_point(pos));
    }
    assert(left =~= strike_ray(position, Direction::UpLeft));
    assert(r@ =~= left + strike_ray(position, Direction::UpRight));
    r
}

} // verus!
