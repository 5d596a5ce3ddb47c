use vstd::prelude::*;

use crate::errors::Error;

verus! {

/// The number of squares along each side of the board.
pub const SIDE: usize = 8;

/// A square of the board: file `x` and rank `y`, each counted from zero.
#[derive(Clone, Copy, Debug, PartialEq, Eq, Hash, Structural)]
pub struct Position {
    pub x: usize,
    pub y: usize,
}

/// One of the eight compass directions, seen from the side to move.
#[derive(Clone, Copy, Debug, PartialEq, Eq, Structural)]
pub enum Direction {
    Up,
    Down,
    Left,
    Right,
    UpRight,
    UpLeft,
    DownRight,
    DownLeft,
}

impl Direction {
    /// Change of the file for one step in this direction.
    pub open spec fn dx(self) -> int {
        match self {
            Direction::Left | Direction::UpLeft | Direction::DownLeft => -1,
            Direction::Right | Direction::UpRight | Direction::DownRight => 1,
            _ => 0,
        }
    }

    /// Change of the rank for one step in this direction.
    pub open spec fn dy(self) -> int {
        match self {
            Direction::Down | Direction::DownLeft | Direction::DownRight => -1,
            Direction::Up | Direction::UpLeft | Direction::UpRight => 1,
            _ => 0,
        }
    }

    /// The direction pointing the other way.
    pub open spec fn opposite(self) -> Direction {
        match self {
            Direction::Up => Direction::Down,
            Direction::Down => Direction::Up,
            Direction::Left => Direction::Right,
            Direction::Right => Direction::Left,
            Direction::UpRight => Direction::DownLeft,
            Direction::UpLeft => Direction::DownRight,
            Direction::DownRight => Direction::UpLeft,
            Direction::DownLeft => Direction::UpRight,
        }
    }
}

/// Whether the coordinates `(x, y)` name a square of the board.
pub open spec fn on_board(x: int, y: int) -> bool {
    0 <= x < 8 && 0 <= y < 8
}

/// File reached from `x` after `amount` steps in direction `d`.
pub open spec fn shifted_x(x: int, d: Direction, amount: int) -> int {
    if d.dx() > 0 {
        x + amount
    } else if d.dx() < 0 {
        x - amount
    } else {
        x
    }
}

/// Rank reached from `y` after `amount` steps in direction `d`.
pub open spec fn shifted_y(y: int, d: Direction, amount: int) -> int {
    if d.dy() > 0 {
        y + amount
    } else if d.dy() < 0 {
        y - amount
    } else {
        y
    }
}

/// The square whose index in a flat row-major array of the board is `i`.
pub open spec fn position_at(i: int) -> Position {
    Position { x: (i % 8) as usize, y: (i / 8) as usize }
}

impl Position {
    /// Whether the position lies within the board.
    pub open spec fn valid(self) -> bool {
        self.x < 8 && self.y < 8
    }

    /// The outcome of stepping `amount` squares in direction `d`.
    pub open spec fn moved(self, d: Direction, amount: int) -> Result<Position, Error> {
        let x = shifted_x(self.x as int, d, amount);
        let y = shifted_y(self.y as int, d, amount);
        if on_board(x, y) {
            Ok(Position { x: x as usize, y: y as usize })
        } else {
            Err(Error::PositionOutOfBounds)
        }
    }

    /// Index of the position in a flat row-major array of the board.
    pub open spec fn index(self) -> int {
        self.y * 8 + self.x
    }

    /// The same square seen from the other side of the board.
    pub open spec fn mirrored(self) -> Position {
        Position { x: self.x, y: (7 - self.y) as usize }
    }

    pub fn new(x: usize, y: usize) -> (r: Position)
        ensures
            r == (Position { x, y }),
    {
        Position { x, y }
    }

    /// Creates a copy of the position moved by `amount` squares in `direction`.
    /// Fails when the destination lies off the board.
    pub fn move_copy(&self, direction: Direction, amount: usize) -> (r: Result<Position, Error>)
        ensures
            r == self.moved(direction, amount as int),
    {
        let x = self.x;
        let y = self.y;
        let fits_up = amount < SIDE && y < SIDE - amount;
        let fits_right = amount < SIDE && x < SIDE - amount;
        let fits_down = amount <= y;
        let fits_left = amount <= x;
        let pos = match direction {
            Direction::Up => {
                if !fits_up {
                    return Err(Error::PositionOutOfBounds);
                }
                Position { x, y: y + amount }
            },
            Direction::Down => {
                if !fits_down {
                    return Err(Error::PositionOutOfBounds);
                }
                Position { x, y: y - amount }
            },
            Direction::Left => {
                if !fits_left {
                    return Err(Error::PositionOutOfBounds);
                }
                Position { x: x - amount, y }
            },
            Direction::Right => {
                if !fits_right {
                    return Err(Error::PositionOutOfBounds);
                }
                Position { x: x + amount, y }
            },
            Direction::UpRight => {
                if !fits_up || !fits_right {
                    return Err(Error::PositionOutOfBounds);
                }
                Position { x: x + amount, y: y + amount }
            },
            Direction::UpLeft => {
                if !fits_up || !fits_left {
                    return Err(Error::PositionOutOfBounds);
                }
                Position { x: x - amount, y: y + amount }
            },
            Direction::DownRight => {
                if !fits_right || !fits_down {
                    return Err(Error::PositionOutOfBounds);
                }
                Position { x: x + amount, y: y - amount }
            },
            Direction::DownLeft => {
                if !fits_left || !fits_down {
                    return Err(Error::PositionOutOfBounds);
                }
                Position { x: x - amount, y: y - amount }
            },
        };
        if !pos.is_valid() {
            Err(Error::PositionOutOfBounds)
        } else {
            Ok(pos)
        }
    }

    /// Index of the position in a flat row-major array of the board.
    pub fn arr_pos(&self) -> (r: usize)
        requires
            self.valid(),
        ensures
            r == self.index(),
            r < 64,
    {
        self.y * SIDE + self.x
    }

    /// Reports whether the position lies within the board.
    pub fn is_valid(&self) -> (r: bool)
        ensures
            r == self.valid(),
    {
        self.x < SIDE && self.y < SIDE
    }
}

/// Stepping one square in a direction and one square back in the opposite
/// direction returns to the square one started from, whenever the first step
/// stays on the board.
pub proof fn lemma_step_back(p: Position, d: Direction)
    requires
        p.valid(),
    ensures
        p.moved(d, 1) is Ok ==> (p.moved(d, 1)->Ok_0).moved(d.opposite(), 1) == Ok::<
            Position,
            Error,
        >(p),
{
}

/// The flat index of a square determines the square, and `position_at`
/// recovers the square from its index.
pub proof fn lemma_index_bijective(p: Position, q: Position)
    requires
        p.valid(),
        q.valid(),
    ensures
        0 <= p.index() < 64,
        position_at(p.index()) == p,
        p.index() == q.index() ==> p == q,
{
    let i = p.index();
    assert(i % 8 == p.x as int && i / 8 == p.y as int) by (nonlinear_arith)
        requires
            i == p.y * 8 + p.x,
            p.x < 8,
            p.y < 8,
    ;
    let j = q.index();
    assert(j % 8 == q.x as int && j / 8 == q.y as int) by (nonlinear_arith)
        requires
            j == q.y * 8 + q.x,
            q.x < 8,
            q.y < 8,
    ;
}

/// Every index of the flat array names a square of the board, whose index is
/// the one started from.
pub proof fn lemma_index_onto(i: int)
    requires
        0 <= i < 64,
    ensures
        position_at(i).valid(),
        position_at(i).index() == i,
{
    assert(0 <= i % 8 < 8 && 0 <= i / 8 < 8 && (i / 8) * 8 + i % 8 == i) by (nonlinear_arith)
        requires
            0 <= i < 64,
    ;
}

} // verus!
