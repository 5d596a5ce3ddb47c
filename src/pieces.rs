//! The pieces and the rule by which each of them moves and captures.
use vstd::prelude::*;

pub mod bishop;
pub mod king;
pub mod knight;
pub mod pawn;
pub mod queen;
pub mod rook;

use crate::board::Board;
use crate::position::Position;

pub use bishop::Bishop;
pub use king::King;
pub use knight::Knight;
pub use pawn::Pawn;
pub use queen::Queen;
pub use rook::Rook;

verus! {

/// The glyphs of a piece: `light` for the side to move, `dark` for its opponent.
#[derive(Clone, Copy, Debug, PartialEq, Eq, Structural)]
pub struct Icon {
    pub dark: char,
    pub light: char,
}

/// A piece of one of the six kinds.
#[derive(Clone, Copy, Debug, PartialEq, Eq, Structural)]
pub enum Piece {
    Pawn(Pawn),
    Rook(Rook),
    Knight(Knight),
    Bishop(Bishop),
    Queen(Queen),
    King(King),
}

impl Piece {
    /// The square the piece stands on.
    pub open spec fn position(self) -> Position {
        match self {
            Piece::Pawn(p) => p.position,
            Piece::Rook(p) => p.position,
            Piece::Knight(p) => p.position,
            Piece::Bishop(p) => p.position,
            Piece::Queen(p) => p.position,
            Piece::King(p) => p.position,
        }
    }

    /// The same piece standing on `position`.
    pub open spec fn placed(self, position: Position) -> Piece {
        match self {
            Piece::Pawn(p) => Piece::Pawn(Pawn { position, ..p }),
            Piece::Rook(_) => Piece::Rook(Rook { position }),
            Piece::Knight(_) => Piece::Knight(Knight { position }),
            Piece::Bishop(_) => Piece::Bishop(Bishop { position }),
            Piece::Queen(_) => Piece::Queen(Queen { position }),
            Piece::King(_) => Piece::King(King { position }),
        }
    }

    /// The squares the piece can move to without capturing.
    pub open spec fn moves(self, b: Board) -> Seq<Position> {
        match self {
            Piece::Pawn(p) => p.moves(b),
            Piece::Rook(p) => p.moves(b),
            Piece::Knight(p) => p.moves(b),
            Piece::Bishop(p) => p.moves(b),
            Piece::Queen(p) => p.moves(b),
            Piece::King(p) => p.moves(b),
        }
    }

    /// The squares held by the opponent that the piece can capture on.
    pub open spec fn captures(self, b: Board) -> Seq<Position> {
        match self {
            Piece::Pawn(p) => p.captures(b),
            Piece::Rook(p) => p.captures(b),
            Piece::Knight(p) => p.captures(b),
            Piece::Bishop(p) => p.captures(b),
            Piece::Queen(p) => p.captures(b),
            Piece::King(_) => Seq::empty(),
        }
    }

    /// Moves first, then captures.
    pub open spec fn actions(self, b: Board) -> Seq<Position> {
        self.moves(b) + self.captures(b)
    }

    pub fn get_position(&self) -> (r: Position)
        ensures
            r == self.position(),
    {
        match self {
            Piece::Pawn(p) => p.get_position(),
            Piece::Rook(p) => p.get_position(),
            Piece::Knight(p) => p.get_position(),
            Piece::Bishop(p) => p.get_position(),
            Piece::Queen(p) => p.get_position(),
            Piece::King(p) => p.get_position(),
        }
    }

    /// Moves the piece to `position`, keeping everything else about it.
    pub fn set_position(&mut self, position: Position)
        ensures
            *final(self) == old(self).placed(position),
    {
        *self = match *self {
            Piece::Pawn(p) => Piece::Pawn(Pawn { position, ..p }),
            Piece::Rook(_) => Piece::Rook(Rook { position }),
            Piece::Knight(_) => Piece::Knight(Knight { position }),
            Piece::Bishop(_) => Piece::Bishop(Bishop { position }),
            Piece::Queen(_) => Piece::Queen(Queen { position }),
            Piece::King(_) => Piece::King(King { position }),
        };
    }

    /// The glyphs of the piece's kind.
    pub open spec fn glyphs(self) -> Icon {
        match self {
            Piece::Pawn(_) => Icon { dark: '♟', light: '♙' },
            Piece::Rook(_) => Icon { dark: '♜', light: '♖' },
            Piece::Knight(_) => Icon { dark: '♞', light: '♘' },
            Piece::Bishop(_) => Icon { dark: '♝', light: '♗' },
            Piece::Queen(_) => Icon { dark: '♛', light: '♕' },
            Piece::King(_) => Icon { dark: '♚', light: '♔' },
        }
    }

    pub fn icon(&self) -> (r: Icon)
        ensures
            r == self.glyphs(),
    {
        match self {
            Piece::Pawn(p) => p.icon(),
            Piece::Rook(p) => p.icon(),
            Piece::Knight(p) => p.icon(),
            Piece::Bishop(p) => p.icon(),
            Piece::Queen(p) => p.icon(),
            Piece::King(p) => p.icon(),
        }
    }

    /// The squares the piece can move to without capturing.
    pub fn possible_moves(&self, board: &Board) -> (r: Vec<Position>)
        ensures
            r@ == self.moves(*board),
    {
        match self {
            Piece::Pawn(p) => p.possible_moves(board),
            Piece::Rook(p) => p.possible_moves(board),
            Piece::Knight(p) => p.possible_moves(board),
            Piece::Bishop(p) => p.possible_moves(board),
            Piece::Queen(p) => p.possible_moves(board),
            Piece::King(p) => p.possible_moves(board),
        }
    }

    /// The squares held by the opponent that the piece can capture on.
    pub fn possible_captures(&self, board: &Board) -> (r: Vec<Position>)
        ensures
            r@ == self.captures(*board),
    {
        match self {
            Piece::Pawn(p) => p.possible_captures(board),
            Piece::Rook(p) => p.possible_captures(board),
            Piece::Knight(p) => p.possible_captures(board),
            Piece::Bishop(p) => p.possible_captures(board),
            Piece::Queen(p) => p.possible_captures(board),
            Piece::King(p) => p.possible_captures(board),
        }
    }

    /// The squares the piece can move to, moves first and captures after.
    pub fn possible_actions(&self, board: &Board) -> (r: Vec<Position>)
        ensures
            r@ == self.actions(*board),
    {
        let mut actions = self.possible_moves(board);
        let mut captures = self.possible_captures(board);
        actions.append(&mut captures);
        actions
    }

    /// Re-expresses the piece's square from the other side of the board.
    pub fn swap_position(&mut self)
        requires
            old(self).position().valid(),
        ensures
            *final(self) == old(self).placed(old(self).position().mirrored()),
    {
        let pos = self.get_position();
        self.set_position(Position::new(pos.x, 7 - pos.y));
    }
}

/// Whether every piece of `s` stands on the board.
pub open spec fn all_valid(s: Seq<Piece>) -> bool {
    forall|i: int| 0 <= i < s.len() ==> (#[trigger] s[i]).position().valid()
}

/// Reports whether every piece of `pieces` stands on the board.
pub fn all_valid_pieces(pieces: &Vec<Piece>) -> (r: bool)
    ensures
        r == all_valid(pieces@),
{
    let mut i: usize = 0;
    while i < pieces.len()
        invariant
            0 <= i <= pieces@.len(),
            forall|k: int| 0 <= k < i ==> (#[trigger] pieces@[k]).position().valid(),
        decreases pieces@.len() - i,
    {
        if !pieces[i].get_position().is_valid() {
            return false;
        }
        i = i + 1;
    }
    true
}

/// Each piece of `s` re-expressed from the other side of the board.
pub open spec fn mirrored_all(s: Seq<Piece>) -> Seq<Piece> {
    Seq::new(s.len(), |i: int| s[i].placed(s[i].position().mirrored()))
}

/// Re-expresses every piece's square from the other side of the board.
pub fn swap_positions(pieces: &mut Vec<Piece>)
    requires
        all_valid(old(pieces)@),
    ensures
        final(pieces)@ == mirrored_all(old(pieces)@),
{
    let ghost s = pieces@;
    let mut i: usize = 0;
    while i < pieces.len()
        invariant
            0 <= i <= pieces@.len(),
            pieces@.len() == s.len(),
            all_valid(s),
            forall|k: int| 0 <= k < i ==> pieces@[k] == #[trigger] mirrored_all(s)[k],
            forall|k: int| i <= k < s.len() ==> pieces@[k] == #[trigger] s[k],
        decreases s.len() - i,
    {
        let mut piece = pieces[i];
        assert(s[i as int].position().valid());
        piece.swap_position();
        pieces.set(i, piece);
        i = i + 1;
    }
    assert(pieces@ =~= mirrored_all(s));
}

/// The piece that a flat 64-square view of the board shows on square `i`
/// after placing the pieces of `s` in order: the last one placed there.
pub open spec fn space_at(s: Seq<Piece>, i: int) -> Option<Piece>
    decreases s.len(),
{
    if s.len() == 0 {
        None
    } else if s.last().position().index() == i {
        Some(s.last())
    } else {
        space_at(s.drop_last(), i)
    }
}

/// A flat 64-square view of the board, indexed by `Position::arr_pos`,
/// showing where the pieces of `pieces` stand.
pub fn to_space(pieces: &Vec<Piece>) -> (r: Vec<Option<Piece>>)
    requires
        all_valid(pieces@),
    ensures
        r@.len() == 64,
        forall|i: int| 0 <= i < 64 ==> #[trigger] r@[i] == space_at(pieces@, i),
{
    let mut board: Vec<Option<Piece>> = Vec::new();
    let mut k: usize = 0;
    while k < 64
        invariant
            0 <= k <= 64,
            board@.len() == k,
            forall|i: int| 0 <= i < k ==> #[trigger] board@[i] is None,
        decreases 64 - k,
    {
        board.push(None);
        k = k + 1;
    }
    let ghost s = pieces@;
    let mut j: usize = 0;
    assert(s.take(0) =~= Seq::<Piece>::empty());
    while j < pieces.len()
        invariant
            0 <= j <= s.len(),
            s == pieces@,
            all_valid(s),
            board@.len() == 64,
            forall|i: int| 0 <= i < 64 ==> #[trigger] board@[i] == space_at(s.take(j as int), i),
        decreases s.len() - j,
    {
        let piece = pieces[j];
        let idx = piece.get_position().arr_pos();
        board.set(idx, Some(piece));
        assert(s.take(j + 1).drop_last() =~= s.take(j as int));
        assert(s.take(j + 1).last() == piece);
        j = j + 1;
    }
    assert(s.take(j as int) =~= s);
    board
}

} // verus!
