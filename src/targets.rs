//! Where the destinations of the piece rules lie: on the board, and either on
//! an empty square or on a square that the opponent holds.
use vstd::prelude::*;

use crate::board::{actions_of, Board};
use crate::pieces::king::{king_directions, steps};
use crate::pieces::knight::{knight_leaps, leap, leaps, Leap};
use crate::pieces::pawn::diagonal_capture;
use crate::pieces::Piece;
use crate::position::{Direction, Position};
use crate::ray::{lemma_take_free_members, lemma_walk_valid, take_free, walk};
use crate::slide::{first_target, keep, reach, slide_captures, slide_moves, slide_reach};

verus! {

/// Every square of `s` lies on the board.
pub open spec fn all_on_board(s: Seq<Position>) -> bool {
    forall|i: int| 0 <= i < s.len() ==> (#[trigger] s[i]).valid()
}

/// Every square of `s` is one that a piece of the side to move may land on.
pub open spec fn all_land(b: Board, s: Seq<Position>) -> bool {
    forall|i: int| 0 <= i < s.len() ==> b.lands(#[trigger] s[i])
}

proof fn lemma_land_concat(b: Board, s: Seq<Position>, t: Seq<Position>)
    requires
        all_land(b, s),
        all_land(b, t),
    ensures
        all_land(b, s + t),
{
    assert forall|i: int| 0 <= i < (s + t).len() implies b.lands(#[trigger] (s + t)[i]) by {
        if i >= s.len() {
            assert((s + t)[i] == t[i - s.len()]);
        }
    }
}

proof fn lemma_on_board_concat(s: Seq<Position>, t: Seq<Position>)
    requires
        all_on_board(s),
        all_on_board(t),
    ensures
        all_on_board(s + t),
{
    assert forall|i: int| 0 <= i < (s + t).len() implies (#[trigger] (s + t)[i]).valid() by {
        if i >= s.len() {
            assert((s + t)[i] == t[i - s.len()]);
        }
    }
}

/// The squares `keep` retains come from `s` and satisfy `f`.
proof fn lemma_keep(s: Seq<Position>, f: spec_fn(Position) -> bool)
    requires
        all_on_board(s),
    ensures
        all_on_board(keep(s, f)),
        forall|i: int| 0 <= i < keep(s, f).len() ==> f(#[trigger] keep(s, f)[i]),
    decreases s.len(),
{
    if s.len() > 0 {
        let t = s.drop_last();
        assert forall|i: int| 0 <= i < t.len() implies (#[trigger] t[i]).valid() by {
            assert(t[i] == s[i]);
        }
        lemma_keep(t, f);
        assert(s.last() == s[s.len() - 1]);
    }
}

proof fn lemma_first_target(b: Board, s: Seq<Position>)
    requires
        all_on_board(s),
    ensures
        all_land(b, first_target(b, s)),
    decreases s.len(),
{
    if s.len() > 0 && !b.enemy_at(s[0]) && !b.occupied(s[0]) {
        let t = s.drop_first();
        assert forall|i: int| 0 <= i < t.len() implies (#[trigger] t[i]).valid() by {
            assert(t[i] == s[i + 1]);
        }
        lemma_first_target(b, t);
    }
}

proof fn lemma_reach(b: Board, s: Seq<Position>)
    requires
        all_on_board(s),
    ensures
        all_on_board(reach(b, s)),
    decreases s.len(),
{
    if s.len() > 0 && !b.enemy_at(s[0]) && !b.occupied(s[0]) {
        let t = s.drop_first();
        assert forall|i: int| 0 <= i < t.len() implies (#[trigger] t[i]).valid() by {
            assert(t[i] == s[i + 1]);
        }
        lemma_reach(b, t);
        lemma_on_board_concat(seq![s[0]], reach(b, t));
    }
}

proof fn lemma_walk_on_board(p: Position, d: Direction)
    ensures
        all_on_board(walk(p, d)),
{
    lemma_walk_valid(p, d);
}

proof fn lemma_slide_moves(b: Board, p: Position, ds: Seq<Direction>)
    ensures
        all_land(b, slide_moves(b, p, ds)),
    decreases ds.len(),
{
    if ds.len() > 0 {
        lemma_slide_moves(b, p, ds.drop_last());
        let w = walk(p, ds.last());
        lemma_walk_on_board(p, ds.last());
        lemma_take_free_members(w, b.free_fn());
        let t = take_free(w, b.free_fn());
        assert forall|i: int| 0 <= i < t.len() implies b.lands(#[trigger] t[i]) by {
            assert(t[i] == w[i]);
        }
        lemma_land_concat(b, slide_moves(b, p, ds.drop_last()), t);
    }
}

proof fn lemma_slide_captures(b: Board, p: Position, ds: Seq<Direction>)
    ensures
        all_land(b, slide_captures(b, p, ds)),
    decreases ds.len(),
{
    if ds.len() > 0 {
        lemma_slide_captures(b, p, ds.drop_last());
        lemma_walk_on_board(p, ds.last());
        lemma_first_target(b, walk(p, ds.last()));
        lemma_land_concat(
            b,
            slide_captures(b, p, ds.drop_last()),
            first_target(b, walk(p, ds.last())),
        );
    }
}

proof fn lemma_slide_reach(b: Board, p: Position, ds: Seq<Direction>)
    ensures
        all_on_board(slide_reach(b, p, ds)),
    decreases ds.len(),
{
    if ds.len() > 0 {
        lemma_slide_reach(b, p, ds.drop_last());
        lemma_walk_on_board(p, ds.last());
        lemma_reach(b, walk(p, ds.last()));
        lemma_on_board_concat(slide_reach(b, p, ds.drop_last()), reach(b, walk(p, ds.last())));
    }
}

proof fn lemma_leaps(p: Position, js: Seq<Leap>)
    ensures
        all_on_board(leaps(p, js)),
    decreases js.len(),
{
    if js.len() > 0 {
        lemma_leaps(p, js.drop_last());
        lemma_on_board_concat(leaps(p, js.drop_last()), leap(p, js.last()));
    }
}

proof fn lemma_steps(p: Position, ds: Seq<Direction>)
    ensures
        all_on_board(steps(p, ds)),
    decreases ds.len(),
{
    if ds.len() > 0 {
        lemma_steps(p, ds.drop_last());
        let last = match p.moved(ds.last(), 1) {
            Ok(q) => seq![q],
            Err(_) => Seq::empty(),
        };
        lemma_on_board_concat(steps(p, ds.drop_last()), last);
    }
}

/// The squares kept from `s` by the free or the enemy filter are ones to land on.
proof fn lemma_keep_lands(b: Board, s: Seq<Position>)
    requires
        all_on_board(s),
    ensures
        all_land(b, keep(s, b.free_fn())),
        all_land(b, keep(s, b.enemy_fn())),
{
    lemma_keep(s, b.free_fn());
    lemma_keep(s, b.enemy_fn());
    let f = keep(s, b.free_fn());
    let e = keep(s, b.enemy_fn());
    assert forall|i: int| 0 <= i < f.len() implies b.lands(#[trigger] f[i]) by {
        assert((b.free_fn())(f[i]));
    }
    assert forall|i: int| 0 <= i < e.len() implies b.lands(#[trigger] e[i]) by {
        assert((b.enemy_fn())(e[i]));
    }
}

/// Every destination of a piece's moves and captures lies on the board, on an
/// empty square or on a square that the opponent holds.
pub proof fn lemma_piece_lands(piece: Piece, b: Board)
    ensures
        all_land(b, piece.actions(b)),
{
    match piece {
        Piece::Pawn(p) => {
            let up = diagonal_capture(b, p.position, Direction::UpLeft);
            let ur = diagonal_capture(b, p.position, Direction::UpRight);
            lemma_land_concat(b, up, ur);
            lemma_land_concat(b, p.moves(b), p.captures(b));
        },
        Piece::Rook(p) => {
            lemma_slide_moves(b, p.position, crate::pieces::rook::rook_directions());
            lemma_slide_captures(b, p.position, crate::pieces::rook::rook_directions());
            lemma_land_concat(b, p.moves(b), p.captures(b));
        },
        Piece::Bishop(p) => {
            lemma_slide_moves(b, p.position, crate::pieces::bishop::bishop_directions());
            lemma_slide_captures(b, p.position, crate::pieces::bishop::bishop_directions());
            lemma_land_concat(b, p.moves(b), p.captures(b));
        },
        Piece::Queen(p) => {
            lemma_slide_moves(b, p.position, crate::pieces::queen::queen_directions());
            lemma_slide_reach(b, p.position, crate::pieces::queen::queen_directions());
            lemma_keep_lands(b, p.threatened(b));
            lemma_land_concat(b, p.moves(b), p.captures(b));
        },
        Piece::Knight(p) => {
            lemma_leaps(p.position, knight_leaps());
            lemma_keep_lands(b, p.destinations_of());
            lemma_land_concat(b, p.moves(b), p.captures(b));
        },
        Piece::King(p) => {
            lemma_steps(p.position, king_directions());
            lemma_keep_lands(b, steps(p.position, king_directions()));
            lemma_land_concat(b, p.moves(b), Seq::empty());
        },
    }
}

/// Every legal action leads to a square on the board that is empty or held by
/// the opponent.
pub proof fn lemma_legal_lands(b: Board, s: Seq<Piece>)
    ensures
        forall|i: int|
            0 <= i < actions_of(b, s).len() ==> b.lands(
                (#[trigger] actions_of(b, s)[i]).destination,
            ),
    decreases s.len(),
{
    if s.len() > 0 {
        let head = actions_of(b, s.drop_last());
        let piece = s.last();
        let tail = crate::actions_to(piece.position(), piece.actions(b));
        lemma_legal_lands(b, s.drop_last());
        lemma_piece_lands(piece, b);
        assert forall|i: int| 0 <= i < actions_of(b, s).len() implies b.lands(
            (#[trigger] actions_of(b, s)[i]).destination,
        ) by {
            if i >= head.len() {
                assert(actions_of(b, s)[i] == tail[i - head.len()]);
                assert(tail[i - head.len()].destination == piece.actions(b)[i - head.len()]);
            } else {
                assert(actions_of(b, s)[i] == head[i]);
            }
        }
    }
}

} // verus!
