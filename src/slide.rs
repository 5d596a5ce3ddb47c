//! Walking rays for the sliding pieces, and filtering squares by occupancy.
use vstd::prelude::*;

use crate::board::Board;
use crate::position::{Direction, Position};
use crate::ray::{take_free, walk, walk_direction};

verus! {

/// The first square of `s` that a piece occupies, when the opponent holds it.
pub open spec fn first_target(b: Board, s: Seq<Position>) -> Seq<Position>
    decreases s.len(),
{
    if s.len() == 0 {
        Seq::empty()
    } else if b.enemy_at(s[0]) {
        seq![s[0]]
    } else if b.occupied(s[0]) {
        Seq::empty()
    } else {
        first_target(b, s.drop_first())
    }
}

/// The squares of `s` up to the first occupied one, which is included when
/// the opponent holds it.
pub open spec fn reach(b: Board, s: Seq<Position>) -> Seq<Position>
    decreases s.len(),
{
    if s.len() == 0 {
        Seq::empty()
    } else if b.enemy_at(s[0]) {
        seq![s[0]]
    } else if b.occupied(s[0]) {
        Seq::empty()
    } else {
        seq![s[0]] + reach(b, s.drop_first())
    }
}

/// The squares of `s` on which `f` holds, in their order.
pub open spec fn keep(s: Seq<Position>, f: spec_fn(Position) -> bool) -> Seq<Position>
    decreases s.len(),
{
    if s.len() == 0 {
        Seq::empty()
    } else if f(s.last()) {
        keep(s.drop_last(), f).push(s.last())
    } else {
        keep(s.drop_last(), f)
    }
}

/// Empty squares reached from `p` along each direction of `ds` in turn.
pub open spec fn slide_moves(b: Board, p: Position, ds: Seq<Direction>) -> Seq<Position>
    decreases ds.len(),
{
    if ds.len() == 0 {
        Seq::empty()
    } else {
        slide_moves(b, p, ds.drop_last()) + take_free(walk(p, ds.last()), b.free_fn())
    }
}

/// Opponent squares that block the rays from `p` along each direction of `ds`.
pub open spec fn slide_captures(b: Board, p: Position, ds: Seq<Direction>) -> Seq<Position>
    decreases ds.len(),
{
    if ds.len() == 0 {
        Seq::empty()
    } else {
        slide_captures(b, p, ds.drop_last()) + first_target(b, walk(p, ds.last()))
    }
}

/// Squares threatened from `p` along each direction of `ds`.
pub open spec fn slide_reach(b: Board, p: Position, ds: Seq<Direction>) -> Seq<Position>
    decreases ds.len(),
{
    if ds.len() == 0 {
        Seq::empty()
    } else {
        slide_reach(b, p, ds.drop_last()) + reach(b, walk(p, ds.last()))
    }
}

/// The leading squares of `w` that no piece occupies.
fn free_run(board: &Board, w: &Vec<Position>) -> (r: Vec<Position>)
    ensures
        r@ == take_free(w@, board.free_fn()),
{
    let ghost free = board.free_fn();
    let mut r: Vec<Position> = Vec::new();
    let mut i: usize = 0;
    assert(w@.subrange(0, w@.len() as int) =~= w@);
    assert(r@ + take_free(w@, free) =~= take_free(w@, free));
    while i < w.len()
        invariant
            0 <= i <= w@.len(),
            free == board.free_fn(),
            take_free(w@, free) == r@ + take_free(w@.subrange(i as int, w@.len() as int), free),
        decreases w@.len() - i,
    {
        let pos = w[i];
        let ghost rest = w@.subrange(i as int, w@.len() as int);
        assert(rest[0] == pos);
        assert(rest.drop_first() =~= w@.subrange(i + 1, w@.len() as int));
        if board.collision(pos).is_some() {
            assert(!free(pos));
            assert(take_free(rest, free) =~= Seq::<Position>::empty());
            assert(r@ + take_free(rest, free) =~= r@);
            return r;
        }
        assert(free(pos));
        let ghost before = r@;
        r.push(pos);
        assert(before + take_free(rest, free) =~= r@ + take_free(
            w@.subrange(i + 1, w@.len() as int),
            free,
        ));
        i = i + 1;
    }
    assert(r@ + take_free(w@.subrange(i as int, w@.len() as int), free) =~= r@);
    r
}

/// The first occupied square of `w`, when the opponent holds it.
fn first_enemy(board: &Board, w: &Vec<Position>) -> (r: Vec<Position>)
    ensures
        r@ == first_target(*board, w@),
{
    let mut i: usize = 0;
    assert(w@.subrange(0, w@.len() as int) =~= w@);
    while i < w.len()
        invariant
            0 <= i <= w@.len(),
            first_target(*board, w@) == first_target(
                *board,
                w@.subrange(i as int, w@.len() as int),
            ),
        decreases w@.len() - i,
    {
        let pos = w[i];
        let ghost rest = w@.subrange(i as int, w@.len() as int);
        assert(rest[0] == pos);
        assert(rest.drop_first() =~= w@.subrange(i + 1, w@.len() as int));
        if board.enemy_collision(pos).is_some() {
            let r = vec![pos];
            assert(r@ =~= first_target(*board, rest));
            return r;
        }
        if board.collision(pos).is_some() {
            return Vec::new();
        }
        i = i + 1;
    }
    Vec::new()
}

/// The squares of `w` up to the first occupied one, which is included when
/// the opponent holds it.
fn reachable(board: &Board, w: &Vec<Position>) -> (r: Vec<Position>)
    ensures
        r@ == reach(*board, w@),
{
    let mut r: Vec<Position> = Vec::new();
    let mut i: usize = 0;
    assert(w@.subrange(0, w@.len() as int) =~= w@);
    assert(r@ + reach(*board, w@) =~= reach(*board, w@));
    while i < w.len()
        invariant
            0 <= i <= w@.len(),
            reach(*board, w@) == r@ + reach(*board, w@.subrange(i as int, w@.len() as int)),
        decreases w@.len() - i,
    {
        let pos = w[i];
        let ghost rest = w@.subrange(i as int, w@.len() as int);
        let ghost before = r@;
        assert(rest[0] == pos);
        assert(rest.drop_first() =~= w@.subrange(i + 1, w@.len() as int));
        if board.enemy_collision(pos).is_some() {
            r.push(pos);
            assert(before + reach(*board, rest) =~= r@);
            return r;
        }
        if board.collision(pos).is_some() {
            assert(before + reach(*board, rest) =~= r@);
            return r;
        }
        r.push(pos);
        assert(before + reach(*board, rest) =~= r@ + reach(
            *board,
            w@.subrange(i + 1, w@.len() as int),
        ));
        i = i + 1;
    }
    assert(r@ + reach(*board, w@.subrange(i as int, w@.len() as int)) =~= r@);
    r
}

/// For each direction in turn, the empty squares along the ray from
/// `position`, up to the first square that a piece of either side occupies.
pub fn sliding_moves(directions: &Vec<Direction>, position: Position, board: &Board) -> (r: Vec<
    Position,
>)
    ensures
        r@ == slide_moves(*board, position, directions@),
{
    let mut r: Vec<Position> = Vec::new();
    let mut k: usize = 0;
    assert(directions@.take(0) =~= Seq::<Direction>::empty());
    while k < directions.len()
        invariant
            0 <= k <= directions@.len(),
            r@ == slide_moves(*board, position, directions@.take(k as int)),
        decreases directions@.len() - k,
    {
        let w = walk_direction(position, directions[k]);
        let mut part = free_run(board, &w);
        assert(directions@.take(k + 1).drop_last() =~= directions@.take(k as int));
        r.append(&mut part);
        k = k + 1;
    }
    assert(directions@.take(k as int) =~= directions@);
    r
}

/// For each direction in turn, the first occupied square along the ray from
/// `position`, when the opponent holds it.
pub fn sliding_captures(directions: &Vec<Direction>, position: Position, board: &Board) -> (r: Vec<
    Position,
>)
    ensures
        r@ == slide_captures(*board, position, directions@),
{
    let mut r: Vec<Position> = Vec::new();
    let mut k: usize = 0;
    assert(directions@.take(0) =~= Seq::<Direction>::empty());
    while k < directions.len()
        invariant
            0 <= k <= directions@.len(),
            r@ == slide_captures(*board, position, directions@.take(k as int)),
        decreases directions@.len() - k,
    {
        let w = walk_direction(position, directions[k]);
        let mut part = first_enemy(board, &w);
        assert(directions@.take(k + 1).drop_last() =~= directions@.take(k as int));
        r.append(&mut part);
        k = k + 1;
    }
    assert(directions@.take(k as int) =~= directions@);
    r
}

/// For each direction in turn, the squares along the ray from `position` up
/// to the first occupied one, which is included when the opponent holds it.
pub fn raw_reachable(directions: &Vec<Direction>, position: Position, board: &Board) -> (r: Vec<
    Position,
>)
    ensures
        r@ == slide_reach(*board, position, directions@),
{
    let mut r: Vec<Position> = Vec::new();
    let mut k: usize = 0;
    assert(directions@.take(0) =~= Seq::<Direction>::empty());
    while k < directions.len()
        invariant
            0 <= k <= directions@.len(),
            r@ == slide_reach(*board, position, directions@.take(k as int)),
        decreases directions@.len() - k,
    {
        let w = walk_direction(position, directions[k]);
        let mut part = reachable(board, &w);
        assert(directions@.take(k + 1).drop_last() =~= directions@.take(k as int));
        r.append(&mut part);
        k = k + 1;
    }
    assert(directions@.take(k as int) =~= directions@);
    r
}

/// The squares of `s` that no piece occupies, in their order.
pub fn unoccupied(board: &Board, s: &Vec<Position>) -> (r: Vec<Position>)
    ensures
        r@ == keep(s@, board.free_fn()),
{
    let ghost f = board.free_fn();
    let mut r: Vec<Position> = Vec::new();
    let mut i: usize = 0;
    assert(s@.take(0) =~= Seq::<Position>::empty());
    while i < s.len()
        invariant
            0 <= i <= s@.len(),
            f == board.free_fn(),
            r@ == keep(s@.take(i as int), f),
        decreases s@.len() - i,
    {
        let pos = s[i];
        assert(s@.take(i + 1).drop_last() =~= s@.take(i as int));
        assert(s@.take(i + 1).last() == pos);
        if board.collision(pos).is_none() {
            r.push(pos);
        }
        i = i + 1;
    }
    assert(s@.take(i as int) =~= s@);
    r
}

/// The squares of `s` that the opponent occupies, in their order.
pub fn enemy_held(board: &Board, s: &Vec<Position>) -> (r: Vec<Position>)
    ensures
        r@ == keep(s@, board.enemy_fn()),
{
    let ghost f = board.enemy_fn();
    let mut r: Vec<Position> = Vec::new();
    let mut i: usize = 0;
    assert(s@.take(0) =~= Seq::<Position>::empty());
    while i < s.len()
        invariant
            0 <= i <= s@.len(),
            f == board.enemy_fn(),
            r@ == keep(s@.take(i as int), f),
        decreases s@.len() - i,
    {
        let pos = s[i];
        assert(s@.take(i + 1).drop_last() =~= s@.take(i as int));
        assert(s@.take(i + 1).last() == pos);
        if board.enemy_collision(pos).is_some() {
            r.push(pos);
        }
        i = i + 1;
    }
    assert(s@.take(i as int) =~= s@);
    r
}

proof fn lemma_keep_concat(s: Seq<Position>, t: Seq<Position>, f: spec_fn(Position) -> bool)
    ensures
        keep(s + t, f) == keep(s, f) + keep(t, f),
    decreases t.len(),
{
    if t.len() == 0 {
        assert(s + t =~= s);
        assert(keep(s, f) + keep(t, f) =~= keep(s, f));
    } else {
        lemma_keep_concat(s, t.drop_last(), f);
        assert((s + t).drop_last() =~= s + t.drop_last());
        assert((s + t).last() == t.last());
        if f(t.last()) {
            assert(keep(s, f) + keep(t.drop_last(), f).push(t.last()) =~= (keep(s, f) + keep(
                t.drop_last(),
                f,
            )).push(t.last()));
        }
    }
}

proof fn lemma_reach_keeps_target(b: Board, s: Seq<Position>)
    ensures
        keep(reach(b, s), b.enemy_fn()) == first_target(b, s),
    decreases s.len(),
{
    let f = b.enemy_fn();
    if s.len() > 0 {
        let one = seq![s[0]];
        assert(one.drop_last() =~= Seq::<Position>::empty());
        assert(keep(Seq::<Position>::empty(), f) =~= Seq::<Position>::empty());
        if b.enemy_at(s[0]) {
            assert(keep(one, f) =~= one);
        } else if !b.occupied(s[0]) {
            lemma_reach_keeps_target(b, s.drop_first());
            lemma_keep_concat(one, reach(b, s.drop_first()), f);
            assert(keep(one, f) =~= Seq::<Position>::empty());
            assert(keep(one, f) + first_target(b, s.drop_first()) =~= first_target(
                b,
                s.drop_first(),
            ));
        }
    }
}

/// Walking the rays up to what blocks them and keeping the squares the
/// opponent holds gives exactly the sliding captures: along each direction,
/// the first blocker, when it belongs to the opponent.
pub proof fn lemma_reach_then_filter_is_captures(b: Board, p: Position, ds: Seq<Direction>)
    ensures
        keep(slide_reach(b, p, ds), b.enemy_fn()) == slide_captures(b, p, ds),
    decreases ds.len(),
{
    if ds.len() > 0 {
        lemma_reach_then_filter_is_captures(b, p, ds.drop_last());
        lemma_reach_keeps_target(b, walk(p, ds.last()));
        lemma_keep_concat(
            slide_reach(b, p, ds.drop_last()),
            reach(b, walk(p, ds.last())),
            b.enemy_fn(),
        );
    }
}

} // verus!
