//! Rays: the squares met by stepping from a square in one direction up to the
//! edge of the board, and the actions found along them.
use vstd::prelude::*;

use crate::lines::{occupied_by, Piece};
use crate::position::{Direction, Position};
use crate::{actions_to, Action};

verus! {

/// How many more steps from `p` in direction `d` may still stay on the board;
/// it drops by one with each step taken.
pub open spec fn room(p: Position, d: Direction) -> int {
    if d.dy() > 0 {
        8 - p.y
    } else if d.dy() < 0 {
        p.y as int
    } else if d.dx() > 0 {
        8 - p.x
    } else {
        p.x as int
    }
}

/// The ray from `p` in direction `d`: the squares reached by stepping one
/// square at a time from `p` (excluded) until the edge of the board.
pub open spec fn walk(p: Position, d: Direction) -> Seq<Position>
    decreases room(p, d),
{
    match p.moved(d, 1) {
        Ok(q) => seq![q] + walk(q, d),
        Err(_) => Seq::empty(),
    }
}

/// The leading squares of `s` on which `free` holds, up to the first one on
/// which it does not.
pub open spec fn take_free(s: Seq<Position>, free: spec_fn(Position) -> bool) -> Seq<Position>
    decreases s.len(),
{
    if s.len() == 0 {
        Seq::empty()
    } else if free(s[0]) {
        seq![s[0]] + take_free(s.drop_first(), free)
    } else {
        Seq::empty()
    }
}

/// Every square of a ray lies on the board.
pub proof fn lemma_walk_valid(p: Position, d: Direction)
    ensures
        forall|i: int| 0 <= i < walk(p, d).len() ==> (#[trigger] walk(p, d)[i]).valid(),
    decreases room(p, d),
{
    if let Ok(q) = p.moved(d, 1) {
        lemma_walk_valid(q, d);
        assert forall|i: int| 0 <= i < walk(p, d).len() implies (#[trigger] walk(p, d)[i]).valid() by {
            if i > 0 {
                assert(walk(p, d)[i] == walk(q, d)[i - 1]);
            }
        }
    }
}

/// Every square of `take_free(s, free)` is a square of `s` on which `free` holds.
pub proof fn lemma_take_free_members(s: Seq<Position>, free: spec_fn(Position) -> bool)
    ensures
        take_free(s, free).len() <= s.len(),
        forall|i: int|
            0 <= i < take_free(s, free).len() ==> #[trigger] take_free(s, free)[i] == s[i] && free(
                s[i],
            ),
    decreases s.len(),
{
    if s.len() > 0 && free(s[0]) {
        lemma_take_free_members(s.drop_first(), free);
        let t = take_free(s, free);
        assert forall|i: int| 0 <= i < t.len() implies #[trigger] t[i] == s[i] && free(s[i]) by {
            if i > 0 {
                assert(t[i] == take_free(s.drop_first(), free)[i - 1]);
            }
        }
    }
}

/// The squares of the ray from `start` in `direction`, nearest first.
pub fn walk_direction(start: Position, direction: Direction) -> (r: Vec<Position>)
    ensures
        r@ == walk(start, direction),
{
    let mut r: Vec<Position> = Vec::new();
    let mut cur = start;
    loop
        invariant
            walk(start, direction) == r@ + walk(cur, direction),
        decreases room(cur, direction),
    {
        match cur.move_copy(direction, 1) {
            Ok(next) => {
                r.push(next);
                assert(walk(start, direction) == r@ + walk(next, direction)) by {
                    assert(r@ + walk(next, direction) =~= r@.drop_last() + (seq![next] + walk(
                        next,
                        direction,
                    )));
                }
                cur = next;
            },
            Err(_) => {
                assert(r@ + walk(cur, direction) =~= r@);
                return r;
            },
        }
    }
}

/// A line of squares from `start` in `direction`. `limit` records how many
/// squares the piece rule that produced the ray allows; walking the ray
/// (`positions`, `iter`, `move_actions`) always runs to the edge of the board.
#[derive(Clone, Copy, Debug, PartialEq, Eq, Structural)]
pub struct Ray {
    pub start: Position,
    pub direction: Direction,
    pub limit: usize,
}

/// Steps along a ray one square at a time.
#[derive(Clone, Copy, Debug, PartialEq, Eq, Structural)]
pub struct RayIterator {
    pub ray: Ray,
    pub index: usize,
    pub disposed: bool,
}

/// The actions that move the piece on `start` to each leading square of `w`
/// that no piece occupies.
pub open spec fn free_actions(
    start: Position,
    w: Seq<Position>,
    my_pieces: Seq<Piece>,
    enemy_pieces: Seq<Piece>,
) -> Seq<Action> {
    actions_to(start, take_free(w, unblocked(my_pieces, enemy_pieces)))
}

/// Holds on the squares that neither collection occupies.
pub open spec fn unblocked(my_pieces: Seq<Piece>, enemy_pieces: Seq<Piece>) -> spec_fn(
    Position,
) -> bool {
    |p: Position| !occupied_by(my_pieces, p) && !occupied_by(enemy_pieces, p)
}

impl Ray {
    pub fn new(start: Position, direction: Direction, limit: usize) -> (r: Ray)
        ensures
            r == (Ray { start, direction, limit }),
    {
        Ray { start, direction, limit }
    }

    pub fn new_from(x: usize, y: usize, direction: Direction, limit: usize) -> (r: Ray)
        ensures
            r == (Ray { start: Position { x, y }, direction, limit }),
    {
        Ray { start: Position::new(x, y), direction, limit }
    }

    /// The ray covering the single square `position`.
    pub fn new_point(position: Position) -> (r: Ray)
        ensures
            r == (Ray { start: position, direction: Direction::Up, limit: 1 }),
    {
        Ray { start: position, direction: Direction::Up, limit: 1 }
    }

    /// The squares beyond the start, nearest first, up to the edge of the board.
    pub fn positions(&self) -> (r: Vec<Position>)
        ensures
            r@ == walk(self.start, self.direction),
    {
        walk_direction(self.start, self.direction)
    }

    /// An iterator over the squares beyond the start, up to the edge of the board.
    pub fn iter(&self) -> (r: RayIterator)
        ensures
            r == (RayIterator { ray: *self, index: 1, disposed: false }),
    {
        RayIterator { ray: *self, index: 1, disposed: false }
    }

    /// Yields the actions that move the piece on the start of the ray to each
    /// square along it, up to the first square that a piece of either side
    /// occupies.
    pub fn move_actions(&self, my_pieces: &Vec<Piece>, enemy_pieces: &Vec<Piece>) -> (r: Vec<
        Action,
    >)
        ensures
            r@ == free_actions(self.start, walk(self.start, self.direction), my_pieces@, enemy_pieces@),
    {
        let w = self.positions();
        let ghost free = unblocked(my_pieces@, enemy_pieces@);
        let ghost mut d: Seq<Position> = Seq::empty();
        let mut r: Vec<Action> = Vec::new();
        let mut i: usize = 0;
        assert(w@.subrange(0, w@.len() as int) =~= w@);
        assert(d + take_free(w@, free) =~= take_free(w@, free));
        while i < w.len()
            invariant
                0 <= i <= w@.len(),
                free == unblocked(my_pieces@, enemy_pieces@),
                w@ == walk(self.start, self.direction),
                take_free(w@, free) == d + take_free(w@.subrange(i as int, w@.len() as int), free),
                r@ == actions_to(self.start, d),
            decreases w@.len() - i,
        {
            let pos = w[i];
            let ghost rest = w@.subrange(i as int, w@.len() as int);
            assert(rest[0] == pos);
            assert(rest.drop_first() =~= w@.subrange(i + 1, w@.len() as int));
            if has_collision(my_pieces, pos) || has_collision(enemy_pieces, pos) {
                assert(!free(pos));
                assert(take_free(rest, free) =~= Seq::<Position>::empty());
                assert(d + take_free(rest, free) =~= d);
                return r;
            }
            assert(free(pos));
            r.push(Action::new(self.start, pos));
            assert(d + take_free(rest, free) =~= d.push(pos) + take_free(
                w@.subrange(i + 1, w@.len() as int),
                free,
            ));
            proof {
                d = d.push(pos);
            }
            assert(r@ =~= actions_to(self.start, d));
            i = i + 1;
        }
        assert(d + take_free(w@.subrange(i as int, w@.len() as int), free) =~= d);
        r
    }
}

/// Reports whether a piece of `pieces` stands on `pos`.
fn has_collision(pieces: &Vec<Piece>, pos: Position) -> (r: bool)
    ensures
        r == occupied_by(pieces@, pos),
{
    let mut i: usize = 0;
    while i < pieces.len()
        invariant
            0 <= i <= pieces@.len(),
            forall|k: int| 0 <= k < i ==> !(#[trigger] pieces@[k]).stands_on(pos),
        decreases pieces@.len() - i,
    {
        if pieces[i].collides_with(pos) {
            return true;
        }
        i = i + 1;
    }
    false
}

impl RayIterator {
    /// The next square of the ray, or `None` once the ray has left the board.
    pub fn next(&mut self) -> (r: Option<Position>)
        requires
            old(self).ray.start.valid(),
        ensures
            old(self).disposed ==> r is None && *final(self) == *old(self),
            !old(self).disposed ==> match old(self).ray.start.moved(
                old(self).ray.direction,
                old(self).index as int,
            ) {
                Ok(p) => r == Some(p) && *final(self) == (RayIterator {
                    index: (old(self).index + 1) as usize,
                    ..*old(self)
                }),
                Err(_) => r is None && *final(self) == (RayIterator {
                    disposed: true,
                    ..*old(self)
                }),
            },
    {
        if self.disposed {
            return None;
        }
        match self.ray.start.move_copy(self.ray.direction, self.index) {
            Ok(pos) => {
                self.index = self.index + 1;
                Some(pos)
            },
            Err(_) => {
                self.disposed = true;
                None
            },
        }
    }
}

} // verus!
