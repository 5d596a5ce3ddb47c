use vstd::prelude::*;

use rand::seq::SliceRandom;

use crate::errors::Error;
use crate::pieces::{all_valid, mirrored_all, swap_positions, Piece};
use crate::position::Position;
use crate::targets::lemma_legal_lands;
use crate::{actions_to, Action};

verus! {

/// Index of the first piece of `s` standing on `p`; the length of `s` when
/// none does.
pub open spec fn index_on(s: Seq<Piece>, p: Position) -> int
    decreases s.len(),
{
    if s.len() == 0 {
        0
    } else if s[0].position() == p {
        0
    } else {
        1 + index_on(s.drop_first(), p)
    }
}

/// Whether a piece of `s` stands on `p`.
pub open spec fn occupied_by(s: Seq<Piece>, p: Position) -> bool {
    index_on(s, p) < s.len()
}

/// The first piece of `s` standing on `p`, if any.
pub open spec fn piece_on(s: Seq<Piece>, p: Position) -> Option<Piece> {
    if occupied_by(s, p) {
        Some(s[index_on(s, p)])
    } else {
        None
    }
}

/// `index_on` names the first piece on `p`, and there is one exactly when
/// some piece of `s` stands on `p`.
pub proof fn lemma_index_on(s: Seq<Piece>, p: Position)
    ensures
        0 <= index_on(s, p) <= s.len(),
        index_on(s, p) < s.len() ==> s[index_on(s, p)].position() == p,
        forall|i: int| 0 <= i < index_on(s, p) ==> (#[trigger] s[i]).position() != p,
        occupied_by(s, p) <==> exists|i: int| 0 <= i < s.len() && (#[trigger] s[i]).position() == p,
    decreases s.len(),
{
    if s.len() > 0 && s[0].position() != p {
        let t = s.drop_first();
        lemma_index_on(t, p);
        assert forall|i: int| 0 <= i < index_on(s, p) implies (#[trigger] s[i]).position() != p by {
            if i > 0 {
                assert(s[i] == t[i - 1]);
            }
        }
        if exists|i: int| 0 <= i < s.len() && (#[trigger] s[i]).position() == p {
            let i = choose|i: int| 0 <= i < s.len() && (#[trigger] s[i]).position() == p;
            assert(t[i - 1] == s[i]);
        }
    }
}

/// Index of the first piece of `pieces` standing on `pos`, or the number of
/// pieces when none does.
pub fn find_index(pieces: &Vec<Piece>, pos: Position) -> (r: usize)
    ensures
        r == index_on(pieces@, pos),
{
    let ghost s = pieces@;
    let mut i: usize = 0;
    assert(s.subrange(0, s.len() as int) =~= s);
    while i < pieces.len()
        invariant
            s == pieces@,
            0 <= i <= s.len(),
            index_on(s, pos) == i + index_on(s.subrange(i as int, s.len() as int), pos),
        decreases s.len() - i,
    {
        let ghost rest = s.subrange(i as int, s.len() as int);
        assert(rest[0] == s[i as int]);
        assert(rest.drop_first() =~= s.subrange(i + 1, s.len() as int));
        if pieces[i].get_position() == pos {
            return i;
        }
        i = i + 1;
    }
    i
}

/// No two pieces of `s` share a square.
pub open spec fn distinct_squares(s: Seq<Piece>) -> bool {
    forall|i: int, j: int|
        0 <= i < s.len() && 0 <= j < s.len() && i != j ==> (#[trigger] s[i]).position() != (
        #[trigger] s[j]).position()
}

/// No piece of `s` shares a square with a piece of `t`.
pub open spec fn apart(s: Seq<Piece>, t: Seq<Piece>) -> bool {
    forall|i: int, j: int|
        0 <= i < s.len() && 0 <= j < t.len() ==> (#[trigger] s[i]).position() != (
        #[trigger] t[j]).position()
}

/// Every piece of both sides stands on the board, and no two pieces share a square.
pub open spec fn well_formed(my: Seq<Piece>, enemy: Seq<Piece>) -> bool {
    &&& all_valid(my)
    &&& all_valid(enemy)
    &&& distinct_squares(my)
    &&& distinct_squares(enemy)
    &&& apart(my, enemy)
}

/// The actions of the pieces of `s` on board `b`: piece by piece in the order
/// of `s`, and for each piece its moves before its captures.
pub open spec fn actions_of(b: Board, s: Seq<Piece>) -> Seq<Action>
    decreases s.len(),
{
    if s.len() == 0 {
        Seq::empty()
    } else {
        actions_of(b, s.drop_last()) + actions_to(s.last().position(), s.last().actions(b))
    }
}

/// `s` without its first piece standing on `p`, if there is one.
pub open spec fn captured(s: Seq<Piece>, p: Position) -> Seq<Piece> {
    if occupied_by(s, p) {
        s.remove(index_on(s, p))
    } else {
        s
    }
}

/// `s` with its first piece standing on `from`, if there is one, moved to `to`.
pub open spec fn relocated(s: Seq<Piece>, from: Position, to: Position) -> Seq<Piece> {
    if occupied_by(s, from) {
        s.update(index_on(s, from), s[index_on(s, from)].placed(to))
    } else {
        s
    }
}

/// Relies on rand's `SliceRandom::choose`, driven by `rand::thread_rng`: it
/// returns `None` for an empty slice and otherwise one of its elements.
#[verifier::external_body]
fn choose_action(actions: &Vec<Action>) -> (r: Option<Action>)
    ensures
        r is None <==> actions@.len() == 0,
        r matches Some(a) ==> actions@.contains(a),
{
    actions.choose(&mut rand::thread_rng()).copied()
}

/// Reports whether `action` is one of `actions`.
fn contains_action(actions: &Vec<Action>, action: Action) -> (r: bool)
    ensures
        r == actions@.contains(action),
{
    let mut i: usize = 0;
    while i < actions.len()
        invariant
            0 <= i <= actions@.len(),
            forall|k: int| 0 <= k < i ==> actions@[k] != action,
        decreases actions@.len() - i,
    {
        if actions[i] == action {
            return true;
        }
        i = i + 1;
    }
    false
}

/// The pieces of both sides, seen from the side that is about to move.
pub struct Board {
    /// The side to move.
    pub my_pieces: Vec<Piece>,
    /// The opponent.
    pub enemy_pieces: Vec<Piece>,
}

impl Board {
    /// The actions available to the side to move.
    pub open spec fn legal(self) -> Seq<Action> {
        actions_of(self, self.my_pieces@)
    }

    /// Whether a piece of either side stands on `p`.
    pub open spec fn occupied(self, p: Position) -> bool {
        occupied_by(self.my_pieces@, p) || occupied_by(self.enemy_pieces@, p)
    }

    /// Whether a piece of the side to move may land on `p`: it lies on the
    /// board, and it is empty or the opponent holds it.
    pub open spec fn lands(self, p: Position) -> bool {
        p.valid() && (!self.occupied(p) || self.enemy_at(p))
    }

    /// The board's invariant: every piece stands on the board, and no two
    /// pieces, of either side, share a square.
    pub open spec fn wf(self) -> bool {
        well_formed(self.my_pieces@, self.enemy_pieces@)
    }

    /// Whether a piece of the opponent stands on `p`.
    pub open spec fn enemy_at(self, p: Position) -> bool {
        occupied_by(self.enemy_pieces@, p)
    }

    /// Holds on the squares that no piece occupies.
    pub open spec fn free_fn(self) -> spec_fn(Position) -> bool {
        |p: Position| !self.occupied(p)
    }

    /// Holds on the squares that the opponent occupies.
    pub open spec fn enemy_fn(self) -> spec_fn(Position) -> bool {
        |p: Position| self.enemy_at(p)
    }

    /// The piece on `p`, looking at the side to move first.
    pub open spec fn occupant(self, p: Position) -> Option<Piece> {
        if occupied_by(self.my_pieces@, p) {
            piece_on(self.my_pieces@, p)
        } else {
            piece_on(self.enemy_pieces@, p)
        }
    }

    /// The piece of the side to move standing on `position`, if any.
    pub fn my_collision(&self, position: Position) -> (r: Option<Piece>)
        ensures
            r == piece_on(self.my_pieces@, position),
    {
        let i = find_index(&self.my_pieces, position);
        if i < self.my_pieces.len() {
            Some(self.my_pieces[i])
        } else {
            None
        }
    }

    /// The piece of the opponent standing on `position`, if any.
    pub fn enemy_collision(&self, position: Position) -> (r: Option<Piece>)
        ensures
            r == piece_on(self.enemy_pieces@, position),
    {
        let i = find_index(&self.enemy_pieces, position);
        if i < self.enemy_pieces.len() {
            Some(self.enemy_pieces[i])
        } else {
            None
        }
    }

    /// The piece standing on `position`, looking at the side to move first.
    pub fn collision(&self, position: Position) -> (r: Option<Piece>)
        ensures
            r == self.occupant(position),
            r is Some <==> self.occupied(position),
    {
        match self.my_collision(position) {
            Some(piece) => Some(piece),
            None => self.enemy_collision(position),
        }
    }

    /// Every action available to the side to move: piece by piece in the
    /// order of `my_pieces`, and for each piece its moves before its captures.
    pub fn legal_actions(&self) -> (r: Vec<Action>)
        ensures
            r@ == self.legal(),
    {
        let ghost s = self.my_pieces@;
        let mut actions: Vec<Action> = Vec::new();
        let mut k: usize = 0;
        assert(s.take(0) =~= Seq::<Piece>::empty());
        while k < self.my_pieces.len()
            invariant
                s == self.my_pieces@,
                0 <= k <= s.len(),
                actions@ == actions_of(*self, s.take(k as int)),
            decreases s.len() - k,
        {
            let piece = self.my_pieces[k];
            let source = piece.get_position();
            let dests = piece.possible_actions(self);
            let ghost done = actions@;
            let mut j: usize = 0;
            assert(actions_to(source, dests@.take(0)) =~= Seq::<Action>::empty());
            assert(done + actions_to(source, dests@.take(0)) =~= done);
            while j < dests.len()
                invariant
                    0 <= j <= dests@.len(),
                    actions@ == done + actions_to(source, dests@.take(j as int)),
                decreases dests@.len() - j,
            {
                actions.push(Action::new(source, dests[j]));
                assert(actions_to(source, dests@.take(j + 1)) =~= actions_to(
                    source,
                    dests@.take(j as int),
                ).push(Action { source, destination: dests@[j as int] }));
                j = j + 1;
            }
            assert(dests@.take(j as int) =~= dests@);
            assert(s.take(k + 1).drop_last() =~= s.take(k as int));
            assert(s.take(k + 1).last() == piece);
            k = k + 1;
        }
        assert(s.take(k as int) =~= s);
        actions
    }

    /// Executes `action` when it is one of the legal actions: the opponent's
    /// piece on the destination, if any, is captured, and the moving piece is
    /// relocated to the destination. Any other action is refused with
    /// `InvalidAction`, leaving the board as it was.
    pub fn execute(&mut self, action: Action) -> (r: Result<(), Error>)
        ensures
            r is Ok <==> old(self).legal().contains(action),
            r is Ok ==> final(self).enemy_pieces@ == captured(
                old(self).enemy_pieces@,
                action.destination,
            ) && final(self).my_pieces@ == relocated(
                old(self).my_pieces@,
                action.source,
                action.destination,
            ),
            r is Err ==> r == Err::<(), Error>(Error::InvalidAction) && final(self).my_pieces@
                == old(self).my_pieces@ && final(self).enemy_pieces@ == old(self).enemy_pieces@,
            old(self).wf() ==> final(self).wf(),
    {
        let actions = self.legal_actions();
        if !contains_action(&actions, action) {
            return Err(Error::InvalidAction);
        }
        proof {
            if self.wf() {
                lemma_execute_keeps_wf(*self, action);
            }
        }
        let target = find_index(&self.enemy_pieces, action.destination);
        if target < self.enemy_pieces.len() {
            self.enemy_pieces.remove(target);
        }
        let mover = find_index(&self.my_pieces, action.source);
        if mover < self.my_pieces.len() {
            let mut piece = self.my_pieces[mover];
            piece.set_position(action.destination);
            self.my_pieces.set(mover, piece);
        }
        Ok(())
    }

    /// Hands the turn over: the two sides swap roles, and every square is
    /// re-expressed from the new side to move's edge of the board.
    pub fn swap_perspective(&mut self)
        requires
            all_valid(old(self).my_pieces@),
            all_valid(old(self).enemy_pieces@),
        ensures
            final(self).my_pieces@ == mirrored_all(old(self).enemy_pieces@),
            final(self).enemy_pieces@ == mirrored_all(old(self).my_pieces@),
            old(self).wf() ==> final(self).wf(),
    {
        proof {
            if self.wf() {
                lemma_swap_keeps_wf(*self);
            }
        }
        core::mem::swap(&mut self.my_pieces, &mut self.enemy_pieces);
        swap_positions(&mut self.my_pieces);
        swap_positions(&mut self.enemy_pieces);
    }

    /// Executes an action chosen at random among the legal ones, and returns
    /// it; returns `None`, leaving the board as it was, when there is none.
    pub fn play_random(&mut self) -> (r: Option<Action>)
        ensures
            r is None <==> old(self).legal().len() == 0,
            r is None ==> final(self).my_pieces@ == old(self).my_pieces@
                && final(self).enemy_pieces@ == old(self).enemy_pieces@,
            r matches Some(a) ==> old(self).legal().contains(a) && final(self).enemy_pieces@
                == captured(old(self).enemy_pieces@, a.destination) && final(self).my_pieces@
                == relocated(old(self).my_pieces@, a.source, a.destination),
            old(self).wf() ==> final(self).wf(),
    {
        let actions = self.legal_actions();
        match choose_action(&actions) {
            None => None,
            Some(action) => {
                let executed = self.execute(action);
                assert(executed is Ok);
                Some(action)
            },
        }
    }
}

/// Swapping perspective twice returns every piece to the square and the side
/// it started on: the first swap leaves a board that may be swapped again,
/// and mirroring a side twice gives the side back.
pub proof fn lemma_swap_perspective_twice(b: Board)
    requires
        all_valid(b.my_pieces@),
        all_valid(b.enemy_pieces@),
    ensures
        all_valid(mirrored_all(b.enemy_pieces@)),
        all_valid(mirrored_all(b.my_pieces@)),
        mirrored_all(mirrored_all(b.my_pieces@)) == b.my_pieces@,
        mirrored_all(mirrored_all(b.enemy_pieces@)) == b.enemy_pieces@,
{
    lemma_mirror_twice(b.my_pieces@);
    lemma_mirror_twice(b.enemy_pieces@);
}

proof fn lemma_mirror_twice(s: Seq<Piece>)
    requires
        all_valid(s),
    ensures
        all_valid(mirrored_all(s)),
        mirrored_all(mirrored_all(s)) == s,
{
    let m = mirrored_all(s);
    assert forall|i: int| 0 <= i < m.len() implies (#[trigger] m[i]).position().valid() by {
        assert(s[i].position().valid());
    }
    assert forall|i: int| 0 <= i < s.len() implies #[trigger] mirrored_all(m)[i] == s[i] by {
        assert(s[i].position().valid());
    }
    assert(mirrored_all(m) =~= s);
}

/// Executing a legal action keeps the board's invariant: the destination is
/// on the board and either empty or held by the opponent piece that the
/// action captures.
pub proof fn lemma_execute_keeps_wf(b: Board, action: Action)
    requires
        b.wf(),
        b.legal().contains(action),
    ensures
        well_formed(
            relocated(b.my_pieces@, action.source, action.destination),
            captured(b.enemy_pieces@, action.destination),
        ),
{
    let my = b.my_pieces@;
    let en = b.enemy_pieces@;
    let d = action.destination;
    lemma_legal_lands(b, my);
    let k = choose|k: int| 0 <= k < b.legal().len() && b.legal()[k] == action;
    assert(b.lands(b.legal()[k].destination));
    lemma_index_on(my, d);
    lemma_index_on(en, d);
    lemma_index_on(my, action.source);
    let my2 = relocated(my, action.source, d);
    let en2 = captured(en, d);
    // no piece of the side to move stands on the destination
    assert forall|i: int| 0 <= i < my.len() implies (#[trigger] my[i]).position() != d by {
        if b.enemy_at(d) {
            let j = index_on(en, d);
            assert(en[j].position() == d);
        }
    }
    // the opponent pieces left behind do not stand on the destination
    assert forall|j: int| 0 <= j < en2.len() implies (#[trigger] en2[j]).position() != d by {
        if occupied_by(en, d) {
            let jd = index_on(en, d);
            if j < jd {
                assert(en2[j] == en[j]);
            } else {
                assert(en2[j] == en[j + 1]);
                assert(en[jd].position() == d);
            }
        }
    }
    assert forall|i: int| 0 <= i < my2.len() implies (#[trigger] my2[i]).position().valid() by {
        assert(my[i].position().valid());
    }
    assert forall|j: int| 0 <= j < en2.len() implies (#[trigger] en2[j]).position().valid() by {
        if occupied_by(en, d) && j >= index_on(en, d) {
            assert(en2[j] == en[j + 1]);
        } else {
            assert(en2[j] == en[j]);
        }
    }
    assert forall|i: int, j: int|
        0 <= i < my2.len() && 0 <= j < my2.len() && i != j implies (#[trigger] my2[i]).position()
        != (#[trigger] my2[j]).position() by {
        assert(my[i].position() != my[j].position());
    }
    assert forall|i: int, j: int|
        0 <= i < en2.len() && 0 <= j < en2.len() && i != j implies (#[trigger] en2[i]).position()
        != (#[trigger] en2[j]).position() by {
        if occupied_by(en, d) {
            let jd = index_on(en, d);
            let i1 = if i < jd { i } else { i + 1 };
            let j1 = if j < jd { j } else { j + 1 };
            assert(en2[i] == en[i1]);
            assert(en2[j] == en[j1]);
            assert(en[i1].position() != en[j1].position());
        } else {
            assert(en[i].position() != en[j].position());
        }
    }
    assert forall|i: int, j: int| 0 <= i < my2.len() && 0 <= j < en2.len() implies (
    #[trigger] my2[i]).position() != (#[trigger] en2[j]).position() by {
        if occupied_by(en, d) {
            let jd = index_on(en, d);
            let j1 = if j < jd { j } else { j + 1 };
            assert(en2[j] == en[j1]);
            assert(my[i].position() != en[j1].position());
        } else {
            assert(my[i].position() != en[j].position());
        }
    }
}

/// Swapping perspective keeps the board's invariant: mirroring the ranks sends
/// distinct squares of the board to distinct squares of the board.
pub proof fn lemma_swap_keeps_wf(b: Board)
    requires
        b.wf(),
    ensures
        well_formed(mirrored_all(b.enemy_pieces@), mirrored_all(b.my_pieces@)),
{
    let my = b.my_pieces@;
    let en = b.enemy_pieces@;
    let m = mirrored_all(my);
    let e = mirrored_all(en);
    assert forall|i: int| 0 <= i < m.len() implies (#[trigger] m[i]).position().valid() by {
        assert(my[i].position().valid());
    }
    assert forall|i: int| 0 <= i < e.len() implies (#[trigger] e[i]).position().valid() by {
        assert(en[i].position().valid());
    }
    assert forall|i: int, j: int|
        0 <= i < m.len() && 0 <= j < m.len() && i != j implies (#[trigger] m[i]).position() != (
        #[trigger] m[j]).position() by {
        assert(my[i].position() != my[j].position());
        assert(my[i].position().valid() && my[j].position().valid());
    }
    assert forall|i: int, j: int|
        0 <= i < e.len() && 0 <= j < e.len() && i != j implies (#[trigger] e[i]).position() != (
        #[trigger] e[j]).position() by {
        assert(en[i].position() != en[j].position());
        assert(en[i].position().valid() && en[j].position().valid());
    }
    assert forall|i: int, j: int| 0 <= i < e.len() && 0 <= j < m.len() implies (
    #[trigger] e[i]).position() != (#[trigger] m[j]).position() by {
        assert(my[j].position() != en[i].position());
        assert(en[i].position().valid() && my[j].position().valid());
    }
}

} // verus!
