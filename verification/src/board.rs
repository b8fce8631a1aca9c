//! The board graph: spaces, directed transitions between them, and the
//! per-space effect tag. A board is immutable once built; every phase of a
//! match reads the same board.

use crate::tputil::Point2D;
use vstd::prelude::*;

verus! {

/// Identifier of a space on the board.
pub type SpaceID = usize;

/// The effect a space applies when a move ends on it.
#[derive(Copy, Clone, PartialEq, Eq, Structural, Debug)]
pub enum SpaceType {
    Positive,
    Negative,
}

/// A directed edge to another space.
#[derive(Copy, Clone, PartialEq, Eq, Structural, Debug)]
pub struct SpaceTransition {
    pub to: SpaceID,
}

/// One space: identity, outgoing edges, a position used for movement
/// timing and steering geometry, and the effect tag.
#[derive(Debug)]
pub struct Space {
    pub id: SpaceID,
    pub transitions: Vec<SpaceTransition>,
    pub pos: Point2D,
    pub space_type: SpaceType,
}

/// An ordered collection of spaces with unique ids whose transitions all
/// resolve to spaces of the same board.
#[derive(Debug)]
pub struct Board {
    pub spaces: Vec<Space>,
}

impl Board {
    /// Whether some space of this board carries `id`.
    pub open spec fn has_space(self, id: SpaceID) -> bool {
        exists|n: int| 0 <= n < self.spaces@.len() && (#[trigger] self.spaces@[n]).id == id
    }

    /// Index of the space carrying `id` (unique on a well-formed board).
    pub open spec fn idx_of(self, id: SpaceID) -> int {
        choose|n: int| 0 <= n < self.spaces@.len() && (#[trigger] self.spaces@[n]).id == id
    }

    /// The space carrying `id` (meaningful when `has_space(id)`).
    pub open spec fn space_of(self, id: SpaceID) -> Space {
        self.spaces@[self.idx_of(id)]
    }

    /// Space ids are pairwise distinct.
    pub open spec fn ids_unique(self) -> bool {
        forall|i: int, j: int|
            0 <= i < j < self.spaces@.len() ==> (#[trigger] self.spaces@[i]).id != (
            #[trigger] self.spaces@[j]).id
    }

    /// Every transition's destination id resolves to a space of this board.
    pub open spec fn transitions_resolve(self) -> bool {
        forall|i: int, k: int|
            0 <= i < self.spaces@.len() && 0 <= k < self.spaces@[i].transitions@.len()
                ==> self.has_space((#[trigger] self.spaces@[i].transitions@[k]).to)
    }

    /// Every position fits the fixed-point coordinate range.
    pub open spec fn positions_bounded(self) -> bool {
        forall|i: int|
            0 <= i < self.spaces@.len() ==> (#[trigger] self.spaces@[i]).pos.in_bounds()
    }

    /// The board invariant: unique ids, resolving transitions, bounded
    /// positions.
    pub open spec fn wf(self) -> bool {
        &&& self.ids_unique()
        &&& self.transitions_resolve()
        &&& self.positions_bounded()
    }

    /// On a well-formed board two spaces with the same id are the same
    /// entry; in particular any contained space with id `id` is
    /// `space_of(id)`.
    pub proof fn lemma_space_of(self, n: int)
        requires
            self.wf(),
            0 <= n < self.spaces@.len(),
        ensures
            self.has_space(self.spaces@[n].id),
            self.space_of(self.spaces@[n].id) == self.spaces@[n],
            self.idx_of(self.spaces@[n].id) == n,
    {
        let id = self.spaces@[n].id;
        assert(self.has_space(id));
        let m = self.idx_of(id);
        if m != n {
            if m < n {
                assert(self.spaces@[m].id != self.spaces@[n].id);
            } else {
                assert(self.spaces@[n].id != self.spaces@[m].id);
            }
        }
    }

    /// Looks a space up by id: `Some` exactly when the id resolves, and
    /// the returned space is the board's entry for that id.
    pub fn get_space(&self, id: SpaceID) -> (r: Option<&Space>)
        ensures
            r.is_some() == self.has_space(id),
            match r {
                Some(s) => {
                    &&& s.id == id
                    &&& exists|n: int|
                        0 <= n < self.spaces@.len() && *s == #[trigger] self.spaces@[n]
                    &&& self.wf() ==> *s == self.space_of(id)
                },
                None => !self.has_space(id),
            },
    {
        let mut i: usize = 0;
        while i < self.spaces.len()
            invariant
                i <= self.spaces@.len(),
                forall|j: int| 0 <= j < i ==> (#[trigger] self.spaces@[j]).id != id,
            decreases self.spaces@.len() - i,
        {
            if self.spaces[i].id == id {
                proof {
                    if self.wf() {
                        self.lemma_space_of(i as int);
                    }
                }
                return Some(&self.spaces[i]);
            }
            i += 1;
        }
        None
    }

    /// Looks up a space that is known to exist on a well-formed board.
    pub fn space_ref(&self, id: SpaceID) -> (r: &Space)
        requires
            self.wf(),
            self.has_space(id),
        ensures
            *r == self.space_of(id),
            r.id == id,
    {
        let mut i: usize = 0;
        while i < self.spaces.len()
            invariant
                self.wf(),
                self.has_space(id),
                i <= self.spaces@.len(),
                forall|j: int| 0 <= j < i ==> (#[trigger] self.spaces@[j]).id != id,
            decreases self.spaces@.len() - i,
        {
            if self.spaces[i].id == id {
                proof {
                    self.lemma_space_of(i as int);
                }
                return &self.spaces[i];
            }
            i += 1;
        }
        proof {
            let n = choose|n: int|
                0 <= n < self.spaces@.len() && (#[trigger] self.spaces@[n]).id == id;
            assert(false);
        }
        &self.spaces[0]
    }

    /// Some space of this board steps directly from `a` to `c`.
    pub open spec fn steps_to(self, a: SpaceID, c: SpaceID) -> bool {
        exists|i: int, k: int|
            0 <= i < self.spaces@.len() && 0 <= k < self.spaces@[i].transitions@.len()
                && self.spaces@[i].id == a && (#[trigger] self.spaces@[i].transitions@[k]).to == c
    }

    /// `p` is a chain of direct steps on this board.
    pub open spec fn is_path(self, p: Seq<SpaceID>) -> bool {
        forall|m: int| 0 <= m < p.len() - 1 ==> self.steps_to(#[trigger] p[m], p[m + 1])
    }

    /// `to` can be reached from `from` along transitions of this board.
    pub open spec fn reachable(self, from: SpaceID, to: SpaceID) -> bool {
        exists|p: Seq<SpaceID>|
            #[trigger] self.is_path(p) && p.len() >= 1 && p.first() == from && p.last() == to
    }

    /// Every space reaches itself.
    pub proof fn lemma_reachable_refl(self, a: SpaceID)
        ensures
            self.reachable(a, a),
    {
        let p = seq![a];
        assert(self.is_path(p));
    }

    /// The `k`-th transition out of the `i`-th space is a direct step.
    pub proof fn lemma_step(self, i: int, k: int)
        requires
            0 <= i < self.spaces@.len(),
            0 <= k < self.spaces@[i].transitions@.len(),
        ensures
            self.steps_to(self.spaces@[i].id, self.spaces@[i].transitions@[k].to),
    {
        assert(0 <= i < self.spaces@.len() && 0 <= k < self.spaces@[i].transitions@.len()
            && self.spaces@[i].id == self.spaces@[i].id && (
        #[trigger] self.spaces@[i].transitions@[k]).to == self.spaces@[i].transitions@[k].to);
    }

    /// Extends reachability from `from` along the `k`-th transition out
    /// of the `i`-th space.
    pub proof fn lemma_reach_edge(self, from: SpaceID, i: int, k: int)
        requires
            0 <= i < self.spaces@.len(),
            0 <= k < self.spaces@[i].transitions@.len(),
            self.reachable(from, self.spaces@[i].id),
        ensures
            self.reachable(from, self.spaces@[i].transitions@[k].to),
    {
        self.lemma_step(i, k);
        self.lemma_reachable_step(from, self.spaces@[i].id, self.spaces@[i].transitions@[k].to);
    }

    /// Reachability extends along one more transition.
    pub proof fn lemma_reachable_step(self, from: SpaceID, mid: SpaceID, to: SpaceID)
        requires
            self.reachable(from, mid),
            self.steps_to(mid, to),
        ensures
            self.reachable(from, to),
    {
        let p = choose|p: Seq<SpaceID>|
            #[trigger] self.is_path(p) && p.len() >= 1 && p.first() == from && p.last() == mid;
        let q = p.push(to);
        assert forall|m: int| 0 <= m < q.len() - 1 implies self.steps_to(
            #[trigger] q[m],
            q[m + 1],
        ) by {
            if m < p.len() - 1 {
                assert(q[m] == p[m] && q[m + 1] == p[m + 1]);
                assert(self.steps_to(p[m], p[m + 1]));
            } else {
                assert(q[m] == p.last() && q[m + 1] == to);
            }
        }
        assert(self.is_path(q) && q.first() == from && q.last() == to);
    }

    /// Breadth-first connectivity check: when it returns true, every space
    /// of the board is reachable from `from`.
    pub fn check_all_reachable(&self, from: SpaceID) -> (r: bool)
        ensures
            r ==> forall|j: int|
                0 <= j < self.spaces@.len() ==> self.reachable(
                    from,
                    (#[trigger] self.spaces@[j]).id,
                ),
    {
        let mut queue: Vec<SpaceID> = Vec::new();
        queue.push(from);
        proof {
            self.lemma_reachable_refl(from);
        }
        let mut qi: usize = 0;
        while qi < queue.len() && qi < self.spaces.len()
            invariant
                qi <= queue@.len(),
                queue@.len() >= 1,
                forall|a: int|
                    0 <= a < queue@.len() ==> self.reachable(from, #[trigger] queue@[a]),
            decreases self.spaces@.len() - qi,
        {
            let current: SpaceID = queue[qi];
            let found = self.get_space(current);
            match found {
                None => {},
                Some(space) => {
                    let ghost n = choose|n: int|
                        0 <= n < self.spaces@.len() && *space == #[trigger] self.spaces@[n];
                    let mut k: usize = 0;
                    while k < space.transitions.len()
                        invariant
                            0 <= n < self.spaces@.len(),
                            *space == self.spaces@[n],
                            space.id == current,
                            qi < queue@.len(),
                            self.reachable(from, current),
                            forall|a: int|
                                0 <= a < queue@.len() ==> self.reachable(
                                    from,
                                    #[trigger] queue@[a],
                                ),
                            queue@.len() >= 1,
                        decreases space.transitions@.len() - k,
                    {
                        let c: SpaceID = space.transitions[k].to;
                        let mut seen = false;
                        let mut t: usize = 0;
                        while t < queue.len()
                            invariant
                                t <= queue@.len(),
                            decreases queue@.len() - t,
                        {
                            if queue[t] == c {
                                seen = true;
                            }
                            t += 1;
                        }
                        if !seen {
                            proof {
                                assert(self.steps_to(current, c));
                                self.lemma_reachable_step(from, current, c);
                            }
                            queue.push(c);
                        }
                        k += 1;
                    }
                },
            }
            qi += 1;
        }
        let mut j: usize = 0;
        let mut all = true;
        while j < self.spaces.len()
            invariant
                j <= self.spaces@.len(),
                forall|a: int|
                    0 <= a < queue@.len() ==> self.reachable(from, #[trigger] queue@[a]),
                all ==> forall|jj: int|
                    0 <= jj < j ==> self.reachable(from, (#[trigger] self.spaces@[jj]).id),
            decreases self.spaces@.len() - j,
        {
            let id: SpaceID = self.spaces[j].id;
            let mut seen = false;
            let mut t: usize = 0;
            while t < queue.len()
                invariant
                    t <= queue@.len(),
                    forall|a: int|
                        0 <= a < queue@.len() ==> self.reachable(from, #[trigger] queue@[a]),
                    seen ==> self.reachable(from, id),
                decreases queue@.len() - t,
            {
                if queue[t] == id {
                    seen = true;
                }
                t += 1;
            }
            if !seen {
                all = false;
            }
            j += 1;
        }
        all
    }

    /// The board every match plays on: a 30-space loop with two branch
    /// points and two shortcut lanes.
    pub fn get_default_board() -> (b: Board)
        ensures
            b.wf(),
            default_board_shape(b),
            b.spaces@.len() == 30,
            forall|i: int| 0 <= i < 30 ==> (#[trigger] b.spaces@[i]).id == i,
            forall|j: int| 0 <= j < 30 ==> b.reachable(0, (#[trigger] b.spaces@[j]).id),
    {
        let mut spaces: Vec<Space> = Vec::new();
        spaces.push(sp(0, 20000, 20000, SpaceType::Positive, t1(1)));
        spaces.push(sp(1, 16000, 20000, SpaceType::Positive, t1(2)));
        spaces.push(sp(2, 12000, 20000, SpaceType::Positive, t2(3, 13)));
        spaces.push(sp(3, 9000, 20000, SpaceType::Negative, t1(4)));
        spaces.push(sp(4, 5000, 20000, SpaceType::Positive, t1(5)));
        spaces.push(sp(5, 1000, 20000, SpaceType::Positive, t1(6)));
        spaces.push(sp(6, -3000, 20000, SpaceType::Positive, t1(7)));
        spaces.push(sp(7, -3000, 16000, SpaceType::Negative, t1(8)));
        spaces.push(sp(8, -3000, 12000, SpaceType::Positive, t1(9)));
        spaces.push(sp(9, -3000, 8000, SpaceType::Positive, t1(10)));
        spaces.push(sp(10, -3000, 4000, SpaceType::Positive, t1(11)));
        spaces.push(sp(11, -3000, 0, SpaceType::Negative, t1(12)));
        spaces.push(sp(12, 0, 0, SpaceType::Positive, t1(18)));
        spaces.push(sp(13, 9000, 17000, SpaceType::Positive, t1(14)));
        spaces.push(sp(14, 6000, 14000, SpaceType::Negative, t1(15)));
        spaces.push(sp(15, 3000, 11000, SpaceType::Positive, t1(16)));
        spaces.push(sp(16, 3000, 7000, SpaceType::Positive, t1(17)));
        spaces.push(sp(17, 3000, 3000, SpaceType::Positive, t1(18)));
        spaces.push(sp(18, 3000, 0, SpaceType::Positive, t1(19)));
        spaces.push(sp(19, 7000, 0, SpaceType::Positive, t1(20)));
        spaces.push(sp(20, 11000, 0, SpaceType::Positive, t2(21, 26)));
        spaces.push(sp(21, 15000, 0, SpaceType::Positive, t1(22)));
        spaces.push(sp(22, 19000, 0, SpaceType::Negative, t1(23)));
        spaces.push(sp(23, 22000, 0, SpaceType::Positive, t1(24)));
        spaces.push(sp(24, 22000, 4000, SpaceType::Positive, t1(25)));
        spaces.push(sp(25, 22000, 8000, SpaceType::Positive, t1(28)));
        spaces.push(sp(26, 15000, 4000, SpaceType::Positive, t1(27)));
        spaces.push(sp(27, 18000, 7000, SpaceType::Positive, t1(25)));
        spaces.push(sp(28, 22000, 11000, SpaceType::Negative, t1(29)));
        spaces.push(sp(29, 22000, 15000, SpaceType::Positive, t1(0)));
        let b = Board { spaces };
        proof {
            lemma_default_board_wf(b);
            b.lemma_reachable_refl(0);
            b.lemma_reach_edge(0, 0, 0);
            b.lemma_reach_edge(0, 1, 0);
            b.lemma_reach_edge(0, 2, 0);
            b.lemma_reach_edge(0, 2, 1);
            b.lemma_reach_edge(0, 3, 0);
            b.lemma_reach_edge(0, 4, 0);
            b.lemma_reach_edge(0, 5, 0);
            b.lemma_reach_edge(0, 6, 0);
            b.lemma_reach_edge(0, 7, 0);
            b.lemma_reach_edge(0, 8, 0);
            b.lemma_reach_edge(0, 9, 0);
            b.lemma_reach_edge(0, 10, 0);
            b.lemma_reach_edge(0, 11, 0);
            b.lemma_reach_edge(0, 12, 0);
            b.lemma_reach_edge(0, 13, 0);
            b.lemma_reach_edge(0, 14, 0);
            b.lemma_reach_edge(0, 15, 0);
            b.lemma_reach_edge(0, 16, 0);
            b.lemma_reach_edge(0, 18, 0);
            b.lemma_reach_edge(0, 19, 0);
            b.lemma_reach_edge(0, 20, 0);
            b.lemma_reach_edge(0, 20, 1);
            b.lemma_reach_edge(0, 21, 0);
            b.lemma_reach_edge(0, 22, 0);
            b.lemma_reach_edge(0, 23, 0);
            b.lemma_reach_edge(0, 24, 0);
            b.lemma_reach_edge(0, 25, 0);
            b.lemma_reach_edge(0, 26, 0);
            b.lemma_reach_edge(0, 28, 0);
            assert forall|j: int| 0 <= j < 30 implies b.reachable(
                0,
                (#[trigger] b.spaces@[j]).id,
            ) by {
                assert(b.spaces@[j].id == j);
            }
        }
        b
    }
}

/// The shipped board layout, space by space: ids in order, the original
/// positions at 1000x fixed point, each space's effect tag and exits.
pub open spec fn default_board_shape(b: Board) -> bool {
    &&& b.spaces@.len() == 30
    &&& b.spaces@[0].id == 0 && b.spaces@[0].pos == (Point2D { x: 20000, y: 20000 }) && b.spaces@[0].space_type == SpaceType::Positive && b.spaces@[0].transitions@.len() == 1 && b.spaces@[0].transitions@[0].to == 1
    &&& b.spaces@[1].id == 1 && b.spaces@[1].pos == (Point2D { x: 16000, y: 20000 }) && b.spaces@[1].space_type == SpaceType::Positive && b.spaces@[1].transitions@.len() == 1 && b.spaces@[1].transitions@[0].to == 2
    &&& b.spaces@[2].id == 2 && b.spaces@[2].pos == (Point2D { x: 12000, y: 20000 }) && b.spaces@[2].space_type == SpaceType::Positive && b.spaces@[2].transitions@.len() == 2 && b.spaces@[2].transitions@[0].to == 3 && b.spaces@[2].transitions@[1].to == 13
    &&& b.spaces@[3].id == 3 && b.spaces@[3].pos == (Point2D { x: 9000, y: 20000 }) && b.spaces@[3].space_type == SpaceType::Negative && b.spaces@[3].transitions@.len() == 1 && b.spaces@[3].transitions@[0].to == 4
    &&& b.spaces@[4].id == 4 && b.spaces@[4].pos == (Point2D { x: 5000, y: 20000 }) && b.spaces@[4].space_type == SpaceType::Positive && b.spaces@[4].transitions@.len() == 1 && b.spaces@[4].transitions@[0].to == 5
    &&& b.spaces@[5].id == 5 && b.spaces@[5].pos == (Point2D { x: 1000, y: 20000 }) && b.spaces@[5].space_type == SpaceType::Positive && b.spaces@[5].transitions@.len() == 1 && b.spaces@[5].transitions@[0].to == 6
    &&& b.spaces@[6].id == 6 && b.spaces@[6].pos == (Point2D { x: -3000 as i64, y: 20000 }) && b.spaces@[6].space_type == SpaceType::Positive && b.spaces@[6].transitions@.len() == 1 && b.spaces@[6].transitions@[0].to == 7
    &&& b.spaces@[7].id == 7 && b.spaces@[7].pos == (Point2D { x: -3000 as i64, y: 16000 }) && b.spaces@[7].space_type == SpaceType::Negative && b.spaces@[7].transitions@.len() == 1 && b.spaces@[7].transitions@[0].to == 8
    &&& b.spaces@[8].id == 8 && b.spaces@[8].pos == (Point2D { x: -3000 as i64, y: 12000 }) && b.spaces@[8].space_type == SpaceType::Positive && b.spaces@[8].transitions@.len() == 1 && b.spaces@[8].transitions@[0].to == 9
    &&& b.spaces@[9].id == 9 && b.spaces@[9].pos == (Point2D { x: -3000 as i64, y: 8000 }) && b.spaces@[9].space_type == SpaceType::Positive && b.spaces@[9].transitions@.len() == 1 && b.spaces@[9].transitions@[0].to == 10
    &&& b.spaces@[10].id == 10 && b.spaces@[10].pos == (Point2D { x: -3000 as i64, y: 4000 }) && b.spaces@[10].space_type == SpaceType::Positive && b.spaces@[10].transitions@.len() == 1 && b.spaces@[10].transitions@[0].to == 11
    &&& b.spaces@[11].id == 11 && b.spaces@[11].pos == (Point2D { x: -3000 as i64, y: 0 }) && b.spaces@[11].space_type == SpaceType::Negative && b.spaces@[11].transitions@.len() == 1 && b.spaces@[11].transitions@[0].to == 12
    &&& b.spaces@[12].id == 12 && b.spaces@[12].pos == (Point2D { x: 0, y: 0 }) && b.spaces@[12].space_type == SpaceType::Positive && b.spaces@[12].transitions@.len() == 1 && b.spaces@[12].transitions@[0].to == 18
    &&& b.spaces@[13].id == 13 && b.spaces@[13].pos == (Point2D { x: 9000, y: 17000 }) && b.spaces@[13].space_type == SpaceType::Positive && b.spaces@[13].transitions@.len() == 1 && b.spaces@[13].transitions@[0].to == 14
    &&& b.spaces@[14].id == 14 && b.spaces@[14].pos == (Point2D { x: 6000, y: 14000 }) && b.spaces@[14].space_type == SpaceType::Negative && b.spaces@[14].transitions@.len() == 1 && b.spaces@[14].transitions@[0].to == 15
    &&& b.spaces@[15].id == 15 && b.spaces@[15].pos == (Point2D { x: 3000, y: 11000 }) && b.spaces@[15].space_type == SpaceType::Positive && b.spaces@[15].transitions@.len() == 1 && b.spaces@[15].transitions@[0].to == 16
    &&& b.spaces@[16].id == 16 && b.spaces@[16].pos == (Point2D { x: 3000, y: 7000 }) && b.spaces@[16].space_type == SpaceType::Positive && b.spaces@[16].transitions@.len() == 1 && b.spaces@[16].transitions@[0].to == 17
    &&& b.spaces@[17].id == 17 && b.spaces@[17].pos == (Point2D { x: 3000, y: 3000 }) && b.spaces@[17].space_type == SpaceType::Positive && b.spaces@[17].transitions@.len() == 1 && b.spaces@[17].transitions@[0].to == 18
    &&& b.spaces@[18].id == 18 && b.spaces@[18].pos == (Point2D { x: 3000, y: 0 }) && b.spaces@[18].space_type == SpaceType::Positive && b.spaces@[18].transitions@.len() == 1 && b.spaces@[18].transitions@[0].to == 19
    &&& b.spaces@[19].id == 19 && b.spaces@[19].pos == (Point2D { x: 7000, y: 0 }) && b.spaces@[19].space_type == SpaceType::Positive && b.spaces@[19].transitions@.len() == 1 && b.spaces@[19].transitions@[0].to == 20
    &&& b.spaces@[20].id == 20 && b.spaces@[20].pos == (Point2D { x: 11000, y: 0 }) && b.spaces@[20].space_type == SpaceType::Positive && b.spaces@[20].transitions@.len() == 2 && b.spaces@[20].transitions@[0].to == 21 && b.spaces@[20].transitions@[1].to == 26
    &&& b.spaces@[21].id == 21 && b.spaces@[21].pos == (Point2D { x: 15000, y: 0 }) && b.spaces@[21].space_type == SpaceType::Positive && b.spaces@[21].transitions@.len() == 1 && b.spaces@[21].transitions@[0].to == 22
    &&& b.spaces@[22].id == 22 && b.spaces@[22].pos == (Point2D { x: 19000, y: 0 }) && b.spaces@[22].space_type == SpaceType::Negative && b.spaces@[22].transitions@.len() == 1 && b.spaces@[22].transitions@[0].to == 23
    &&& b.spaces@[23].id == 23 && b.spaces@[23].pos == (Point2D { x: 22000, y: 0 }) && b.spaces@[23].space_type == SpaceType::Positive && b.spaces@[23].transitions@.len() == 1 && b.spaces@[23].transitions@[0].to == 24
    &&& b.spaces@[24].id == 24 && b.spaces@[24].pos == (Point2D { x: 22000, y: 4000 }) && b.spaces@[24].space_type == SpaceType::Positive && b.spaces@[24].transitions@.len() == 1 && b.spaces@[24].transitions@[0].to == 25
    &&& b.spaces@[25].id == 25 && b.spaces@[25].pos == (Point2D { x: 22000, y: 8000 }) && b.spaces@[25].space_type == SpaceType::Positive && b.spaces@[25].transitions@.len() == 1 && b.spaces@[25].transitions@[0].to == 28
    &&& b.spaces@[26].id == 26 && b.spaces@[26].pos == (Point2D { x: 15000, y: 4000 }) && b.spaces@[26].space_type == SpaceType::Positive && b.spaces@[26].transitions@.len() == 1 && b.spaces@[26].transitions@[0].to == 27
    &&& b.spaces@[27].id == 27 && b.spaces@[27].pos == (Point2D { x: 18000, y: 7000 }) && b.spaces@[27].space_type == SpaceType::Positive && b.spaces@[27].transitions@.len() == 1 && b.spaces@[27].transitions@[0].to == 25
    &&& b.spaces@[28].id == 28 && b.spaces@[28].pos == (Point2D { x: 22000, y: 11000 }) && b.spaces@[28].space_type == SpaceType::Negative && b.spaces@[28].transitions@.len() == 1 && b.spaces@[28].transitions@[0].to == 29
    &&& b.spaces@[29].id == 29 && b.spaces@[29].pos == (Point2D { x: 22000, y: 15000 }) && b.spaces@[29].space_type == SpaceType::Positive && b.spaces@[29].transitions@.len() == 1 && b.spaces@[29].transitions@[0].to == 0
}

/// A single-transition edge list.
fn t1(a: SpaceID) -> (r: Vec<SpaceTransition>)
    ensures
        r@.len() == 1,
        r@[0].to == a,
{
    let mut v: Vec<SpaceTransition> = Vec::new();
    v.push(SpaceTransition { to: a });
    v
}

/// A two-transition edge list (a branch point).
fn t2(a: SpaceID, b: SpaceID) -> (r: Vec<SpaceTransition>)
    ensures
        r@.len() == 2,
        r@[0].to == a,
        r@[1].to == b,
{
    let mut v: Vec<SpaceTransition> = Vec::new();
    v.push(SpaceTransition { to: a });
    v.push(SpaceTransition { to: b });
    v
}

/// Builds one space.
fn sp(id: SpaceID, x: i64, y: i64, space_type: SpaceType, transitions: Vec<SpaceTransition>) -> (r:
    Space)
    ensures
        r.id == id,
        r.pos.x == x,
        r.pos.y == y,
        r.space_type == space_type,
        r.transitions == transitions,
{
    Space { id, transitions, pos: Point2D { x, y }, space_type }
}

/// The shipped board layout satisfies the board invariant.
proof fn lemma_default_board_wf(b: Board)
    requires
        b.spaces@.len() == 30,
        forall|i: int| 0 <= i < 30 ==> (#[trigger] b.spaces@[i]).id == i,
        forall|i: int| 0 <= i < 30 ==> (#[trigger] b.spaces@[i]).pos.in_bounds(),
        forall|i: int, k: int|
            0 <= i < 30 && 0 <= k < b.spaces@[i].transitions@.len() ==> 0 <= (
            #[trigger] b.spaces@[i].transitions@[k]).to < 30,
    ensures
        b.wf(),
{
    assert forall|i: int, k: int|
        0 <= i < b.spaces@.len() && 0 <= k < b.spaces@[i].transitions@.len()
            implies b.has_space((#[trigger] b.spaces@[i].transitions@[k]).to) by {
        let t = b.spaces@[i].transitions@[k].to;
        assert(0 <= t < 30);
        assert(b.spaces@[t as int].id == t);
    }
}

} // verus!
