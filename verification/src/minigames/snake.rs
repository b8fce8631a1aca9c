//! Grid-based multi-snake game: each player steers a growing trail on a
//! fixed 32 by 32 grid, grows by eating pellets, and dies on a wall or
//! trail collision. The last surviving trail wins; when the last trails
//! die together, nobody wins.

use crate::game::UpdateProps;
use crate::mathutil::{spec_add_time, TIME_CAP};
use crate::minigame::MinigameResult;
use crate::tputil::{Axis, Player};
use vstd::prelude::*;

verus! {

/// Side length of the square grid.
pub const GRID_SIZE: i16 = 32;

/// Milliseconds between movement steps.
pub const STEP_MS: u64 = 200;

/// A movement direction on the grid. North decreases y, South increases it.
#[derive(Copy, Clone, PartialEq, Eq, Structural, Debug)]
pub enum Direction {
    North,
    South,
    East,
    West,
}

/// Whether a cell lies on the grid.
pub open spec fn in_grid(cell: (i16, i16)) -> bool {
    &&& 0 <= cell.0 < GRID_SIZE
    &&& 0 <= cell.1 < GRID_SIZE
}

/// All cells of a trail lie on the grid.
pub open spec fn tail_in_grid(tail: Seq<(i16, i16)>) -> bool {
    forall|c: int| 0 <= c < tail.len() ==> in_grid(#[trigger] tail[c])
}

/// All cells but the head lie on the grid and the head is at most one
/// step off it (the state mid-move, before the death check).
pub open spec fn tail_almost_in_grid(tail: Seq<(i16, i16)>) -> bool {
    &&& forall|c: int| 0 <= c < tail.len() - 1 ==> in_grid(#[trigger] tail[c])
    &&& tail.len() > 0 ==> {
        &&& -1 <= tail.last().0 <= GRID_SIZE
        &&& -1 <= tail.last().1 <= GRID_SIZE
    }
}

/// The cell one step from `c` in direction `dir` (North decreases y).
pub open spec fn sk_next_head(c: (i16, i16), dir: Direction) -> (i16, i16) {
    match dir {
        Direction::East => ((c.0 + 1) as i16, c.1),
        Direction::North => (c.0, (c.1 - 1) as i16),
        Direction::South => (c.0, (c.1 + 1) as i16),
        Direction::West => ((c.0 - 1) as i16, c.1),
    }
}

/// `pellets` with its first occurrence of `c` removed.
pub open spec fn sk_remove_first(pellets: Seq<(i16, i16)>, c: (i16, i16)) -> Seq<(i16, i16)>
    decreases pellets.len(),
{
    if pellets.len() == 0 {
        pellets
    } else if pellets.first() == c {
        pellets.drop_first()
    } else {
        seq![pellets.first()] + sk_remove_first(pellets.drop_first(), c)
    }
}

/// One trail's move against the current pellet list: the head advances;
/// meeting a pellet grows the trail (and consumes that pellet), else
/// the oldest cell is dropped. An empty trail stays out of the game.
pub open spec fn sk_advance(
    tail: Seq<(i16, i16)>,
    dir: Direction,
    pellets: Seq<(i16, i16)>,
) -> (Seq<(i16, i16)>, Seq<(i16, i16)>) {
    if tail.len() == 0 {
        (tail, pellets)
    } else {
        let h = sk_next_head(tail.last(), dir);
        let ext = tail.push(h);
        if pellets.contains(h) {
            (ext, sk_remove_first(pellets, h))
        } else {
            (ext.drop_first(), pellets)
        }
    }
}

/// The trails and pellets after the first `s` snakes moved and ate, in
/// player order (earlier snakes eat contested pellets first).
pub open spec fn sk_phase_a(
    tv0: Seq<Seq<(i16, i16)>>,
    dirs: Seq<Direction>,
    p0: Seq<(i16, i16)>,
    s: int,
) -> (Seq<Seq<(i16, i16)>>, Seq<(i16, i16)>)
    decreases s when s >= 0
{
    if s <= 0 {
        (tv0, p0)
    } else {
        let prev = sk_phase_a(tv0, dirs, p0, s - 1);
        let adv = sk_advance(prev.0[s - 1], dirs[s - 1], prev.1);
        (prev.0.update(s - 1, adv.0), adv.1)
    }
}

/// Whether moved snake `s` dies: its head left the grid, or its head
/// meets any occupied cell other than itself (another snake's cell, or
/// its own body — its just-made head exempted).
pub open spec fn sk_dies(mv: Seq<Seq<(i16, i16)>>, s: int) -> bool {
    let t = mv[s];
    let h = t.last();
    t.len() > 0 && (!in_grid(h) || exists|o: int, c: int|
        #![trigger mv[o][c]]
        0 <= o < mv.len() && 0 <= c < mv[o].len() && mv[o][c] == h && !(o == s && c == t.len()
            - 1))
}

/// Snake `s`'s trail after a full grid step over `n` snakes: advanced
/// and fed by `sk_phase_a`, then cleared if it died.
pub open spec fn sk_tail_after(
    tv0: Seq<Seq<(i16, i16)>>,
    dirs: Seq<Direction>,
    p0: Seq<(i16, i16)>,
    n: int,
    s: int,
) -> Seq<(i16, i16)> {
    let mv = sk_phase_a(tv0, dirs, p0, n).0;
    if mv[s].len() == 0 || sk_dies(mv, s) {
        Seq::empty()
    } else {
        mv[s]
    }
}

/// Snake `s`'s direction after this tick's steering: one latched turn
/// per movement step, perpendicular to the current heading, when the
/// stick is pushed past the threshold.
pub open spec fn sk_dir_after(pre: MGSnake, input: crate::tputil::InputState, s: int) -> Direction {
    let d = pre.directions@[s];
    if pre.turned@[s] {
        d
    } else if d == Direction::North || d == Direction::South {
        let a = input.spec_axis_of(pre.players@[s].input, Axis::X);
        if a < -400 {
            Direction::West
        } else if a > 400 {
            Direction::East
        } else {
            d
        }
    } else {
        let a = input.spec_axis_of(pre.players@[s].input, Axis::Y);
        if a < -400 {
            Direction::South
        } else if a > 400 {
            Direction::North
        } else {
            d
        }
    }
}

/// Untouched suffix of the move-and-eat fold: snakes at or past `s`
/// still hold their pre-move trails, and the count never changes.
proof fn lemma_phase_a_untouched(
    tv0: Seq<Seq<(i16, i16)>>,
    dirs: Seq<Direction>,
    p0: Seq<(i16, i16)>,
    s: int,
)
    requires
        0 <= s <= tv0.len(),
    ensures
        sk_phase_a(tv0, dirs, p0, s).0.len() == tv0.len(),
        forall|k: int|
            s <= k < tv0.len() ==> (#[trigger] sk_phase_a(tv0, dirs, p0, s).0[k]) == tv0[k],
    decreases s,
{
    if s > 0 {
        lemma_phase_a_untouched(tv0, dirs, p0, s - 1);
        let prev = sk_phase_a(tv0, dirs, p0, s - 1);
        let adv = sk_advance(prev.0[s - 1], dirs[s - 1], prev.1);
        assert(sk_phase_a(tv0, dirs, p0, s).0 == prev.0.update(s - 1, adv.0));
        assert forall|k: int|
            s <= k < tv0.len() implies (#[trigger] sk_phase_a(tv0, dirs, p0, s).0[k])
                == tv0[k] by {
            assert(sk_phase_a(tv0, dirs, p0, s).0[k] == prev.0[k]);
        }
    } else {
        assert(sk_phase_a(tv0, dirs, p0, s).0 == tv0);
    }
}

/// The first pellet the executable scan finds is the one the removal
/// specification drops.
proof fn lemma_remove_first(pellets: Seq<(i16, i16)>, c: (i16, i16), i: int)
    requires
        0 <= i < pellets.len(),
        pellets[i] == c,
        forall|q: int| 0 <= q < i ==> pellets[q] != c,
    ensures
        sk_remove_first(pellets, c) == pellets.remove(i),
    decreases i,
{
    if i == 0 {
        assert(sk_remove_first(pellets, c) =~= pellets.remove(0));
    } else {
        let tail = pellets.drop_first();
        assert(tail[i - 1] == pellets[i]);
        assert forall|q: int| 0 <= q < i - 1 implies tail[q] != c by {
            assert(tail[q] == pellets[q + 1]);
        }
        lemma_remove_first(tail, c, i - 1);
        assert(sk_remove_first(pellets, c) =~= pellets.remove(i));
    }
}

/// The grid-step outcome relative to the starting trails `tails0`, the
/// (post-steer) directions, and the starting pellets: some pellet list
/// `p0` — the old one, possibly with one random spawn appended — feeds
/// the move-and-eat fold, and the post state carries exactly the fold's
/// pellets and its trails with the dead ones cleared.
pub open spec fn sk_grid_ok(
    tails0: Seq<Vec<(i16, i16)>>,
    dirs: Seq<Direction>,
    pellets0: Seq<(i16, i16)>,
    post: MGSnake,
    p0: Seq<(i16, i16)>,
) -> bool {
    let tv0 = tails0.map_values(|v: Vec<(i16, i16)>| v@);
    let nn = tails0.len() as int;
    &&& (p0 == pellets0 || exists|c: (i16, i16)| in_grid(c) && p0 == pellets0.push(c))
    &&& post.pellets@ == sk_phase_a(tv0, dirs, p0, nn).1
    &&& forall|j: int|
        0 <= j < nn ==> (#[trigger] post.tails@[j])@ == sk_tail_after(tv0, dirs, p0, nn, j)
}

/// Two or more trails are non-empty in `post`.
pub open spec fn sk_two_alive(post: MGSnake) -> bool {
    exists|i: int, j: int|
        #![trigger post.tails@[i], post.tails@[j]]
        0 <= i < j < post.tails@.len() && (post.tails@[i])@.len() > 0 && (post.tails@[j])@.len()
            > 0
}

/// One tick of the snake game: accumulated time advances and, once a
/// full step period has accumulated, the grid advances one step; the
/// round reports exactly when a due step leaves at most one trail — its
/// owner wins, a simultaneous wipeout pays nobody.
pub open spec fn sk_step_rel(
    pre: MGSnake,
    props: UpdateProps,
    post: MGSnake,
    r: Option<MinigameResult>,
) -> bool {
    let u = spec_add_time(pre.unhandled_time as int, props.time as int);
    let due = u > STEP_MS;
    let n = pre.tails@.len() as int;
    &&& post.players == pre.players
    &&& post.tails@.len() == n
    &&& post.directions@.len() == pre.directions@.len()
    &&& forall|s: int|
        0 <= s < pre.directions@.len() ==> (#[trigger] post.directions@[s]) == sk_dir_after(
            pre,
            props.input,
            s,
        )
    &&& post.unhandled_time == if due {
        u - STEP_MS
    } else {
        u
    }
    &&& !due ==> r is None && post.tails == pre.tails && post.pellets == pre.pellets
    &&& due ==> exists|p0: Seq<(i16, i16)>|
        #![auto]
        sk_grid_ok(pre.tails@, post.directions@, pre.pellets@, post, p0)
    &&& due ==> (r is None <==> sk_two_alive(post))
    &&& match r {
        Option::None => true,
        Option::Some(MinigameResult::Winner(w)) => 0 <= w < n && (post.tails@[w as int])@.len()
            > 0 && forall|j: int|
            0 <= j < n && j != w ==> (#[trigger] post.tails@[j])@.len() == 0,
        Option::Some(MinigameResult::Nothing) => forall|j: int|
            0 <= j < n ==> (#[trigger] post.tails@[j])@.len() == 0,
        _ => false,
    }
}

/// The multi-snake simulation. Trails, directions, steering latches and
/// owners are parallel vectors indexed by player; a snake with an empty
/// trail is out of the game.
pub struct MGSnake {
    pub players: Vec<Player>,
    pub directions: Vec<Direction>,
    pub turned: Vec<bool>,
    pub tails: Vec<Vec<(i16, i16)>>,
    pub pellets: Vec<(i16, i16)>,
    pub unhandled_time: u64,
}

impl MGSnake {
    pub open spec fn wf(self) -> bool {
        &&& self.directions@.len() == self.players@.len()
        &&& self.turned@.len() == self.players@.len()
        &&& self.tails@.len() == self.players@.len()
        &&& self.unhandled_time <= TIME_CAP
        &&& forall|s: int|
            0 <= s < self.tails@.len() ==> tail_in_grid((#[trigger] self.tails@[s])@)
    }

    /// A fresh round: snakes spread across the middle row, alternating
    /// up- and downwards.
    pub fn new(players: Vec<Player>) -> (r: MGSnake)
        requires
            1 <= players@.len() <= 16,
        ensures
            r.wf(),
            r.players == players,
            forall|s: int| 0 <= s < r.tails@.len() ==> (#[trigger] r.tails@[s])@.len() == 2,
    {
        let count: usize = players.len();
        let scale: usize = 32 / count / 2;
        proof {
            vstd::arithmetic::div_mod::lemma_fundamental_div_mod(32int, count as int);
            vstd::arithmetic::div_mod::lemma_fundamental_div_mod(32int / count as int, 2);
        }
        let mut directions: Vec<Direction> = Vec::new();
        let mut turned: Vec<bool> = Vec::new();
        let mut tails: Vec<Vec<(i16, i16)>> = Vec::new();
        let mut i: usize = 0;
        while i < count
            invariant
                i <= count,
                1 <= count <= 16,
                scale == 32int / count as int / 2,
                directions@.len() == i,
                turned@.len() == i,
                tails@.len() == i,
                forall|s: int| 0 <= s < i ==> tail_in_grid((#[trigger] tails@[s])@),
                forall|s: int| 0 <= s < i ==> (#[trigger] tails@[s])@.len() == 2,
            decreases count - i,
        {
            proof {
                lemma_start_column_bound(count as int, i as int);
            }
            let hx_wide: usize = scale * (2 * i + 1);
            let hx: i16 = hx_wide as i16;
            let hy: i16 = GRID_SIZE / 2;
            let second_y: i16 = if i % 2 == 0 {
                hy + 1
            } else {
                hy - 1
            };
            let mut tail: Vec<(i16, i16)> = Vec::new();
            tail.push((hx, second_y));
            tail.push((hx, hy));
            directions.push(
                if i % 2 == 0 {
                    Direction::North
                } else {
                    Direction::South
                },
            );
            turned.push(false);
            tails.push(tail);
            i += 1;
        }
        MGSnake { players, directions, turned, tails, pellets: Vec::new(), unhandled_time: 0 }
    }

    /// One tick: steering latches a single turn per movement step; every
    /// `STEP_MS` of accumulated time the grid advances one step. The
    /// round ends when at most one trail survives a step.
    pub fn update(&mut self, props: &UpdateProps) -> (r: Option<MinigameResult>)
        requires
            old(self).wf(),
            props.wf(),
        ensures
            final(self).wf(),
            sk_step_rel(*old(self), *props, *final(self), r),
            match r {
                Option::None => true,
                Option::Some(res) => res.wf(final(self).players@.len() as int),
            },
    {
        self.unhandled_time = crate::mathutil::add_time(self.unhandled_time, props.time);
        let ghost u = self.unhandled_time as int;

        let n: usize = self.players.len();
        let mut s: usize = 0;
        while s < n
            invariant
                s <= n,
                self.wf(),
                n == self.players@.len(),
                self.players == old(self).players,
                self.tails == old(self).tails,
                self.pellets == old(self).pellets,
                self.unhandled_time == u,
                u == spec_add_time(old(self).unhandled_time as int, props.time as int),
                props.wf(),
                self.directions@.len() == old(self).directions@.len(),
                self.turned@.len() == old(self).turned@.len(),
                old(self).directions@.len() == old(self).players@.len(),
                old(self).turned@.len() == old(self).players@.len(),
                forall|j: int|
                    s <= j < self.directions@.len() ==> (#[trigger] self.directions@[j]) == old(
                        self,
                    ).directions@[j],
                forall|j: int|
                    s <= j < self.turned@.len() ==> (#[trigger] self.turned@[j]) == old(
                        self,
                    ).turned@[j],
                forall|j: int|
                    0 <= j < s ==> (#[trigger] self.directions@[j]) == sk_dir_after(
                        *old(self),
                        props.input,
                        j,
                    ),
            decreases n - s,
        {
            if !self.turned[s] {
                let dir = self.directions[s];
                let ctl = self.players[s].input;
                if dir == Direction::North || dir == Direction::South {
                    let axis: i32 = props.input.get_axis(&ctl, Axis::X);
                    if axis < -400 {
                        self.directions.set(s, Direction::West);
                        self.turned.set(s, true);
                    } else if axis > 400 {
                        self.directions.set(s, Direction::East);
                        self.turned.set(s, true);
                    }
                } else {
                    let axis: i32 = props.input.get_axis(&ctl, Axis::Y);
                    if axis < -400 {
                        self.directions.set(s, Direction::South);
                        self.turned.set(s, true);
                    } else if axis > 400 {
                        self.directions.set(s, Direction::North);
                        self.turned.set(s, true);
                    }
                }
            }
            proof {
                assert(self.directions@[s as int] == sk_dir_after(
                    *old(self),
                    props.input,
                    s as int,
                ));
            }
            s += 1;
        }

        if self.unhandled_time > STEP_MS {
            self.unhandled_time = self.unhandled_time - STEP_MS;
            self.step()
        } else {
            None
        }
    }

    /// One movement step: maybe spawn a pellet, advance every trail,
    /// eat or retract, then resolve deaths. Reports exactly when at most
    /// one trail survives the step.
    fn step(&mut self) -> (r: Option<MinigameResult>)
        requires
            old(self).wf(),
        ensures
            final(self).wf(),
            final(self).players == old(self).players,
            final(self).unhandled_time == old(self).unhandled_time,
            final(self).tails@.len() == old(self).tails@.len(),
            final(self).directions == old(self).directions,
            exists|p0: Seq<(i16, i16)>|
                #![auto]
                sk_grid_ok(
                    old(self).tails@,
                    old(self).directions@,
                    old(self).pellets@,
                    *final(self),
                    p0,
                ),
            r is None <==> sk_two_alive(*final(self)),
            match r {
                Option::None => true,
                Option::Some(res) => {
                    &&& res.wf(final(self).players@.len() as int)
                    &&& match res {
                        MinigameResult::Winner(w) => w < final(self).players@.len() && (
                        #[trigger] final(self).tails@[w as int])@.len() > 0 && forall|j: int|
                            0 <= j < final(self).tails@.len() && j != w ==> (
                            #[trigger] final(self).tails@[j])@.len() == 0,
                        MinigameResult::Nothing => forall|j: int|
                            0 <= j < final(self).tails@.len() ==> (
                            #[trigger] final(self).tails@[j])@.len() == 0,
                        _ => false,
                    }
                },
            },
    {
        let n: usize = self.players.len();
        let ghost tv0 = self.tails@.map_values(|v: Vec<(i16, i16)>| v@);
        let ghost dirs0 = self.directions@;

        if crate::rng::random_chance(1, 10) {
            let px: i16 = crate::rng::random_index(GRID_SIZE as usize) as i16;
            let py: i16 = crate::rng::random_index(GRID_SIZE as usize) as i16;
            self.pellets.push((px, py));
            proof {
                assert(in_grid((px, py)));
                assert(self.pellets@ == old(self).pellets@.push((px, py)));
            }
        }
        let ghost p0 = self.pellets@;

        // Advance heads, then eat a pellet (growing) or retract the tail
        // end, one snake at a time in player order.
        let mut moved: Vec<Vec<(i16, i16)>> = Vec::new();
        let mut s: usize = 0;
        while s < n
            invariant
                s <= n,
                n == self.tails@.len(),
                self.wf(),
                self.players == old(self).players,
                self.unhandled_time == old(self).unhandled_time,
                self.tails == old(self).tails,
                self.directions == old(self).directions,
                tv0 == old(self).tails@.map_values(|v: Vec<(i16, i16)>| v@),
                dirs0 == old(self).directions@,
                moved@.len() == s,
                forall|j: int| 0 <= j < s ==> tail_almost_in_grid((#[trigger] moved@[j])@),
                forall|j: int|
                    0 <= j < s ==> ((#[trigger] moved@[j])@.len() == 0) == (self.tails@[j]@.len()
                        == 0),
                forall|j: int|
                    0 <= j < s ==> (#[trigger] moved@[j])@ == sk_phase_a(tv0, dirs0, p0, s as int).0[j],
                self.pellets@ == sk_phase_a(tv0, dirs0, p0, s as int).1,
            decreases n - s,
        {
            proof {
                lemma_phase_a_untouched(tv0, dirs0, p0, s as int);
                assert(sk_phase_a(tv0, dirs0, p0, s as int).0[s as int] == tv0[s as int]);
                assert(tv0[s as int] == (self.tails@[s as int])@);
            }
            let mut tail: Vec<(i16, i16)> = copy_cells(&self.tails[s]);
            let ghost pellets_entry = self.pellets@;
            if tail.len() >= 1 {
                let head: (i16, i16) = tail[tail.len() - 1];
                let new_head: (i16, i16) = match self.directions[s] {
                    Direction::East => (head.0 + 1, head.1),
                    Direction::North => (head.0, head.1 - 1),
                    Direction::South => (head.0, head.1 + 1),
                    Direction::West => (head.0 - 1, head.1),
                };
                proof {
                    assert(new_head == sk_next_head(tv0[s as int].last(), dirs0[s as int]));
                }
                tail.push(new_head);
                self.turned.set(s, false);

                let mut grow = false;
                let mut p: usize = 0;
                let mut hit: usize = 0;
                while p < self.pellets.len()
                    invariant
                        p <= self.pellets@.len(),
                        self.pellets@ == pellets_entry,
                        grow ==> hit < self.pellets@.len() && self.pellets@[hit as int]
                            == new_head && forall|q: int|
                            0 <= q < hit ==> (#[trigger] self.pellets@[q]) != new_head,
                        !grow ==> forall|q: int|
                            0 <= q < p ==> (#[trigger] self.pellets@[q]) != new_head,
                    decreases self.pellets@.len() - p,
                {
                    let pellet = self.pellets[p];
                    if !grow && pellet.0 == new_head.0 && pellet.1 == new_head.1 {
                        grow = true;
                        hit = p;
                        proof {
                            assert(self.pellets@[p as int] == new_head);
                        }
                    }
                    p += 1;
                }
                if grow {
                    proof {
                        assert(pellets_entry.contains(new_head));
                        lemma_remove_first(pellets_entry, new_head, hit as int);
                    }
                    self.pellets.remove(hit);
                } else {
                    proof {
                        if pellets_entry.contains(new_head) {
                            let q = choose|q: int|
                                0 <= q < pellets_entry.len() && pellets_entry[q] == new_head;
                            assert(self.pellets@[q] != new_head);
                        }
                    }
                    tail.remove(0);
                    proof {
                        assert forall|c: int| 0 <= c < tail@.len() - 1 implies in_grid(
                            #[trigger] tail@[c],
                        ) by {
                            assert(tail@[c] == self.tails@[s as int]@[c + 1]);
                        }
                        assert(tail@ =~= tv0[s as int].push(new_head).drop_first());
                    }
                }
            }
            proof {
                let prev = sk_phase_a(tv0, dirs0, p0, s as int);
                let adv = sk_advance(prev.0[s as int], dirs0[s as int], prev.1);
                assert(sk_phase_a(tv0, dirs0, p0, s as int + 1) == (
                    prev.0.update(s as int, adv.0),
                    adv.1,
                ));
                assert(tail@ == adv.0);
                assert(self.pellets@ == adv.1);
            }
            moved.push(tail);
            s += 1;
        }
        let ghost mvv = moved@.map_values(|v: Vec<(i16, i16)>| v@);
        proof {
            lemma_phase_a_untouched(tv0, dirs0, p0, n as int);
            assert forall|k: int|
                0 <= k < n implies (#[trigger] mvv[k]) == sk_phase_a(
                tv0,
                dirs0,
                p0,
                n as int,
            ).0[k] by {
                assert(mvv[k] == (moved@[k])@);
            }
            assert(mvv =~= sk_phase_a(tv0, dirs0, p0, n as int).0);
        }

        // Death check on the advanced trails: off-grid heads and heads
        // meeting any trail cell (except their own just-made head) die.
        let mut dies: Vec<bool> = Vec::new();
        let mut s2: usize = 0;
        while s2 < n
            invariant
                s2 <= n,
                moved@.len() == n,
                mvv == moved@.map_values(|v: Vec<(i16, i16)>| v@),
                dies@.len() == s2,
                forall|j: int| 0 <= j < n ==> tail_almost_in_grid((#[trigger] moved@[j])@),
                forall|j: int|
                    0 <= j < s2 && !(#[trigger] dies@[j]) && moved@[j]@.len() > 0 ==> in_grid(
                        moved@[j]@.last(),
                    ),
                forall|j: int| 0 <= j < s2 ==> (#[trigger] dies@[j]) == sk_dies(mvv, j),
            decreases n - s2,
        {
            let tail_len: usize = moved[s2].len();
            if tail_len == 0 {
                dies.push(false);
                proof {
                    assert(!sk_dies(mvv, s2 as int));
                }
            } else {
                let head: (i16, i16) = moved[s2][tail_len - 1];
                proof {
                    assert(head == mvv[s2 as int].last());
                }
                let mut d: bool = head.0 < 0 || head.1 < 0 || head.0 >= GRID_SIZE || head.1
                    >= GRID_SIZE;
                let mut o: usize = 0;
                while o < n
                    invariant
                        o <= n,
                        moved@.len() == n,
                        mvv == moved@.map_values(|v: Vec<(i16, i16)>| v@),
                        s2 < n,
                        tail_len == mvv[s2 as int].len() > 0,
                        head == mvv[s2 as int].last(),
                        !d ==> in_grid(head),
                        d <==> !in_grid(head) || exists|o2: int, c2: int|
                            #![trigger mvv[o2][c2]]
                            0 <= o2 < o && 0 <= c2 < mvv[o2].len() && mvv[o2][c2] == head && !(
                            o2 == s2 && c2 == tail_len - 1),
                    decreases n - o,
                {
                    let other_len: usize = moved[o].len();
                    let mut c: usize = 0;
                    while c < other_len
                        invariant
                            c <= other_len,
                            other_len == moved@[o as int]@.len(),
                            o < n,
                            moved@.len() == n,
                            mvv == moved@.map_values(|v: Vec<(i16, i16)>| v@),
                            s2 < n,
                            tail_len == mvv[s2 as int].len() > 0,
                            head == mvv[s2 as int].last(),
                            !d ==> in_grid(head),
                            d <==> !in_grid(head) || (exists|o2: int, c2: int|
                                #![trigger mvv[o2][c2]]
                                0 <= o2 < o && 0 <= c2 < mvv[o2].len() && mvv[o2][c2] == head
                                    && !(o2 == s2 && c2 == tail_len - 1)) || (exists|c2: int|
                                0 <= c2 < c && (#[trigger] mvv[o as int][c2]) == head && !(
                                o == s2 && c2 == tail_len - 1)),
                        decreases other_len - c,
                    {
                        let cell: (i16, i16) = moved[o][c];
                        if cell.0 == head.0 && cell.1 == head.1 && !(c == other_len - 1 && o
                            == s2) {
                            proof {
                                assert(mvv[o as int][c as int] == head);
                            }
                            d = true;
                        }
                        c += 1;
                    }
                    o += 1;
                }
                dies.push(d);
                proof {
                    assert(d == sk_dies(mvv, s2 as int));
                }
            }
            s2 += 1;
        }

        // Clear dead trails; the survivors' heads are on the grid, so the
        // full-grid invariant holds again.
        let mut final_tails: Vec<Vec<(i16, i16)>> = Vec::new();
        let mut s3: usize = 0;
        while s3 < n
            invariant
                s3 <= n,
                moved@.len() == n,
                dies@.len() == n,
                final_tails@.len() == s3,
                forall|j: int| 0 <= j < n ==> tail_almost_in_grid((#[trigger] moved@[j])@),
                forall|j: int|
                    0 <= j < n && !(#[trigger] dies@[j]) && moved@[j]@.len() > 0 ==> in_grid(
                        moved@[j]@.last(),
                    ),
                forall|j: int| 0 <= j < s3 ==> tail_in_grid((#[trigger] final_tails@[j])@),
                mvv == moved@.map_values(|v: Vec<(i16, i16)>| v@),
                forall|j: int| 0 <= j < n ==> (#[trigger] dies@[j]) == sk_dies(mvv, j),
                forall|j: int|
                    0 <= j < s3 ==> (#[trigger] final_tails@[j])@ == if mvv[j].len() == 0
                        || sk_dies(mvv, j) {
                        Seq::<(i16, i16)>::empty()
                    } else {
                        mvv[j]
                    },
            decreases n - s3,
        {
            if dies[s3] {
                let empty: Vec<(i16, i16)> = Vec::new();
                final_tails.push(empty);
            } else {
                let t = copy_cells(&moved[s3]);
                proof {
                    if t@.len() > 0 {
                        assert forall|c: int| 0 <= c < t@.len() implies in_grid(
                            #[trigger] t@[c],
                        ) by {
                            if c < t@.len() - 1 {
                                assert(in_grid(moved@[s3 as int]@[c]));
                            } else {
                                assert(t@[c] == moved@[s3 as int]@.last());
                            }
                        }
                    }
                }
                final_tails.push(t);
            }
            s3 += 1;
        }
        self.tails = final_tails;
        proof {
            assert forall|j: int|
                0 <= j < n implies (#[trigger] self.tails@[j])@ == sk_tail_after(
                tv0,
                dirs0,
                p0,
                n as int,
                j,
            ) by {
                assert(mvv[j] == sk_phase_a(tv0, dirs0, p0, n as int).0[j]);
            }
            assert(sk_grid_ok(
                old(self).tails@,
                old(self).directions@,
                old(self).pellets@,
                *self,
                p0,
            ));
        }

        // Count survivors.
        let mut last_alive: Option<usize> = None;
        let mut multiple = false;
        let mut s4: usize = 0;
        while s4 < n
            invariant
                s4 <= n,
                n == self.tails@.len(),
                match last_alive {
                    Option::None => true,
                    Option::Some(a) => a < s4 && (#[trigger] self.tails@[a as int])@.len() > 0,
                },
                multiple ==> sk_two_alive(*self),
                !multiple ==> match last_alive {
                    Option::None => forall|j: int|
                        0 <= j < s4 ==> (#[trigger] self.tails@[j])@.len() == 0,
                    Option::Some(a) => forall|j: int|
                        0 <= j < s4 && j != a ==> (#[trigger] self.tails@[j])@.len() == 0,
                },
            decreases n - s4,
        {
            if self.tails[s4].len() > 0 {
                if last_alive.is_some() {
                    proof {
                        let a = last_alive.unwrap();
                        assert((self.tails@[a as int])@.len() > 0 && (
                        self.tails@[s4 as int])@.len() > 0);
                    }
                    multiple = true;
                }
                last_alive = Some(s4);
            }
            s4 += 1;
        }
        if multiple {
            return None;
        }
        match last_alive {
            None => Some(MinigameResult::Nothing),
            Some(w) => Some(MinigameResult::Winner(w)),
        }
    }


    /// Registry-style constructor: a fresh instance behind the uniform
    /// minigame interface.
    pub fn init(players: Vec<Player>) -> (r: crate::minigame::Minigame)
        requires
            1 <= players@.len() <= 16,
        ensures
            r.wf(),
            r.player_count() == players@.len(),
    {
        crate::minigame::Minigame::Snake(MGSnake::new(players))
    }

    pub fn title(&self) -> (r: &'static str) {
        "Snakes"
    }

    pub fn description(&self) -> (r: &'static str) {
        "Grow your trail, eat the pellets, and do not crash."
    }
}

/// Copies a cell list.
fn copy_cells(v: &Vec<(i16, i16)>) -> (r: Vec<(i16, i16)>)
    ensures
        r@ == v@,
{
    let mut r: Vec<(i16, i16)> = Vec::new();
    let mut i: usize = 0;
    while i < v.len()
        invariant
            i <= v@.len(),
            r@ == v@.take(i as int),
        decreases v@.len() - i,
    {
        let cell = v[i];
        r.push(cell);
        proof {
            assert(v@.take(i + 1).drop_last() =~= v@.take(i as int));
            assert(r@ =~= v@.take(i + 1));
        }
        i += 1;
    }
    proof {
        assert(v@.take(v@.len() as int) =~= v@);
    }
    r
}

/// The starting column of snake `i` fits the grid.
proof fn lemma_start_column_bound(count: int, i: int)
    requires
        1 <= count <= 16,
        0 <= i < count,
    ensures
        0 <= (32int / count / 2) * (2 * i + 1) < 32,
{
    let q = 32int / count;
    let scale = q / 2;
    vstd::arithmetic::div_mod::lemma_fundamental_div_mod(32int, count);
    vstd::arithmetic::div_mod::lemma_fundamental_div_mod(q, 2);
    assert(q * count <= 32) by (nonlinear_arith)
        requires
            1 <= count,
            q == 32int / count,
            32 == q * count + (32int % count),
            0 <= 32int % count,
    ;
    assert(q >= 2) by (nonlinear_arith)
        requires
            q * count + (32int % count) == 32,
            0 <= 32int % count < count,
            1 <= count <= 16,
    ;
    assert(scale * 2 <= q);
    assert(scale >= 1);
    assert(scale * (2 * i + 1) <= scale * (2 * count - 1)) by (nonlinear_arith)
        requires
            0 <= scale,
            0 <= i < count,
    ;
    assert(scale * (2 * count - 1) == scale * 2 * count - scale) by (nonlinear_arith);
    assert(scale * 2 * count <= q * count) by (nonlinear_arith)
        requires
            scale * 2 <= q,
            count >= 1,
    ;
    assert(scale >= 1);
    assert(scale * (2 * i + 1) >= 0) by (nonlinear_arith)
        requires
            scale >= 0,
            i >= 0,
    ;
}

} // verus!
