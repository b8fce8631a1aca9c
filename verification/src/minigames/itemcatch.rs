//! Falling-item catcher: items worth one point (or a penalty) rain in
//! under gravity; jumping players catch them within a time limit. The
//! outcome is a per-player score list handed to Ratios aggregation, so
//! scores may be negative.

use crate::game::UpdateProps;
use crate::mathutil::{spec_add_time, TIME_CAP};
use crate::minigame::MinigameResult;
use crate::tputil::{Axis, Button, Player};
use vstd::prelude::*;

verus! {

/// Player half-width, milli-units.
pub const IC_PLAYER_RADIUS: i64 = 60;

/// Downward acceleration, milli-units per second squared.
pub const IC_GRAVITY: i64 = 3200;

/// Upward jump speed, milli-units per second.
pub const IC_JUMP_VEL: i64 = 2000;

/// Round length in milliseconds.
pub const IC_TIME_LIMIT: u64 = 30_000;

/// Item half-width, milli-units.
pub const IC_ITEM_RADIUS: i64 = 30;

/// Cap on a player's vertical fall speed, milli-units per second.
pub const IC_TERMINAL_VEL: i64 = 100_000;

/// Score magnitude cap (far beyond anything reachable in one round).
pub const IC_SCORE_CAP: i64 = 1_000_000_000;

/// Where an item launched as `it` sits `t` ms into the round.
pub open spec fn ic_item_pos(it: ICItem, t: int) -> (int, int) {
    let dt = t - it.start_time;
    let x = it.start_x + crate::mathutil::div_trunc(it.vel_x * dt, 1000);
    let y = it.start_y + crate::mathutil::div_trunc(it.vel_y * dt, 1000) + (IC_GRAVITY * dt * dt)
        / 2_000_000;
    (x, y)
}

/// Player `p`'s horizontal position after this tick's steering.
pub open spec fn ic_px_after(pre: MGItemCatch, props: UpdateProps, p: int) -> int {
    let ax = props.input.spec_axis_of(pre.players@[p].input, Axis::X) as int;
    let v = pre.pos_x@[p] + crate::mathutil::div_trunc(ax * props.time, 1000);
    if v > 940 {
        940
    } else if v < -940 {
        -940
    } else {
        v
    }
}

/// Player `p`'s vertical position after this tick's fall (clamped at
/// the floor and at the offscreen cap).
pub open spec fn ic_py_after(pre: MGItemCatch, props: UpdateProps, p: int) -> int {
    let raw = pre.pos_y@[p] + crate::mathutil::div_trunc(
        pre.vel_y@[p] * props.time,
        1000,
    );
    if raw >= 500 {
        500
    } else if raw < -2_000_000 {
        -2_000_000
    } else {
        raw
    }
}

/// Player `p`'s vertical speed after this tick: gravity capped at the
/// terminal speed, reset on the floor, or a fresh jump when the signal
/// is held there.
pub open spec fn ic_vy_after(pre: MGItemCatch, props: UpdateProps, p: int) -> int {
    let raw = pre.pos_y@[p] + crate::mathutil::div_trunc(
        pre.vel_y@[p] * props.time,
        1000,
    );
    let g = pre.vel_y@[p] + (IC_GRAVITY * props.time) / 1000;
    let fallen = if g > IC_TERMINAL_VEL {
        IC_TERMINAL_VEL as int
    } else {
        g
    };
    if raw >= 500 {
        if props.input.spec_held_of(pre.players@[p].input, Button::South) {
            -(IC_JUMP_VEL as int)
        } else {
            0
        }
    } else {
        fallen
    }
}

/// Whether item `it` overlaps player `p`'s box after this tick's moves,
/// at the tick's end instant `t2`.
pub open spec fn ic_overlaps(pre: MGItemCatch, props: UpdateProps, it: ICItem, p: int) -> bool {
    let pos = ic_item_pos(it, spec_add_time(pre.time as int, props.time as int));
    let px = ic_px_after(pre, props, p);
    let py = ic_py_after(pre, props, p);
    &&& pos.0 + IC_ITEM_RADIUS > px - IC_PLAYER_RADIUS
    &&& pos.0 - IC_ITEM_RADIUS < px + IC_PLAYER_RADIUS
    &&& pos.1 + IC_ITEM_RADIUS > py - IC_PLAYER_RADIUS
    &&& pos.1 - IC_ITEM_RADIUS < py + IC_PLAYER_RADIUS
}

/// The first player (in turn order, starting at `p`) whose box the item
/// overlaps, or -1 when nobody touches it.
pub open spec fn ic_catcher_from(pre: MGItemCatch, props: UpdateProps, it: ICItem, p: int) -> int
    decreases pre.players@.len() - p when 0 <= p <= pre.players@.len()
{
    if p >= pre.players@.len() {
        -1
    } else if ic_overlaps(pre, props, it, p) {
        p
    } else {
        ic_catcher_from(pre, props, it, p + 1)
    }
}

/// The player credited with catching `it` this tick, or -1.
pub open spec fn ic_catcher(pre: MGItemCatch, props: UpdateProps, it: ICItem) -> int {
    ic_catcher_from(pre, props, it, 0)
}

/// One caught item's effect on a score, saturating at the cap.
pub open spec fn ic_sat_step(base: int, value: int) -> int {
    if value > 0 {
        if base >= IC_SCORE_CAP {
            IC_SCORE_CAP as int
        } else {
            base + 1
        }
    } else {
        if base <= -IC_SCORE_CAP {
            -IC_SCORE_CAP as int
        } else {
            base - 1
        }
    }
}

/// Player `p`'s score after the catches among `items` (in order) are
/// credited: each item goes to the first player overlapping it.
pub open spec fn ic_points_after(
    pre: MGItemCatch,
    props: UpdateProps,
    items: Seq<ICItem>,
    p: int,
) -> int
    decreases items.len(),
{
    if items.len() == 0 {
        pre.points@[p] as int
    } else {
        let base = ic_points_after(pre, props, items.drop_last(), p);
        if ic_catcher(pre, props, items.last()) == p {
            ic_sat_step(base, items.last().value as int)
        } else {
            base
        }
    }
}

/// The items nobody caught, in order.
pub open spec fn ic_survivors(pre: MGItemCatch, props: UpdateProps) -> Seq<ICItem> {
    pre.items@.filter(|it: ICItem| ic_catcher(pre, props, it) == -1)
}

/// One tick of the catching game, exactly. Once the time limit has
/// passed the round reports the (untouched) scores as a Ratios outcome.
/// Until then: players steer, fall and jump; every item is credited to
/// the first player overlapping it (to at most one player) and removed;
/// uncaught items remain, and at most one freshly launched item joins
/// them.
pub open spec fn ic_step_rel(
    pre: MGItemCatch,
    props: UpdateProps,
    post: MGItemCatch,
    r: Option<MinigameResult>,
) -> bool {
    let t2 = spec_add_time(pre.time as int, props.time as int);
    let n = pre.players@.len() as int;
    &&& post.players == pre.players
    &&& post.time == t2
    &&& post.points@.len() == pre.points@.len()
    &&& (r is Some <==> t2 > IC_TIME_LIMIT)
    &&& if t2 > IC_TIME_LIMIT {
        &&& post.pos_x == pre.pos_x
        &&& post.pos_y == pre.pos_y
        &&& post.vel_y == pre.vel_y
        &&& post.points == pre.points
        &&& post.items == pre.items
        &&& match r {
            Option::Some(MinigameResult::Ratios(v)) => v@ == pre.points@,
            _ => false,
        }
    } else {
        &&& forall|p: int|
            0 <= p < n ==> (#[trigger] post.pos_x@[p]) == ic_px_after(pre, props, p)
                && post.pos_y@[p] == ic_py_after(pre, props, p) && post.vel_y@[p] == ic_vy_after(
                pre,
                props,
                p,
            )
        &&& forall|p: int|
            0 <= p < n ==> (#[trigger] post.points@[p]) == ic_points_after(
                pre,
                props,
                pre.items@,
                p,
            )
        &&& (post.items@ == ic_survivors(pre, props) || exists|it: ICItem|
            it.wf() && it.start_time == t2 && post.items@ == ic_survivors(pre, props).push(it))
    }
}

/// The item the executable scan finds first is the specified catcher.
proof fn lemma_catcher_found(pre: MGItemCatch, props: UpdateProps, it: ICItem, p: int)
    requires
        0 <= p < pre.players@.len(),
        ic_overlaps(pre, props, it, p),
        forall|q: int| 0 <= q < p ==> !ic_overlaps(pre, props, it, q),
    ensures
        ic_catcher(pre, props, it) == p,
    decreases p,
{
    lemma_catcher_from_skip(pre, props, it, 0, p);
}

/// Skipping non-overlapping players leaves the catcher unchanged.
proof fn lemma_catcher_from_skip(pre: MGItemCatch, props: UpdateProps, it: ICItem, q: int, p: int)
    requires
        0 <= q <= p < pre.players@.len(),
        ic_overlaps(pre, props, it, p),
        forall|m: int| q <= m < p ==> !ic_overlaps(pre, props, it, m),
    ensures
        ic_catcher_from(pre, props, it, q) == p,
    decreases p - q,
{
    if q < p {
        lemma_catcher_from_skip(pre, props, it, q + 1, p);
    }
}

/// When nobody overlaps an item, the specified catcher is -1.
proof fn lemma_catcher_none(pre: MGItemCatch, props: UpdateProps, it: ICItem, q: int)
    requires
        0 <= q <= pre.players@.len(),
        forall|m: int| q <= m < pre.players@.len() ==> !ic_overlaps(pre, props, it, m),
    ensures
        ic_catcher_from(pre, props, it, q) == -1,
    decreases pre.players@.len() - q,
{
    if q < pre.players@.len() {
        lemma_catcher_none(pre, props, it, q + 1);
    }
}

/// A falling item: its sign, launch state and launch instant; its
/// position at any later time follows from these under gravity.
#[derive(Copy, Clone, PartialEq, Eq, Structural, Debug)]
pub struct ICItem {
    pub value: i64,
    pub start_x: i64,
    pub start_y: i64,
    pub vel_x: i64,
    pub vel_y: i64,
    pub start_time: u64,
}

impl ICItem {
    pub open spec fn wf(self) -> bool {
        &&& self.value == 1 || self.value == -1
        &&& -1250 <= self.start_x <= 1250
        &&& -1500 <= self.start_y <= 0
        &&& -2000 <= self.vel_x <= 2000
        &&& -1000 <= self.vel_y <= 0
        &&& self.start_time <= IC_TIME_LIMIT
    }

    /// Where the item is `time` ms into the round: launch position plus
    /// linear motion plus the gravity parabola.
    pub fn get_pos(&self, time: u64) -> (r: (i64, i64))
        requires
            self.wf(),
            self.start_time <= time <= IC_TIME_LIMIT,
        ensures
            r.0 == ic_item_pos(*self, time as int).0,
            r.1 == ic_item_pos(*self, time as int).1,
            -3_000_000 <= r.0 <= 3_000_000,
            -3_000_000 <= r.1 <= 3_000_000,
    {
        let dt: i64 = (time - self.start_time) as i64;
        let dx: i64 = crate::mathutil::scale_time(self.vel_x, dt);
        let dy: i64 = crate::mathutil::scale_time(self.vel_y, dt);
        proof {
            assert((dt as u64) * (dt as u64) <= 900_000_000) by (nonlinear_arith)
                requires
                    0 <= dt <= 30_000,
            ;
        }
        proof {
            assert((IC_GRAVITY as int) * ((dt as int) * (dt as int)) == IC_GRAVITY * dt * dt)
                by (nonlinear_arith);
        }
        let fall: i64 = (((IC_GRAVITY as u64) * ((dt as u64) * (dt as u64))) / 2_000_000) as i64;
        let x: i64 = self.start_x + dx;
        let y: i64 = self.start_y + dy + fall;
        (x, y)
    }

    pub fn get_radius(&self) -> (r: i64)
        ensures
            r == IC_ITEM_RADIUS,
    {
        IC_ITEM_RADIUS
    }
}

/// The item-catching simulation; player state is held in parallel
/// vectors indexed like `players`.
pub struct MGItemCatch {
    pub players: Vec<Player>,
    pub pos_x: Vec<i64>,
    pub pos_y: Vec<i64>,
    pub vel_x: Vec<i64>,
    pub vel_y: Vec<i64>,
    pub points: Vec<i64>,
    pub time: u64,
    pub items: Vec<ICItem>,
}

impl MGItemCatch {
    pub open spec fn wf(self) -> bool {
        &&& self.pos_x@.len() == self.players@.len()
        &&& self.pos_y@.len() == self.players@.len()
        &&& self.vel_x@.len() == self.players@.len()
        &&& self.vel_y@.len() == self.players@.len()
        &&& self.points@.len() == self.players@.len()
        &&& self.time <= TIME_CAP
        &&& forall|i: int| 0 <= i < self.pos_x@.len() ==> -940 <= (#[trigger] self.pos_x@[i]) <= 940
        &&& forall|i: int|
            0 <= i < self.pos_y@.len() ==> -2_000_000 <= (#[trigger] self.pos_y@[i]) <= 500
        &&& forall|i: int|
            0 <= i < self.vel_x@.len() ==> -1000 <= (#[trigger] self.vel_x@[i]) <= 1000
        &&& forall|i: int|
            0 <= i < self.vel_y@.len() ==> -IC_JUMP_VEL <= (#[trigger] self.vel_y@[i])
                <= IC_TERMINAL_VEL
        &&& forall|i: int|
            0 <= i < self.points@.len() ==> -IC_SCORE_CAP <= (#[trigger] self.points@[i])
                <= IC_SCORE_CAP
        &&& forall|i: int|
            0 <= i < self.items@.len() ==> (#[trigger] self.items@[i]).wf()
                && self.items@[i].start_time <= self.time
    }

    /// A fresh round: everyone at the center of the floor, no items yet.
    pub fn new(players: Vec<Player>) -> (r: MGItemCatch)
        ensures
            r.wf(),
            r.players == players,
            r.time == 0,
            forall|i: int| 0 <= i < r.points@.len() ==> (#[trigger] r.points@[i]) == 0,
    {
        let count: usize = players.len();
        let mut pos_x: Vec<i64> = Vec::new();
        let mut pos_y: Vec<i64> = Vec::new();
        let mut vel_x: Vec<i64> = Vec::new();
        let mut vel_y: Vec<i64> = Vec::new();
        let mut points: Vec<i64> = Vec::new();
        let mut i: usize = 0;
        while i < count
            invariant
                i <= count,
                pos_x@.len() == i,
                pos_y@.len() == i,
                vel_x@.len() == i,
                vel_y@.len() == i,
                points@.len() == i,
                forall|j: int| 0 <= j < i ==> (#[trigger] pos_x@[j]) == 0,
                forall|j: int| 0 <= j < i ==> (#[trigger] pos_y@[j]) == 0,
                forall|j: int| 0 <= j < i ==> (#[trigger] vel_x@[j]) == 0,
                forall|j: int| 0 <= j < i ==> (#[trigger] vel_y@[j]) == 0,
                forall|j: int| 0 <= j < i ==> (#[trigger] points@[j]) == 0,
            decreases count - i,
        {
            pos_x.push(0);
            pos_y.push(0);
            vel_x.push(0);
            vel_y.push(0);
            points.push(0);
            i += 1;
        }
        MGItemCatch { players, pos_x, pos_y, vel_x, vel_y, points, time: 0, items: Vec::new() }
    }

    /// One tick. After the time limit the round ends with the scores as
    /// a Ratios outcome; until then players steer and jump under gravity,
    /// touching items collects their value, and new items may launch.
    pub fn update(&mut self, props: &UpdateProps) -> (r: Option<MinigameResult>)
        requires
            old(self).wf(),
            props.wf(),
        ensures
            final(self).wf(),
            ic_step_rel(*old(self), *props, *final(self), r),
            match r {
                Option::None => true,
                Option::Some(res) => res.wf(final(self).players@.len() as int),
            },
    {
        self.time = crate::mathutil::add_time(self.time, props.time);
        if self.time > IC_TIME_LIMIT {
            let mut scores: Vec<i64> = Vec::new();
            let mut i: usize = 0;
            while i < self.points.len()
                invariant
                    i <= self.points@.len(),
                    scores@ == self.points@.take(i as int),
                decreases self.points@.len() - i,
            {
                let p: i64 = self.points[i];
                scores.push(p);
                proof {
                    assert(self.points@.take(i + 1).drop_last() =~= self.points@.take(i as int));
                    assert(scores@ =~= self.points@.take(i + 1));
                }
                i += 1;
            }
            proof {
                assert(self.points@.take(self.points@.len() as int) =~= self.points@);
            }
            return Some(MinigameResult::Ratios(scores));
        }

        let n: usize = self.players.len();
        let dt: i64 = props.time as i64;
        let mut i: usize = 0;
        while i < n
            invariant
                i <= n,
                self.wf(),
                n == self.players@.len(),
                self.players == old(self).players,
                self.time == old(self).time + props.time,
                self.time <= IC_TIME_LIMIT,
                self.items == old(self).items,
                self.points == old(self).points,
                props.wf(),
                dt == props.time,
                0 <= dt <= 1_000_000,
                old(self).wf(),
                forall|p: int|
                    0 <= p < i ==> (#[trigger] self.pos_x@[p]) == ic_px_after(
                        *old(self),
                        *props,
                        p,
                    ),
                forall|p: int|
                    0 <= p < i ==> (#[trigger] self.pos_y@[p]) == ic_py_after(
                        *old(self),
                        *props,
                        p,
                    ),
                forall|p: int|
                    0 <= p < i ==> (#[trigger] self.vel_y@[p]) == ic_vy_after(
                        *old(self),
                        *props,
                        p,
                    ),
                forall|p: int|
                    i <= p < n ==> (#[trigger] self.pos_x@[p]) == old(self).pos_x@[p],
                forall|p: int|
                    i <= p < n ==> (#[trigger] self.pos_y@[p]) == old(self).pos_y@[p],
                forall|p: int|
                    i <= p < n ==> (#[trigger] self.vel_y@[p]) == old(self).vel_y@[p],
            decreases n - i,
        {
            let ctl = self.players[i].input;
            let ax: i64 = props.input.get_axis(&ctl, Axis::X) as i64;
            self.vel_x.set(i, ax);
            let mut px: i64 = self.pos_x[i] + crate::mathutil::scale_time(ax, dt);
            let mut py: i64 = self.pos_y[i] + crate::mathutil::scale_time(self.vel_y[i], dt);
            proof {
                assert((IC_GRAVITY as u64) * (dt as u64) <= 3_200_000_000) by (nonlinear_arith)
                    requires
                        0 <= dt <= 1_000_000,
                ;
            }
            let g_add: u64 = (IC_GRAVITY as u64) * (dt as u64) / 1000;
            proof {
                vstd::arithmetic::div_mod::lemma_multiply_divide_le(
                    (IC_GRAVITY as u64) * (dt as u64),
                    1000,
                    3_200_000,
                );
            }
            let mut vy: i64 = self.vel_y[i] + g_add as i64;
            if vy > IC_TERMINAL_VEL {
                vy = IC_TERMINAL_VEL;
            }
            if py >= 500 {
                py = 500;
                vy = 0;
                if props.input.is_pressed(&ctl, Button::South) {
                    vy = -IC_JUMP_VEL;
                }
            }
            if py < -2_000_000 {
                py = -2_000_000;
            }
            if px > 940 {
                px = 940;
            }
            if px < -940 {
                px = -940;
            }
            proof {
                assert(px == ic_px_after(*old(self), *props, i as int));
                assert(py == ic_py_after(*old(self), *props, i as int));
                assert(vy == ic_vy_after(*old(self), *props, i as int));
            }
            self.pos_x.set(i, px);
            self.pos_y.set(i, py);
            self.vel_y.set(i, vy);
            i += 1;
        }

        // Catching: each item still falling is checked against every
        // player in order; the first player touching it collects it.
        let ghost moved = *self;
        proof {
            assert(forall|p: int|
                0 <= p < n ==> (#[trigger] moved.vel_y@[p]) == ic_vy_after(
                    *old(self),
                    *props,
                    p,
                ));
        }
        let mut kept: Vec<ICItem> = Vec::new();
        let mut k: usize = 0;
        while k < self.items.len()
            invariant
                k <= self.items@.len(),
                self.wf(),
                old(self).wf(),
                props.wf(),
                n == self.players@.len(),
                self.players == old(self).players,
                self.pos_x == moved.pos_x,
                self.pos_y == moved.pos_y,
                self.vel_y == moved.vel_y,
                self.time == old(self).time + props.time,
                self.time <= IC_TIME_LIMIT,
                self.items == old(self).items,
                forall|p: int|
                    0 <= p < n ==> (#[trigger] self.pos_x@[p]) == ic_px_after(
                        *old(self),
                        *props,
                        p,
                    ) && self.pos_y@[p] == ic_py_after(*old(self), *props, p),
                forall|j: int| 0 <= j < kept@.len() ==> (#[trigger] kept@[j]).wf()
                    && kept@[j].start_time <= self.time,
                kept@ == old(self).items@.take(k as int).filter(
                    |it: ICItem| ic_catcher(*old(self), *props, it) == -1,
                ),
                forall|p: int|
                    0 <= p < n ==> (#[trigger] self.points@[p]) == ic_points_after(
                        *old(self),
                        *props,
                        old(self).items@.take(k as int),
                        p,
                    ),
            decreases self.items@.len() - k,
        {
            let item: ICItem = self.items[k];
            let pos: (i64, i64) = item.get_pos(self.time);
            let rad: i64 = item.get_radius();
            let ghost points_before = self.points@;
            let mut caught = false;
            let ghost mut cp: int = 0;
            let mut p: usize = 0;
            while p < n
                invariant
                    p <= n,
                    self.wf(),
                    old(self).wf(),
                    props.wf(),
                    n == self.players@.len(),
                    self.players == old(self).players,
                    self.pos_x == moved.pos_x,
                    self.pos_y == moved.pos_y,
                    self.vel_y == moved.vel_y,
                    self.time == old(self).time + props.time,
                    self.time <= IC_TIME_LIMIT,
                    self.items == old(self).items,
                    rad == IC_ITEM_RADIUS,
                    item.value == 1 || item.value == -1,
                    pos.0 == ic_item_pos(item, self.time as int).0,
                    pos.1 == ic_item_pos(item, self.time as int).1,
                    -3_000_000 <= pos.0 <= 3_000_000,
                    -3_000_000 <= pos.1 <= 3_000_000,
                    forall|q: int|
                        0 <= q < n ==> (#[trigger] self.pos_x@[q]) == ic_px_after(
                            *old(self),
                            *props,
                            q,
                        ) && self.pos_y@[q] == ic_py_after(*old(self), *props, q),
                    !caught ==> self.points@ == points_before && forall|q: int|
                        0 <= q < p ==> !ic_overlaps(*old(self), *props, item, q),
                    caught ==> 0 <= cp < n && ic_catcher(*old(self), *props, item) == cp
                        && self.points@ == points_before.update(
                        cp,
                        ic_sat_step(points_before[cp] as int, item.value as int) as i64,
                    ),
                decreases n - p,
            {
                if !caught {
                    let pxp: i64 = self.pos_x[p];
                    let pyp: i64 = self.pos_y[p];
                    if pos.0 + rad > pxp - IC_PLAYER_RADIUS && pos.0 - rad < pxp
                        + IC_PLAYER_RADIUS && pos.1 + rad > pyp - IC_PLAYER_RADIUS && pos.1 - rad
                        < pyp + IC_PLAYER_RADIUS {
                        proof {
                            assert(ic_overlaps(*old(self), *props, item, p as int));
                            lemma_catcher_found(*old(self), *props, item, p as int);
                            cp = p as int;
                        }
                        caught = true;
                        let old_score: i64 = self.points[p];
                        let new_score: i64 = if item.value > 0 {
                            if old_score >= IC_SCORE_CAP {
                                IC_SCORE_CAP
                            } else {
                                old_score + 1
                            }
                        } else {
                            if old_score <= -IC_SCORE_CAP {
                                -IC_SCORE_CAP
                            } else {
                                old_score - 1
                            }
                        };
                        self.points.set(p, new_score);
                    } else {
                        proof {
                            assert(!ic_overlaps(*old(self), *props, item, p as int));
                        }
                    }
                }
                p += 1;
            }
            proof {
                if !caught {
                    lemma_catcher_none(*old(self), *props, item, 0);
                }
                reveal(Seq::filter);
                assert(old(self).items@.take(k + 1).drop_last() =~= old(self).items@.take(
                    k as int,
                ));
                assert(old(self).items@.take(k + 1).last() == item);
            }
            if !caught {
                kept.push(item);
            }
            k += 1;
        }
        self.items = kept;
        proof {
            assert(old(self).items@.take(old(self).items@.len() as int) =~= old(self).items@);
        }

        // Launch a new item with probability proportional to the tick.
        let chance: u64 = if props.time > 1000 {
            1000
        } else {
            props.time
        };
        if crate::rng::random_chance(chance as u32, 1000) {
            let from_right: bool = crate::rng::random_chance(1, 2);
            let speed_draw: u64 = crate::rng::random_range_u64(0, 1_000_000);
            let fall_draw: u64 = crate::rng::random_range_u64(0, 1_000_000);
            let height_draw: u64 = crate::rng::random_range_u64(0, 1500);
            let good: bool = crate::rng::random_chance(1, 2);
            let speed_root: u64 = crate::mathutil::isqrt(speed_draw);
            let fall_root: u64 = crate::mathutil::isqrt(fall_draw);
            proof {
                assert(speed_root <= 999) by (nonlinear_arith)
                    requires
                        speed_root * speed_root <= 999_999,
                ;
                assert(fall_root <= 999) by (nonlinear_arith)
                    requires
                        fall_root * fall_root <= 999_999,
                ;
            }
            let vx_mag: i64 = (speed_root * 2) as i64;
            let vx: i64 = if from_right {
                -vx_mag
            } else {
                vx_mag
            };
            let item = ICItem {
                value: if good {
                    1
                } else {
                    -1
                },
                start_x: if from_right {
                    1250
                } else {
                    -1250
                },
                start_y: height_draw as i64 - 1500,
                vel_x: vx,
                vel_y: -(fall_root as i64),
                start_time: self.time,
            };
            self.items.push(item);
            proof {
                assert(item.wf());
                assert(self.items@ == ic_survivors(*old(self), *props).push(item));
            }
        }
        None
    }


    /// Registry-style constructor: a fresh instance behind the uniform
    /// minigame interface.
    pub fn init(players: Vec<Player>) -> (r: crate::minigame::Minigame)
        ensures
            r.wf(),
            r.player_count() == players@.len(),
    {
        crate::minigame::Minigame::ItemCatch(MGItemCatch::new(players))
    }

    pub fn title(&self) -> (r: &'static str) {
        "Item Catch"
    }

    pub fn description(&self) -> (r: &'static str) {
        "Catch the good drops, dodge the bad ones, before time runs out."
    }
}

} // verus!
