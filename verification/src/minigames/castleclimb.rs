//! Vertical platformer: procedurally generated ascending platforms
//! scroll downward with a rising difficulty curve; players jump and fall
//! under gravity. The last player above the death line wins.

use crate::game::UpdateProps;
use crate::mathutil::{spec_add_time, TIME_CAP};
use crate::minigame::MinigameResult;
use crate::tputil::{Axis, Button, Player, Point2D};
use vstd::prelude::*;

verus! {

/// Upward jump speed, milli-units per second.
pub const CC_JUMP_VEL: i64 = 1000;

/// Downward acceleration, milli-units per second squared.
pub const CC_GRAVITY: i64 = 2000;

/// Horizontal steering speed, milli-units per second.
pub const CC_HORIZ_VEL: i64 = 500;

/// Highest platform gap a full jump can clear, milli-units.
pub const CC_MAX_HEIGHT: i64 = 250;

/// Platform half-width and half-height, milli-units.
pub const CC_BLOCK_W: i64 = 100;

pub const CC_BLOCK_H: i64 = 10;

/// Player half-size, milli-units.
pub const CC_PLAYER_SIZE: i64 = 50;

/// The death line: a player whose y reaches this has fallen out.
pub const CC_DEATH_LINE: i64 = 2000;

/// Cap on a player's vertical fall speed, milli-units per second.
pub const CC_TERMINAL_VEL: i64 = 100_000;

/// The scroll distance this tick, milli-units: the scroll speed
/// approaches one unit per second as round time grows.
pub open spec fn cc_diff(pre: MGCastleClimb, props: UpdateProps) -> int {
    let t2 = spec_add_time(pre.time as int, props.time as int);
    let denom = t2 / 50 + 1100;
    let inv = 1_000_000int / denom;
    crate::mathutil::div_trunc((1000 - inv) * props.time, 1000)
}

/// The platforms after the scroll: shifted down by `diff`, those past
/// the death line dropped, order kept.
pub open spec fn cc_scrolled(blocks: Seq<Point2D>, diff: int) -> Seq<Point2D>
    decreases blocks.len(),
{
    if blocks.len() == 0 {
        blocks
    } else {
        let rest = cc_scrolled(blocks.drop_last(), diff);
        let b = blocks.last();
        if b.y + diff < CC_DEATH_LINE {
            rest.push(Point2D { x: b.x, y: (b.y + diff) as i64 })
        } else {
            rest
        }
    }
}

/// One platform's effect on a falling player at column `px`: standing
/// on it stops the fall (or launches a jump when the button is held).
pub open spec fn cc_land_step(state: (int, int), b: Point2D, px: int, jumps: bool) -> (
    int,
    int,
) {
    let py = state.0;
    let vy = state.1;
    if px + CC_PLAYER_SIZE > b.x - CC_BLOCK_W && px - CC_PLAYER_SIZE < b.x + CC_BLOCK_W && py
        + CC_PLAYER_SIZE > b.y - CC_BLOCK_H && py + CC_PLAYER_SIZE < b.y + CC_BLOCK_H && vy
        >= 0 {
        (
            b.y - CC_BLOCK_H - CC_PLAYER_SIZE,
            if jumps {
                -(CC_JUMP_VEL as int)
            } else {
                0
            },
        )
    } else {
        state
    }
}

/// A player's (height, vertical speed) after testing every platform in
/// order.
pub open spec fn cc_land(state: (int, int), blocks: Seq<Point2D>, px: int, jumps: bool) -> (
    int,
    int,
)
    decreases blocks.len(),
{
    if blocks.len() == 0 {
        state
    } else {
        cc_land_step(cc_land(state, blocks.drop_last(), px, jumps), blocks.last(), px, jumps)
    }
}

/// Player `p`'s column after this tick's steering.
pub open spec fn cc_px_after(pre: MGCastleClimb, props: UpdateProps, p: int) -> int {
    let ax = props.input.spec_axis_of(pre.players@[p].input, Axis::X) as int;
    let v = pre.pos_x@[p] + crate::mathutil::div_trunc(ax * props.time, 1000);
    if v > 2_000_000 {
        2_000_000
    } else if v < -2_000_000 {
        -2_000_000
    } else {
        v
    }
}

/// Player `p`'s height after scroll and fall, before the platform tests.
pub open spec fn cc_py_mid(pre: MGCastleClimb, props: UpdateProps, p: int) -> int {
    let v = pre.pos_y@[p] + cc_diff(pre, props) + crate::mathutil::div_trunc(
        pre.vel_y@[p] * props.time,
        1000,
    );
    if v < -2_000_000 {
        -2_000_000
    } else if v > 3000 {
        3000
    } else {
        v
    }
}

/// Player `p`'s fall speed after gravity, before the platform tests.
pub open spec fn cc_vy_mid(pre: MGCastleClimb, props: UpdateProps, p: int) -> int {
    let g = pre.vel_y@[p] + (CC_GRAVITY * props.time) / 1000;
    if g > CC_TERMINAL_VEL {
        CC_TERMINAL_VEL as int
    } else {
        g
    }
}

/// Player `p`'s full physics outcome this tick: scroll and fall, then
/// every scrolled platform tested in order.
pub open spec fn cc_player_after(pre: MGCastleClimb, props: UpdateProps, p: int) -> (int, int) {
    cc_land(
        (cc_py_mid(pre, props, p), cc_vy_mid(pre, props, p)),
        cc_scrolled(pre.blocks@, cc_diff(pre, props)),
        cc_px_after(pre, props, p),
        props.input.spec_held_of(pre.players@[p].input, Button::South),
    )
}

/// Whether player `i` is above the death line once the tick's physics
/// are applied.
pub open spec fn cc_alive_after(post: MGCastleClimb, i: int) -> bool {
    post.pos_y@[i] < CC_DEATH_LINE
}

/// Two or more players are above the death line after the tick.
pub open spec fn cc_two_alive_after(post: MGCastleClimb) -> bool {
    exists|i: int, j: int|
        #![trigger cc_alive_after(post, i), cc_alive_after(post, j)]
        0 <= i < j < post.pos_y@.len() && cc_alive_after(post, i) && cc_alive_after(post, j)
}

/// One tick of the climbing game: time advances, and the round reports
/// exactly when at most one player remains above the death line — the
/// survivor wins, a wipeout pays nobody.
pub open spec fn cc_step_rel(
    pre: MGCastleClimb,
    props: UpdateProps,
    post: MGCastleClimb,
    r: Option<MinigameResult>,
) -> bool {
    let n = pre.pos_y@.len() as int;
    &&& post.players == pre.players
    &&& post.time == spec_add_time(pre.time as int, props.time as int)
    &&& post.pos_y@.len() == n
    &&& post.pos_x@.len() == pre.pos_x@.len()
    &&& post.vel_y@.len() == pre.vel_y@.len()
    &&& forall|p: int|
        0 <= p < n ==> (#[trigger] post.pos_x@[p]) == cc_px_after(pre, props, p)
            && post.pos_y@[p] == cc_player_after(pre, props, p).0 && post.vel_y@[p]
            == cc_player_after(pre, props, p).1
    &&& post.blocks@.take(cc_scrolled(pre.blocks@, cc_diff(pre, props)).len() as int)
        == cc_scrolled(pre.blocks@, cc_diff(pre, props))
    &&& (r is Some <==> !cc_two_alive_after(post))
    &&& match r {
        Option::None => true,
        Option::Some(MinigameResult::Winner(w)) => 0 <= w < n && cc_alive_after(post, w as int)
            && forall|j: int| 0 <= j < n && j != w ==> !cc_alive_after(post, j),
        Option::Some(MinigameResult::Nothing) => forall|j: int|
            0 <= j < n ==> !cc_alive_after(post, j),
        _ => false,
    }
}

/// The climbing simulation; player state is in parallel vectors.
pub struct MGCastleClimb {
    pub blocks: Vec<Point2D>,
    pub players: Vec<Player>,
    pub pos_x: Vec<i64>,
    pub pos_y: Vec<i64>,
    pub vel_y: Vec<i64>,
    pub time: u64,
}

impl MGCastleClimb {
    pub open spec fn wf(self) -> bool {
        &&& self.pos_x@.len() == self.players@.len()
        &&& self.pos_y@.len() == self.players@.len()
        &&& self.vel_y@.len() == self.players@.len()
        &&& self.time <= TIME_CAP
        &&& forall|b: int|
            0 <= b < self.blocks@.len() ==> -1000 <= (#[trigger] self.blocks@[b]).x <= 1000
                && -3000 <= self.blocks@[b].y < CC_DEATH_LINE
        &&& forall|i: int|
            0 <= i < self.pos_x@.len() ==> -2_000_000 <= (#[trigger] self.pos_x@[i]) <= 2_000_000
        &&& forall|i: int|
            0 <= i < self.pos_y@.len() ==> -2_000_000 <= (#[trigger] self.pos_y@[i]) <= 3000
        &&& forall|i: int|
            0 <= i < self.vel_y@.len() ==> -CC_JUMP_VEL <= (#[trigger] self.vel_y@[i])
                <= CC_TERMINAL_VEL
    }

    /// A fresh round: one starting platform at the origin, every player
    /// just above it.
    pub fn new(players: Vec<Player>) -> (r: MGCastleClimb)
        ensures
            r.wf(),
            r.players == players,
            r.time == 0,
    {
        let count: usize = players.len();
        let mut pos_x: Vec<i64> = Vec::new();
        let mut pos_y: Vec<i64> = Vec::new();
        let mut vel_y: Vec<i64> = Vec::new();
        let mut i: usize = 0;
        while i < count
            invariant
                i <= count,
                pos_x@.len() == i,
                pos_y@.len() == i,
                vel_y@.len() == i,
                forall|j: int| 0 <= j < i ==> (#[trigger] pos_x@[j]) == 0,
                forall|j: int| 0 <= j < i ==> (#[trigger] pos_y@[j]) == -200,
                forall|j: int| 0 <= j < i ==> (#[trigger] vel_y@[j]) == 0,
            decreases count - i,
        {
            pos_x.push(0);
            pos_y.push(-200);
            vel_y.push(0);
            i += 1;
        }
        let mut blocks: Vec<Point2D> = Vec::new();
        blocks.push(Point2D { x: 0, y: 0 });
        MGCastleClimb { blocks, players, pos_x, pos_y, vel_y, time: 0 }
    }

    /// One tick: the world scrolls down at a speed that approaches one
    /// unit per second as time passes, players steer and jump off
    /// platforms, fallen players are out. Ends when at most one player
    /// is above the death line; then new platforms are generated upward.
    pub fn update(&mut self, props: &UpdateProps) -> (r: Option<MinigameResult>)
        requires
            old(self).wf(),
            props.wf(),
        ensures
            final(self).wf(),
            cc_step_rel(*old(self), *props, *final(self), r),
            match r {
                Option::None => true,
                Option::Some(res) => res.wf(final(self).players@.len() as int),
            },
    {
        self.time = crate::mathutil::add_time(self.time, props.time);
        let dt: i64 = props.time as i64;

        // Scroll factor approaches 1000 (one unit per second) over time.
        let denom: u64 = self.time / 50 + 1100;
        let inv: u64 = 1_000_000 / denom;
        proof {
            vstd::arithmetic::div_mod::lemma_multiply_divide_le(1_000_000, denom as int, 1000);
        }
        let factor: i64 = (1000 - inv) as i64;
        let diff: i64 = crate::mathutil::scale_time(factor, dt);
        proof {
            assert(factor * dt <= 1000 * 1_000_000) by (nonlinear_arith)
                requires
                    0 <= factor <= 1000,
                    0 <= dt <= 1_000_000,
            ;
            assert(factor * dt >= 0) by (nonlinear_arith)
                requires
                    0 <= factor,
                    0 <= dt,
            ;
            crate::mathutil::lemma_div_trunc_bound(factor * dt, 1000, 1_000_000);
            vstd::arithmetic::div_mod::lemma_div_pos_is_pos(factor * dt, 1000);
        }

        proof {
            assert(diff as int == cc_diff(*old(self), *props));
        }

        // Scroll platforms down, dropping any that leave the screen.
        let mut kept: Vec<Point2D> = Vec::new();
        let mut b: usize = 0;
        while b < self.blocks.len()
            invariant
                b <= self.blocks@.len(),
                self.wf(),
                self.blocks == old(self).blocks,
                0 <= diff <= 1_000_000,
                diff as int == cc_diff(*old(self), *props),
                forall|j: int|
                    0 <= j < kept@.len() ==> -1000 <= (#[trigger] kept@[j]).x <= 1000 && -3000
                        <= kept@[j].y < CC_DEATH_LINE,
                kept@ == cc_scrolled(old(self).blocks@.take(b as int), diff as int),
            decreases self.blocks@.len() - b,
        {
            let block = self.blocks[b];
            let ny: i64 = block.y + diff;
            proof {
                assert(old(self).blocks@.take(b + 1).drop_last() =~= old(self).blocks@.take(
                    b as int,
                ));
                assert(old(self).blocks@.take(b + 1).last() == block);
            }
            if ny < CC_DEATH_LINE {
                kept.push(Point2D { x: block.x, y: ny });
            }
            b += 1;
        }
        proof {
            assert(old(self).blocks@.take(old(self).blocks@.len() as int) =~= old(self).blocks@);
        }
        self.blocks = kept;
        let ghost scrolled = self.blocks@;

        // Players: steer, fall, land, jump; count who is still above the
        // death line.
        let n: usize = self.players.len();
        let mut last_alive: Option<usize> = None;
        let mut multiple = false;
        let ghost mut wx: int = 0;
        let ghost mut wy: int = 0;
        let mut i: usize = 0;
        while i < n
            invariant
                i <= n,
                self.wf(),
                n == self.players@.len(),
                self.players == old(self).players,
                props.wf(),
                0 <= diff <= 1_000_000,
                dt == props.time,
                0 <= dt <= 1_000_000,
                self.time == spec_add_time(old(self).time as int, props.time as int),
                self.pos_y@.len() == old(self).pos_y@.len(),
                old(self).pos_y@.len() == old(self).players@.len(),
                old(self).wf(),
                self.blocks@ == scrolled,
                scrolled == cc_scrolled(old(self).blocks@, cc_diff(*old(self), *props)),
                diff as int == cc_diff(*old(self), *props),
                self.pos_x@.len() == old(self).pos_x@.len(),
                self.vel_y@.len() == old(self).vel_y@.len(),
                forall|j: int|
                    i <= j < self.pos_x@.len() ==> (#[trigger] self.pos_x@[j]) == old(
                        self,
                    ).pos_x@[j],
                forall|j: int|
                    i <= j < self.vel_y@.len() ==> (#[trigger] self.vel_y@[j]) == old(
                        self,
                    ).vel_y@[j],
                forall|j: int|
                    0 <= j < i ==> (#[trigger] self.pos_x@[j]) == cc_px_after(
                        *old(self),
                        *props,
                        j,
                    ),
                forall|j: int|
                    0 <= j < i ==> (#[trigger] self.pos_y@[j]) == cc_player_after(
                        *old(self),
                        *props,
                        j,
                    ).0,
                forall|j: int|
                    0 <= j < i ==> (#[trigger] self.vel_y@[j]) == cc_player_after(
                        *old(self),
                        *props,
                        j,
                    ).1,
                match last_alive {
                    Option::None => true,
                    Option::Some(a) => a < i && (#[trigger] self.pos_y@[a as int]) < CC_DEATH_LINE,
                },
                multiple ==> 0 <= wx < wy < i && self.pos_y@[wx] < CC_DEATH_LINE
                    && self.pos_y@[wy] < CC_DEATH_LINE,
                !multiple ==> match last_alive {
                    Option::None => forall|j: int|
                        0 <= j < i ==> (#[trigger] self.pos_y@[j]) >= CC_DEATH_LINE,
                    Option::Some(a) => forall|j: int|
                        0 <= j < i && j != a ==> (#[trigger] self.pos_y@[j]) >= CC_DEATH_LINE,
                },
                forall|j: int|
                    i <= j < self.pos_y@.len() ==> (#[trigger] self.pos_y@[j]) == old(
                        self,
                    ).pos_y@[j],
            decreases n - i,
        {
            let ctl = self.players[i].input;
            let ax: i64 = props.input.get_axis(&ctl, Axis::X) as i64;
            let mut px: i64 = self.pos_x[i] + crate::mathutil::scale_time(ax, dt);
            let mut py: i64 = self.pos_y[i] + diff + crate::mathutil::scale_time(
                self.vel_y[i],
                dt,
            );
            proof {
                assert((CC_GRAVITY as u64) * (dt as u64) <= 2_000_000_000) by (nonlinear_arith)
                    requires
                        0 <= dt <= 1_000_000,
                ;
                vstd::arithmetic::div_mod::lemma_multiply_divide_le(
                    (CC_GRAVITY as u64) * (dt as u64),
                    1000,
                    2_000_000,
                );
            }
            let mut vy: i64 = self.vel_y[i] + ((CC_GRAVITY as u64 * dt as u64) / 1000) as i64;
            if vy > CC_TERMINAL_VEL {
                vy = CC_TERMINAL_VEL;
            }
            if px > 2_000_000 {
                px = 2_000_000;
            }
            if px < -2_000_000 {
                px = -2_000_000;
            }
            if py < -2_000_000 {
                py = -2_000_000;
            }
            if py > 3000 {
                py = 3000;
            }
            let jumps: bool = props.input.is_pressed(&ctl, Button::South);
            proof {
                assert(px == cc_px_after(*old(self), *props, i as int));
                assert(py as int == cc_py_mid(*old(self), *props, i as int));
                assert(vy as int == cc_vy_mid(*old(self), *props, i as int));
            }

            // Landing: standing on any platform stops the fall; pressing
            // the jump button launches upward.
            let ghost entry_state: (int, int) = (py as int, vy as int);
            let mut bi: usize = 0;
            while bi < self.blocks.len()
                invariant
                    bi <= self.blocks@.len(),
                    self.wf(),
                    props.wf(),
                    i < n,
                    n == self.players@.len(),
                    self.blocks@ == scrolled,
                    jumps == props.input.spec_held_of(
                        old(self).players@[i as int].input,
                        Button::South,
                    ),
                    self.players == old(self).players,
                    ctl == old(self).players@[i as int].input,
                    -2_000_000 <= px <= 2_000_000,
                    -2_000_000 <= py <= 3000,
                    -CC_JUMP_VEL <= vy <= CC_TERMINAL_VEL,
                    (py as int, vy as int) == cc_land(
                        entry_state,
                        self.blocks@.take(bi as int),
                        px as int,
                        jumps,
                    ),
                decreases self.blocks@.len() - bi,
            {
                let block = self.blocks[bi];
                proof {
                    assert(self.blocks@.take(bi + 1).drop_last() =~= self.blocks@.take(
                        bi as int,
                    ));
                    assert(self.blocks@.take(bi + 1).last() == block);
                }
                if px + CC_PLAYER_SIZE > block.x - CC_BLOCK_W && px - CC_PLAYER_SIZE < block.x
                    + CC_BLOCK_W && py + CC_PLAYER_SIZE > block.y - CC_BLOCK_H && py
                    + CC_PLAYER_SIZE < block.y + CC_BLOCK_H && vy >= 0 {
                    py = block.y - CC_BLOCK_H - CC_PLAYER_SIZE;
                    vy = 0;
                    if jumps {
                        vy = -CC_JUMP_VEL;
                    }
                }
                bi += 1;
            }
            proof {
                assert(self.blocks@.take(self.blocks@.len() as int) =~= self.blocks@);
                assert((py as int, vy as int) == cc_player_after(*old(self), *props, i as int));
            }

            self.pos_x.set(i, px);
            self.pos_y.set(i, py);
            self.vel_y.set(i, vy);
            if py < CC_DEATH_LINE {
                if last_alive.is_some() {
                    if !multiple {
                        proof {
                            wx = last_alive.unwrap() as int;
                            wy = i as int;
                        }
                    }
                    multiple = true;
                }
                last_alive = Some(i);
            }
            i += 1;
        }

        if !multiple {
            proof {
                assert(self.blocks@.take(scrolled.len() as int) =~= scrolled);
            }
            return match last_alive {
                Some(w) => Some(MinigameResult::Winner(w)),
                None => Some(MinigameResult::Nothing),
            };
        }
        let ghost pos_y_after_physics = self.pos_y;
        let ghost pos_x_after_physics = self.pos_x;
        let ghost vel_y_after_physics = self.vel_y;
        proof {
            assert(self.blocks@.take(scrolled.len() as int) =~= scrolled);
        }

        // Generate platforms upward until the screen is covered, each a
        // jumpable gap above the last; gaps narrow as time passes.
        let gap_denom: u64 = self.time / 5 + 1000;
        let gap_inv: u64 = 1_000_000 / gap_denom;
        proof {
            vstd::arithmetic::div_mod::lemma_multiply_divide_le(1_000_000, gap_denom as int, 1000);
        }
        let min_gap_wide: u64 = (CC_MAX_HEIGHT as u64) * (1000 - gap_inv) / 1000;
        proof {
            vstd::arithmetic::div_mod::lemma_multiply_divide_le(
                (CC_MAX_HEIGHT as u64) * (1000 - gap_inv),
                1000,
                CC_MAX_HEIGHT as int,
            );
            assert((CC_MAX_HEIGHT as u64) * (1000 - gap_inv) <= 250_000) by (nonlinear_arith)
                requires
                    gap_inv <= 1000,
            ;
        }
        let min_gap: u64 = if min_gap_wide > 249 {
            249
        } else {
            min_gap_wide
        };
        let mut last: Point2D = if self.blocks.len() > 0 {
            self.blocks[self.blocks.len() - 1]
        } else {
            Point2D { x: 0, y: 1999 }
        };
        while last.y > -2000
            invariant
                self.wf(),
                min_gap <= 249,
                -1000 <= last.x <= 1000,
                -3000 <= last.y < CC_DEATH_LINE,
                self.players == old(self).players,
                self.time == spec_add_time(old(self).time as int, props.time as int),
                self.pos_y == pos_y_after_physics,
                self.pos_x == pos_x_after_physics,
                self.vel_y == vel_y_after_physics,
                scrolled.len() <= self.blocks@.len(),
                self.blocks@.take(scrolled.len() as int) == scrolled,
                0 <= wx < wy < self.pos_y@.len(),
                self.pos_y@[wx] < CC_DEATH_LINE,
                self.pos_y@[wy] < CC_DEATH_LINE,
            decreases last.y + 3000,
        {
            let gap: u64 = crate::rng::random_range_u64(min_gap + 1, CC_MAX_HEIGHT as u64 + 2);
            proof {
                assert((CC_HORIZ_VEL as u64) * gap <= 126_000) by (nonlinear_arith)
                    requires
                        gap < 252,
                ;
            }
            let reach: i64 = CC_BLOCK_W + ((CC_HORIZ_VEL as u64) * gap / 500) as i64;
            let flip: bool = crate::rng::random_chance(1, 2);
            let mut nx: i64 = if last.x + reach > 1000 || (last.x - reach > -1000 && flip) {
                last.x - reach
            } else {
                last.x + reach
            };
            if nx > 1000 {
                nx = 1000;
            }
            if nx < -1000 {
                nx = -1000;
            }
            let ny: i64 = last.y - (gap as i64);
            last = Point2D { x: nx, y: ny };
            let ghost before_push = self.blocks@;
            self.blocks.push(last);
            proof {
                assert(self.blocks@.take(scrolled.len() as int) =~= before_push.take(
                    scrolled.len() as int,
                ));
            }
        }
        proof {
            assert(cc_alive_after(*self, wx) && cc_alive_after(*self, wy));
            assert(cc_two_alive_after(*self));
        }
        None
    }


    /// Registry-style constructor: a fresh instance behind the uniform
    /// minigame interface.
    pub fn init(players: Vec<Player>) -> (r: crate::minigame::Minigame)
        ensures
            r.wf(),
            r.player_count() == players@.len(),
    {
        crate::minigame::Minigame::CastleClimb(MGCastleClimb::new(players))
    }

    pub fn title(&self) -> (r: &'static str) {
        "Castle Climb"
    }

    pub fn description(&self) -> (r: &'static str) {
        "Keep jumping up the platforms. Do not fall off the screen!"
    }
}

} // verus!
