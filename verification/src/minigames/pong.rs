//! Multi-wall pong: up to four players each guard one wall of a square
//! arena. The ball bounces off paddles at an angle set by where it hits
//! the paddle (linear in the offset from the paddle center, at most 60
//! degrees). A breached wall turns into a plain rebounding wall and its
//! player is out; the last player in control wins.

use crate::game::UpdateProps;
use crate::mathutil::{spec_add_time, TIME_CAP};
use crate::minigame::MinigameResult;
use crate::tputil::{Axis, Player};
use vstd::prelude::*;

verus! {

/// Distance from the arena edge to a paddle face, milli-units.
pub const PG_WALL_OFFSET: i64 = 20;

/// Paddle thickness, milli-units.
pub const PG_PADDLE_HEIGHT: i64 = 50;

/// Paddle length, milli-units.
pub const PG_PADDLE_WIDTH: i64 = 200;

/// Ball radius, milli-units.
pub const PG_BALL_RADIUS: i64 = 30;

/// Largest bounce angle off a paddle, millidegrees.
pub const PG_MAX_BOUNCE: i64 = 60_000;

/// Serving speed of the ball, milli-units per second.
pub const PG_START_SPEED: i64 = 800;

/// Speed after a paddle bounce, milli-units per second.
pub const PG_BOUNCE_SPEED: i64 = 1000;

/// Where a paddle face sits: beyond this the ball is behind the paddles.
pub const PG_WALL_DIST: i64 = 1000 - PG_WALL_OFFSET - PG_PADDLE_HEIGHT - PG_BALL_RADIUS;

/// Beyond this the ball is out of the arena on that side.
pub const PG_OOB_DIST: i64 = 1030;

/// Position cap for the ball, far outside the arena.
pub const PG_BALL_CAP: i64 = 10_000;

/// Whether player `i` still controls a wall when the tick begins (only
/// the first four players guard walls).
pub open spec fn pg_controls(pre: MGPong, i: int) -> bool {
    0 <= i < pre.players@.len() && i < 4 && !pre.out@[i]
}

/// Two or more players control walls when the tick begins.
pub open spec fn pg_two_controls(pre: MGPong) -> bool {
    exists|i: int, j: int|
        #![trigger pg_controls(pre, i), pg_controls(pre, j)]
        i < j && pg_controls(pre, i) && pg_controls(pre, j)
}

/// The ball's x after this tick's integration, clamped to the cap.
pub open spec fn pg_ball_mid_x(pre: MGPong, props: UpdateProps) -> int {
    let v = pre.ball_x + crate::mathutil::div_trunc(pre.vel_x * props.time, 1000);
    if v > PG_BALL_CAP {
        PG_BALL_CAP as int
    } else if v < -PG_BALL_CAP {
        -PG_BALL_CAP as int
    } else {
        v
    }
}

/// The ball's y after this tick's integration, clamped to the cap.
pub open spec fn pg_ball_mid_y(pre: MGPong, props: UpdateProps) -> int {
    let v = pre.ball_y + crate::mathutil::div_trunc(pre.vel_y * props.time, 1000);
    if v > PG_BALL_CAP {
        PG_BALL_CAP as int
    } else if v < -PG_BALL_CAP {
        -PG_BALL_CAP as int
    } else {
        v
    }
}

/// Where wall `i`'s paddle sits after this tick's steering input.
#[verifier::opaque]
pub open spec fn pg_paddle_after(pre: MGPong, props: UpdateProps, i: int) -> int {
    let a = props.input.spec_axis_of(
        pre.players@[i].input,
        if i < 2 {
            Axis::Y
        } else {
            Axis::X
        },
    ) as int;
    let step = if i < 2 {
        -crate::mathutil::div_trunc(a * 10, 1000)
    } else {
        crate::mathutil::div_trunc(a * 10, 1000)
    };
    let p = pre.position@[i] + step;
    if p > 900 {
        900
    } else if p < -900 {
        -900
    } else {
        p
    }
}

/// The integrated ball's coordinate along wall `i`.
pub open spec fn pg_along(pre: MGPong, props: UpdateProps, i: int) -> int {
    if i < 2 {
        pg_ball_mid_y(pre, props)
    } else {
        pg_ball_mid_x(pre, props)
    }
}

/// The integrated ball's coordinate toward wall `i`.
pub open spec fn pg_toward(pre: MGPong, props: UpdateProps, i: int) -> int {
    if i == 0 {
        -pg_ball_mid_x(pre, props)
    } else if i == 1 {
        pg_ball_mid_x(pre, props)
    } else if i == 2 {
        pg_ball_mid_y(pre, props)
    } else {
        -pg_ball_mid_y(pre, props)
    }
}

/// The integrated ball lies past wall `i`'s out-of-bounds line: wall
/// `i`'s player, if in control, is breached this tick.
pub open spec fn pg_breached(pre: MGPong, props: UpdateProps, i: int) -> bool {
    pg_toward(pre, props, i) > PG_OOB_DIST
}

/// The integrated ball meets wall `i`'s (moved) paddle.
#[verifier::opaque]
pub open spec fn pg_bounce_cond(pre: MGPong, props: UpdateProps, i: int) -> bool {
    let along = pg_along(pre, props, i);
    let pp = pg_paddle_after(pre, props, i);
    &&& pg_toward(pre, props, i) > PG_WALL_DIST
    &&& along + PG_BALL_RADIUS > pp - PG_PADDLE_WIDTH / 2
    &&& along - PG_BALL_RADIUS < pp + PG_PADDLE_WIDTH / 2
}

/// Wall `i` interacts with the ball this tick: a controlled wall's
/// paddle meets it, or an uncontrolled wall rebounds it.
pub open spec fn pg_interacts(pre: MGPong, props: UpdateProps, i: int) -> bool {
    &&& 0 <= i < 4
    &&& if pg_controls(pre, i) {
        pg_bounce_cond(pre, props, i)
    } else {
        pg_toward(pre, props, i) > PG_WALL_DIST
    }
}

/// No wall other than `i` interacts with the ball this tick.
pub open spec fn pg_lone(pre: MGPong, props: UpdateProps, i: int) -> bool {
    forall|j: int| j != i ==> !(#[trigger] pg_interacts(pre, props, j))
}

/// The velocity an offset-mapped bounce off wall `i` yields: the angle
/// off the wall normal is linear in the paddle-relative intersection,
/// capped at the 60-degree maximum, at the bounce speed.
#[verifier::opaque]
pub open spec fn pg_bounce_vel(pre: MGPong, props: UpdateProps, i: int) -> (int, int) {
    let along = pg_along(pre, props, i);
    let pp = pg_paddle_after(pre, props, i);
    let raw = crate::mathutil::div_trunc((pp - along) * 2000, PG_PADDLE_WIDTH as int);
    let normalized = if raw > 1000 {
        1000
    } else if raw < -1000 {
        -1000
    } else {
        raw
    };
    let angle = -crate::mathutil::div_trunc(normalized * PG_MAX_BOUNCE, 1000);
    let c = crate::mathutil::div_trunc(
        crate::mathutil::spec_milli_cos(angle) * PG_BOUNCE_SPEED,
        1000,
    );
    let sn = crate::mathutil::div_trunc(
        crate::mathutil::spec_milli_sin(angle) * PG_BOUNCE_SPEED,
        1000,
    );
    if i == 0 {
        (c, sn)
    } else if i == 1 {
        (-c, sn)
    } else if i == 2 {
        (sn, -c)
    } else {
        (sn, c)
    }
}

/// One tick of the wall game: time advances, a player out stays out,
/// and the round reports exactly when at most one player still controls
/// a wall — that player wins, and nobody wins an empty arena.
pub open spec fn pg_step_rel(
    pre: MGPong,
    props: UpdateProps,
    post: MGPong,
    r: Option<MinigameResult>,
) -> bool {
    &&& post.players == pre.players
    &&& post.time == spec_add_time(pre.time as int, props.time as int)
    &&& post.out@.len() == pre.out@.len()
    &&& forall|j: int|
        0 <= j < pre.out@.len() ==> (#[trigger] post.out@[j]) == (pre.out@[j] || (pg_controls(
            pre,
            j,
        ) && pg_breached(pre, props, j)))
    &&& forall|i: int|
        #![trigger pg_bounce_vel(pre, props, i)]
        pg_controls(pre, i) && pg_bounce_cond(pre, props, i) && pg_lone(pre, props, i)
            ==> post.vel_x == pg_bounce_vel(pre, props, i).0 && post.vel_y == pg_bounce_vel(
            pre,
            props,
            i,
        ).1
    &&& (r is Some <==> !pg_two_controls(pre))
    &&& match r {
        Option::None => true,
        Option::Some(MinigameResult::Winner(w)) => pg_controls(pre, w as int) && forall|j: int|
            j != w ==> !(#[trigger] pg_controls(pre, j)),
        Option::Some(MinigameResult::Nothing) => forall|j: int| !(#[trigger] pg_controls(
            pre,
            j,
        )),
        _ => false,
    }
}

/// The four-wall pong simulation; paddle state is in parallel vectors.
/// Wall order: left, right, bottom, top.
pub struct MGPong {
    pub players: Vec<Player>,
    pub position: Vec<i64>,
    pub out: Vec<bool>,
    pub time: u64,
    pub ball_x: i64,
    pub ball_y: i64,
    pub vel_x: i64,
    pub vel_y: i64,
}

impl MGPong {
    pub open spec fn wf(self) -> bool {
        &&& self.position@.len() == self.players@.len()
        &&& self.out@.len() == self.players@.len()
        &&& self.time <= TIME_CAP
        &&& -PG_BALL_CAP <= self.ball_x <= PG_BALL_CAP
        &&& -PG_BALL_CAP <= self.ball_y <= PG_BALL_CAP
        &&& -2000 <= self.vel_x <= 2000
        &&& -2000 <= self.vel_y <= 2000
        &&& forall|i: int|
            0 <= i < self.position@.len() ==> -900 <= (#[trigger] self.position@[i]) <= 900
    }

    /// A fresh round: paddles centered, the ball served from the middle
    /// in a uniformly random direction.
    pub fn new(players: Vec<Player>) -> (r: MGPong)
        ensures
            r.wf(),
            r.players == players,
            r.time == 0,
            forall|i: int| 0 <= i < r.out@.len() ==> !(#[trigger] r.out@[i]),
    {
        let count: usize = players.len();
        let mut position: Vec<i64> = Vec::new();
        let mut out: Vec<bool> = Vec::new();
        let mut i: usize = 0;
        while i < count
            invariant
                i <= count,
                position@.len() == i,
                out@.len() == i,
                forall|j: int| 0 <= j < i ==> (#[trigger] position@[j]) == 0,
                forall|j: int| 0 <= j < i ==> !(#[trigger] out@[j]),
            decreases count - i,
        {
            position.push(0);
            out.push(false);
            i += 1;
        }
        let angle: i64 = crate::rng::random_range_u64(0, 360_001) as i64 - 180_000;
        let vx: i64 = crate::mathutil::div_milli(crate::mathutil::milli_cos(angle) * PG_START_SPEED);
        let vy: i64 = crate::mathutil::div_milli(crate::mathutil::milli_sin(angle) * PG_START_SPEED);
        MGPong { players, position, out, time: 0, ball_x: 0, ball_y: 0, vel_x: vx, vel_y: vy }
    }

    /// One tick: the ball flies; each of the four walls either belongs
    /// to a live player (paddle moves, ball may bounce off it with the
    /// offset-dependent angle, a ball past it puts the player out) or
    /// rebounds the ball plainly. Ends when at most one player is left
    /// in control.
    #[verifier::rlimit(100)]
    pub fn update(&mut self, props: &UpdateProps) -> (r: Option<MinigameResult>)
        requires
            old(self).wf(),
            props.wf(),
        ensures
            final(self).wf(),
            pg_step_rel(*old(self), *props, *final(self), r),
            match r {
                Option::None => true,
                Option::Some(res) => res.wf(final(self).players@.len() as int),
            },
    {
        self.time = crate::mathutil::add_time(self.time, props.time);
        let dt: i64 = props.time as i64;
        let mut bx: i64 = self.ball_x + crate::mathutil::scale_time(self.vel_x, dt);
        let mut by: i64 = self.ball_y + crate::mathutil::scale_time(self.vel_y, dt);
        if bx > PG_BALL_CAP {
            bx = PG_BALL_CAP;
        }
        if bx < -PG_BALL_CAP {
            bx = -PG_BALL_CAP;
        }
        if by > PG_BALL_CAP {
            by = PG_BALL_CAP;
        }
        if by < -PG_BALL_CAP {
            by = -PG_BALL_CAP;
        }
        self.ball_x = bx;
        self.ball_y = by;
        proof {
            assert(bx == pg_ball_mid_x(*old(self), *props));
            assert(by == pg_ball_mid_y(*old(self), *props));
        }

        let n: usize = self.players.len();
        let mut survivor: Option<usize> = None;
        let mut multiple = false;
        // Ghost record of which walls touched the ball: -1 none so far,
        // k >= 0 a single paddle bounce off wall k, -3 a plain rebound
        // happened (witness pr), -2 two interactions (witnesses pk1, pk2).
        let ghost mut lb: int = -1;
        let ghost mut pr: int = 0;
        let ghost mut pk1: int = 0;
        let ghost mut pk2: int = 0;
        let mut i: usize = 0;
        while i < 4
            invariant
                i <= 4,
                self.wf(),
                n == self.players@.len(),
                self.players == old(self).players,
                props.wf(),
                dt == props.time,
                self.time == spec_add_time(old(self).time as int, props.time as int),
                self.out@.len() == old(self).out@.len(),
                match survivor {
                    Option::None => true,
                    Option::Some(a) => a < i && pg_controls(*old(self), a as int),
                },
                multiple ==> pg_two_controls(*old(self)),
                !multiple ==> match survivor {
                    Option::None => forall|j: int| 0 <= j < i ==> !(#[trigger] pg_controls(
                        *old(self),
                        j,
                    )),
                    Option::Some(a) => forall|j: int|
                        0 <= j < i && j != a ==> !(#[trigger] pg_controls(*old(self), j)),
                },
                bx == pg_ball_mid_x(*old(self), *props),
                by == pg_ball_mid_y(*old(self), *props),
                self.position@.len() == old(self).position@.len(),
                forall|j: int|
                    i <= j < self.position@.len() ==> (#[trigger] self.position@[j]) == old(
                        self,
                    ).position@[j],
                forall|j: int|
                    0 <= j < i && j < self.out@.len() ==> (#[trigger] self.out@[j]) == (old(
                        self,
                    ).out@[j] || (pg_controls(*old(self), j) && pg_breached(
                        *old(self),
                        *props,
                        j,
                    ))),
                forall|j: int|
                    i <= j < self.out@.len() ==> (#[trigger] self.out@[j]) == old(self).out@[j],
                lb == -1 || lb == -2 || lb == -3 || 0 <= lb < i,
                lb == -1 ==> self.vel_x == old(self).vel_x && self.vel_y == old(self).vel_y
                    && forall|j: int| 0 <= j < i ==> !(#[trigger] pg_interacts(
                    *old(self),
                    *props,
                    j,
                )),
                lb >= 0 ==> pg_controls(*old(self), lb) && pg_bounce_cond(*old(self), *props, lb)
                    && self.vel_x == pg_bounce_vel(*old(self), *props, lb).0 && self.vel_y
                    == pg_bounce_vel(*old(self), *props, lb).1 && forall|j: int|
                    0 <= j < i && j != lb ==> !(#[trigger] pg_interacts(*old(self), *props, j)),
                lb == -3 ==> 0 <= pr < i && pg_interacts(*old(self), *props, pr)
                    && !pg_controls(*old(self), pr),
                lb == -2 ==> 0 <= pk1 < i && 0 <= pk2 < i && pk1 != pk2 && pg_interacts(
                    *old(self),
                    *props,
                    pk1,
                ) && pg_interacts(*old(self), *props, pk2),
            decreases 4 - i,
        {
            if i < n && !self.out[i] {
                if survivor.is_some() {
                    proof {
                        let a = survivor.unwrap();
                        assert(pg_controls(*old(self), a as int) && pg_controls(
                            *old(self),
                            i as int,
                        ));
                    }
                    multiple = true;
                }
                survivor = Some(i);

                let ctl = self.players[i].input;
                let axis_kind = if i < 2 {
                    Axis::Y
                } else {
                    Axis::X
                };
                let a: i64 = props.input.get_axis(&ctl, axis_kind) as i64;
                let scaled: i64 = crate::mathutil::div_milli(a * 10);
                let step: i64 = if i < 2 {
                    -scaled
                } else {
                    scaled
                };
                let mut pp: i64 = self.position[i] + step;
                if pp > 900 {
                    pp = 900;
                }
                if pp < -900 {
                    pp = -900;
                }
                proof {
                    reveal(pg_paddle_after);
                    assert(pp == pg_paddle_after(*old(self), *props, i as int));
                }
                self.position.set(i, pp);

                // The coordinate along the wall where the integrated
                // ball sits, and the coordinate toward the wall.
                let along: i64 = if i < 2 {
                    by
                } else {
                    bx
                };
                let toward: i64 = if i == 0 {
                    -bx
                } else if i == 1 {
                    bx
                } else if i == 2 {
                    by
                } else {
                    -by
                };
                let bounce_hit = toward > PG_WALL_DIST && along + PG_BALL_RADIUS > pp
                    - PG_PADDLE_WIDTH / 2 && along - PG_BALL_RADIUS < pp + PG_PADDLE_WIDTH / 2;
                proof {
                    reveal(pg_bounce_cond);
                    assert(bounce_hit == pg_bounce_cond(*old(self), *props, i as int));
                }
                if bounce_hit {
                    let intersect: i64 = pp - along;
                    // A ball clipping a paddle edge maps slightly past
                    // the ends; the bounce angle is capped at the
                    // 60-degree maximum either way.
                    let mut normalized: i64 = crate::mathutil::div_trunc_i64(
                        intersect * 2000,
                        PG_PADDLE_WIDTH,
                    );
                    if normalized > 1000 {
                        normalized = 1000;
                    }
                    if normalized < -1000 {
                        normalized = -1000;
                    }
                    let angle: i64 = -crate::mathutil::div_milli(normalized * PG_MAX_BOUNCE);
                    proof {
                        crate::mathutil::lemma_div_trunc_bound(
                            normalized * PG_MAX_BOUNCE,
                            1000,
                            60_000,
                        );
                    }
                    let cos_a: i64 = crate::mathutil::milli_cos(angle);
                    let sin_a: i64 = crate::mathutil::milli_sin(angle);
                    let cb: i64 = crate::mathutil::div_milli(cos_a * PG_BOUNCE_SPEED);
                    let sb: i64 = crate::mathutil::div_milli(sin_a * PG_BOUNCE_SPEED);
                    if i == 0 {
                        self.vel_x = cb;
                        self.vel_y = sb;
                    } else if i == 1 {
                        self.vel_x = -cb;
                        self.vel_y = sb;
                    } else if i == 2 {
                        self.vel_x = sb;
                        self.vel_y = -cb;
                    } else {
                        self.vel_x = sb;
                        self.vel_y = cb;
                    }
                    proof {
                        reveal(pg_bounce_vel);
                        reveal(pg_paddle_after);
                        assert(self.vel_x == pg_bounce_vel(*old(self), *props, i as int).0
                            && self.vel_y == pg_bounce_vel(*old(self), *props, i as int).1);
                        assert(pg_interacts(*old(self), *props, i as int));
                        if lb == -1 {
                            lb = i as int;
                        } else if lb >= 0 {
                            pk1 = lb;
                            pk2 = i as int;
                            lb = -2;
                        } else if lb == -3 {
                            pk1 = pr;
                            pk2 = i as int;
                            lb = -2;
                        }
                    }
                } else {
                    proof {
                        assert(!pg_interacts(*old(self), *props, i as int));
                    }
                }
                if toward > PG_OOB_DIST {
                    self.out.set(i, true);
                }
            } else {
                // A wall without a live player rebounds the integrated
                // ball plainly.
                if i == 0 {
                    if bx < -PG_WALL_DIST {
                        self.vel_x = if self.vel_x < 0 {
                            -self.vel_x
                        } else {
                            self.vel_x
                        };
                        self.ball_x = -PG_WALL_DIST - (bx + PG_WALL_DIST);
                        proof {
                            assert(pg_interacts(*old(self), *props, i as int));
                            if lb >= 0 {
                                pk1 = lb;
                                pk2 = i as int;
                                lb = -2;
                            } else if lb == -1 || lb == -3 {
                                pr = i as int;
                                lb = -3;
                            }
                        }
                    } else {
                        proof {
                            assert(!pg_interacts(*old(self), *props, i as int));
                        }
                    }
                } else if i == 1 {
                    if bx > PG_WALL_DIST {
                        self.vel_x = if self.vel_x > 0 {
                            -self.vel_x
                        } else {
                            self.vel_x
                        };
                        self.ball_x = PG_WALL_DIST - (bx - PG_WALL_DIST);
                        proof {
                            assert(pg_interacts(*old(self), *props, i as int));
                            if lb >= 0 {
                                pk1 = lb;
                                pk2 = i as int;
                                lb = -2;
                            } else if lb == -1 || lb == -3 {
                                pr = i as int;
                                lb = -3;
                            }
                        }
                    } else {
                        proof {
                            assert(!pg_interacts(*old(self), *props, i as int));
                        }
                    }
                } else if i == 2 {
                    if by > PG_WALL_DIST {
                        self.vel_y = if self.vel_y > 0 {
                            -self.vel_y
                        } else {
                            self.vel_y
                        };
                        self.ball_y = PG_WALL_DIST - (by - PG_WALL_DIST);
                        proof {
                            assert(pg_interacts(*old(self), *props, i as int));
                            if lb >= 0 {
                                pk1 = lb;
                                pk2 = i as int;
                                lb = -2;
                            } else if lb == -1 || lb == -3 {
                                pr = i as int;
                                lb = -3;
                            }
                        }
                    } else {
                        proof {
                            assert(!pg_interacts(*old(self), *props, i as int));
                        }
                    }
                } else {
                    if by < -PG_WALL_DIST {
                        self.vel_y = if self.vel_y < 0 {
                            -self.vel_y
                        } else {
                            self.vel_y
                        };
                        self.ball_y = -PG_WALL_DIST - (by + PG_WALL_DIST);
                        proof {
                            assert(pg_interacts(*old(self), *props, i as int));
                            if lb >= 0 {
                                pk1 = lb;
                                pk2 = i as int;
                                lb = -2;
                            } else if lb == -1 || lb == -3 {
                                pr = i as int;
                                lb = -3;
                            }
                        }
                    } else {
                        proof {
                            assert(!pg_interacts(*old(self), *props, i as int));
                        }
                    }
                }
            }
            i += 1;
        }

        proof {
            assert forall|w: int|
                #![trigger pg_bounce_vel(*old(self), *props, w)]
                pg_controls(*old(self), w) && pg_bounce_cond(*old(self), *props, w) && pg_lone(
                    *old(self),
                    *props,
                    w,
                ) implies self.vel_x == pg_bounce_vel(*old(self), *props, w).0 && self.vel_y
                == pg_bounce_vel(*old(self), *props, w).1 by {
                assert(pg_interacts(*old(self), *props, w));
                if lb == -1 {
                    assert(!pg_interacts(*old(self), *props, w));
                } else if lb == -3 {
                    if pr != w {
                        assert(!pg_interacts(*old(self), *props, pr));
                    }
                } else if lb == -2 {
                    if pk1 != w {
                        assert(!pg_interacts(*old(self), *props, pk1));
                    } else {
                        assert(!pg_interacts(*old(self), *props, pk2));
                    }
                } else {
                    if lb != w {
                        assert(!pg_interacts(*old(self), *props, lb));
                        assert(pg_interacts(*old(self), *props, lb));
                    }
                }
            }
        }
        if multiple {
            return None;
        }
        match survivor {
            None => Some(MinigameResult::Nothing),
            Some(w) => Some(MinigameResult::Winner(w)),
        }
    }


    /// Registry-style constructor: a fresh instance behind the uniform
    /// minigame interface.
    pub fn init(players: Vec<Player>) -> (r: crate::minigame::Minigame)
        ensures
            r.wf(),
            r.player_count() == players@.len(),
    {
        crate::minigame::Minigame::Pong(MGPong::new(players))
    }

    pub fn title(&self) -> (r: &'static str) {
        "Four Walls"
    }

    pub fn description(&self) -> (r: &'static str) {
        "Guard your wall. Lose it and you are out; outlast the rest."
    }
}

} // verus!
