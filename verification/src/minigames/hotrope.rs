//! Timed obstacle game: a sweeping rope crosses the floor with growing
//! speed; players must jump over it or be swept away. The last player
//! standing wins; a sweep that takes everyone leaves no winner.

use crate::game::UpdateProps;
use crate::mathutil::{spec_add_time, TIME_CAP};
use crate::minigame::MinigameResult;
use crate::tputil::{Button, Player};
use vstd::prelude::*;

verus! {

/// Fastest sweep speed, in milli-units (1000 = the starting speed).
pub const ROPE_SPEED_CAP: u64 = 1_000_000_000;

/// Whether player `i` is still standing when the tick begins.
pub open spec fn hr_alive(pre: MGHotRope, i: int) -> bool {
    pre.swept_at@[i] < 0
}

/// The sweep clock after this tick's integration, before any cycle
/// reset.
pub open spec fn hr_rope_mid(pre: MGHotRope, props: UpdateProps) -> int {
    let adv = props.time * pre.speed / 1000;
    if pre.rope_pos + adv <= TIME_CAP {
        pre.rope_pos + adv
    } else {
        TIME_CAP as int
    }
}

/// Two or more players are standing when the tick begins.
pub open spec fn hr_more_than_one(pre: MGHotRope) -> bool {
    exists|i: int, j: int|
        #![trigger hr_alive(pre, i), hr_alive(pre, j)]
        0 <= i < j < pre.swept_at@.len() && hr_alive(pre, i) && hr_alive(pre, j)
}

/// Player `i`'s sweep stamp after the tick: a standing player not
/// mid-jump is stamped while the sweep clock crosses the window,
/// back-dated by the crossing depth; everyone else is unchanged.
pub open spec fn hr_swept_after(pre: MGHotRope, props: UpdateProps, i: int) -> int {
    let t2 = spec_add_time(pre.time as int, props.time as int);
    let mid = hr_rope_mid(pre, props);
    if hr_alive(pre, i) && pre.jumped_at@[i] < t2 - 500 && 1000 < mid < 1200 {
        let delta = (mid - 1000) * 1000int / (pre.speed as int);
        if t2 > delta {
            t2 - delta
        } else {
            0
        }
    } else {
        pre.swept_at@[i] as int
    }
}

/// Player `i`'s jump stamp after the tick: a standing player not
/// mid-jump who holds the jump button latches the tick's end instant.
pub open spec fn hr_jumped_after(pre: MGHotRope, props: UpdateProps, i: int) -> int {
    let t2 = spec_add_time(pre.time as int, props.time as int);
    if hr_alive(pre, i) && pre.jumped_at@[i] < t2 - 500 && props.input.spec_held_of(
        pre.players@[i].input,
        Button::South,
    ) {
        t2
    } else {
        pre.jumped_at@[i] as int
    }
}

/// Some swept player is still falling at the end instant `t2`.
pub open spec fn hr_waiting(pre: MGHotRope, t2: int) -> bool {
    exists|i: int|
        0 <= i < pre.swept_at@.len() && (#[trigger] pre.swept_at@[i]) >= 0 && pre.swept_at@[i]
            > t2 - 1000
}

/// One tick of the rope game: time and the sweep clock advance; a
/// completed sweep cycle with two or more players standing restarts the
/// clock at a random point and grows the speed by a tenth; the round
/// reports exactly when at most one player stands and nobody is still
/// falling — the survivor wins, a clean sweep pays nobody.
pub open spec fn hr_step_rel(
    pre: MGHotRope,
    props: UpdateProps,
    post: MGHotRope,
    r: Option<MinigameResult>,
) -> bool {
    let t2 = spec_add_time(pre.time as int, props.time as int);
    let mid = hr_rope_mid(pre, props);
    let n = pre.swept_at@.len() as int;
    &&& post.players == pre.players
    &&& post.time == t2
    &&& post.swept_at@.len() == n
    &&& post.jumped_at@.len() == pre.jumped_at@.len()
    &&& forall|i: int| 0 <= i < n ==> (#[trigger] post.swept_at@[i]) == hr_swept_after(
            pre,
            props,
            i,
        )
    &&& forall|i: int|
        0 <= i < pre.jumped_at@.len() ==> (#[trigger] post.jumped_at@[i]) == hr_jumped_after(
            pre,
            props,
            i,
        )
    &&& if hr_more_than_one(pre) && mid > 2000 {
        &&& post.speed == if pre.speed * 1100 / 1000 > ROPE_SPEED_CAP {
            ROPE_SPEED_CAP as int
        } else {
            pre.speed * 1100 / 1000
        }
        &&& -7000 < post.rope_pos <= 0
    } else {
        &&& post.speed == pre.speed
        &&& post.rope_pos == mid
    }
    &&& (r is Some <==> !hr_more_than_one(pre) && !hr_waiting(pre, t2))
    &&& match r {
        Option::None => true,
        Option::Some(MinigameResult::Winner(w)) => 0 <= w < n && hr_alive(pre, w as int)
            && forall|j: int| 0 <= j < n && j != w ==> !hr_alive(pre, j),
        Option::Some(MinigameResult::Nothing) => forall|j: int|
            0 <= j < n ==> !hr_alive(pre, j),
        _ => false,
    }
}

pub struct MGHotRope {
    pub players: Vec<Player>,
    /// Accumulated round time, ms.
    pub time: u64,
    /// The sweep clock, speed-scaled ms; the rope crosses the players
    /// while this passes the window (1000, 1200).
    pub rope_pos: i64,
    /// Per player: the instant the rope swept them, or -1 while standing.
    pub swept_at: Vec<i64>,
    /// Per player: the instant of their last jump (initially -2000, i.e.
    /// long ago).
    pub jumped_at: Vec<i64>,
    /// Sweep speed in milli-units; grows every completed sweep cycle.
    pub speed: u64,
}

impl MGHotRope {
    pub open spec fn wf(self) -> bool {
        &&& self.swept_at@.len() == self.players@.len()
        &&& self.jumped_at@.len() == self.players@.len()
        &&& self.time <= TIME_CAP
        &&& 1000 <= self.speed <= ROPE_SPEED_CAP
        &&& -7000 <= self.rope_pos <= TIME_CAP
        &&& forall|i: int|
            0 <= i < self.swept_at@.len() ==> -1 <= (#[trigger] self.swept_at@[i]) <= TIME_CAP
        &&& forall|i: int|
            0 <= i < self.jumped_at@.len() ==> -2000 <= (#[trigger] self.jumped_at@[i]) <= TIME_CAP
    }

    /// A fresh round: rope far away, everyone standing, base speed.
    pub fn new(players: Vec<Player>) -> (r: MGHotRope)
        ensures
            r.wf(),
            r.players == players,
            r.time == 0,
            forall|i: int| 0 <= i < r.swept_at@.len() ==> (#[trigger] r.swept_at@[i]) == -1,
    {
        let count: usize = players.len();
        let mut swept_at: Vec<i64> = Vec::new();
        let mut jumped_at: Vec<i64> = Vec::new();
        let mut i: usize = 0;
        while i < count
            invariant
                i <= count,
                swept_at@.len() == i,
                jumped_at@.len() == i,
                forall|j: int| 0 <= j < i ==> (#[trigger] swept_at@[j]) == -1,
                forall|j: int| 0 <= j < i ==> (#[trigger] jumped_at@[j]) == -2000,
            decreases count - i,
        {
            swept_at.push(-1);
            jumped_at.push(-2000);
            i += 1;
        }
        MGHotRope { players, time: 0, rope_pos: 10_000, swept_at, jumped_at, speed: 1000 }
    }

    /// One tick. Standing players not mid-jump are swept while the rope
    /// crosses; a jump begun at most 500 ms ago clears it. When at most
    /// one player is standing and nobody is still falling, the round
    /// ends: `Winner` for a survivor, `Nothing` when the rope took all.
    pub fn update(&mut self, props: &UpdateProps) -> (r: Option<MinigameResult>)
        requires
            old(self).wf(),
            props.wf(),
        ensures
            final(self).wf(),
            hr_step_rel(*old(self), *props, *final(self), r),
            match r {
                Option::None => true,
                Option::Some(res) => res.wf(final(self).players@.len() as int),
            },
    {
        self.time = crate::mathutil::add_time(self.time, props.time);
        let ghost t2 = self.time as int;
        proof {
            assert(props.time * self.speed <= 1_000_000 * ROPE_SPEED_CAP) by (nonlinear_arith)
                requires
                    props.time <= 1_000_000 && self.speed <= ROPE_SPEED_CAP,
            ;
        }
        let advance: u64 = props.time * self.speed / 1000;
        self.rope_pos = if advance >= (TIME_CAP as i64 - self.rope_pos) as u64 {
            TIME_CAP as i64
        } else {
            self.rope_pos + advance as i64
        };
        let ghost rope_mid = self.rope_pos as int;
        proof {
            assert(rope_mid == hr_rope_mid(*old(self), *props));
        }
        let time_now: i64 = self.time as i64;

        let mut last_alive: Option<usize> = None;
        let mut more_than_one = false;
        let mut waiting = false;
        let mut i: usize = 0;
        while i < self.players.len()
            invariant
                i <= self.players@.len(),
                self.players == old(self).players,
                self.speed == old(self).speed,
                self.rope_pos == rope_mid,
                rope_mid == hr_rope_mid(*old(self), *props),
                self.swept_at@.len() == old(self).swept_at@.len(),
                old(self).swept_at@.len() == old(self).players@.len(),
                self.wf(),
                time_now == self.time as i64,
                self.time == t2,
                t2 == spec_add_time(old(self).time as int, props.time as int),
                0 <= time_now <= TIME_CAP,
                match last_alive {
                    Option::None => true,
                    Option::Some(a) => a < i && hr_alive(*old(self), a as int),
                },
                more_than_one ==> hr_more_than_one(*old(self)),
                !more_than_one ==> match last_alive {
                    Option::None => forall|j: int|
                        0 <= j < i ==> (#[trigger] old(self).swept_at@[j]) >= 0,
                    Option::Some(a) => forall|j: int|
                        0 <= j < i && j != a ==> (#[trigger] old(self).swept_at@[j]) >= 0,
                },
                waiting <==> exists|j: int|
                    0 <= j < i && (#[trigger] old(self).swept_at@[j]) >= 0 && old(
                        self,
                    ).swept_at@[j] > t2 - 1000,
                forall|j: int|
                    0 <= j < self.swept_at@.len() && old(self).swept_at@[j] >= 0 ==> (
                    #[trigger] self.swept_at@[j]) == old(self).swept_at@[j],
                forall|j: int|
                    i <= j < self.swept_at@.len() ==> (#[trigger] self.swept_at@[j]) == old(
                        self,
                    ).swept_at@[j],
                self.jumped_at@.len() == old(self).jumped_at@.len(),
                old(self).jumped_at@.len() == old(self).players@.len(),
                forall|j: int|
                    i <= j < self.jumped_at@.len() ==> (#[trigger] self.jumped_at@[j]) == old(
                        self,
                    ).jumped_at@[j],
                forall|j: int|
                    0 <= j < i ==> (#[trigger] self.swept_at@[j]) == hr_swept_after(
                        *old(self),
                        *props,
                        j,
                    ),
                forall|j: int|
                    0 <= j < i ==> (#[trigger] self.jumped_at@[j]) == hr_jumped_after(
                        *old(self),
                        *props,
                        j,
                    ),
            decreases self.players@.len() - i,
        {
            if self.swept_at[i] < 0 {
                if last_alive.is_some() {
                    proof {
                        let a = last_alive.unwrap();
                        assert(hr_alive(*old(self), a as int) && hr_alive(*old(self), i as int));
                        assert(hr_more_than_one(*old(self)));
                    }
                    more_than_one = true;
                }
                last_alive = Some(i);
                if self.jumped_at[i] < time_now - 500 {
                    if self.rope_pos > 1000 && self.rope_pos < 1200 {
                        let delta: i64 = ((((self.rope_pos - 1000) as u64) * 1000) / self.speed)
                            as i64;
                        let stamp: i64 = if time_now > delta {
                            time_now - delta
                        } else {
                            0
                        };
                        proof {
                            assert(hr_alive(*old(self), i as int));
                            assert(old(self).jumped_at@[i as int] < t2 - 500);
                            assert(1000 < hr_rope_mid(*old(self), *props) < 1200);
                            assert(delta as int == (hr_rope_mid(*old(self), *props) - 1000)
                                * 1000int / (old(self).speed as int));
                        }
                        self.swept_at.set(i, stamp);
                    }
                    let ctl = self.players[i].input;
                    if props.input.is_pressed(&ctl, Button::South) {
                        self.jumped_at.set(i, time_now);
                    }
                }
            } else if self.swept_at[i] > time_now - 1000 {
                proof {
                    assert(old(self).swept_at@[i as int] >= 0 && old(self).swept_at@[i as int]
                        > t2 - 1000);
                }
                waiting = true;
            }
            proof {
                assert(self.swept_at@[i as int] == hr_swept_after(*old(self), *props, i as int));
                assert(self.jumped_at@[i as int] == hr_jumped_after(
                    *old(self),
                    *props,
                    i as int,
                ));
            }
            i += 1;
        }

        if more_than_one && self.rope_pos > 2000 {
            let reset: u64 = crate::rng::random_range_u64(0, 7000);
            self.rope_pos = -(reset as i64);
            let faster: u64 = self.speed * 1100 / 1000;
            self.speed = if faster > ROPE_SPEED_CAP {
                ROPE_SPEED_CAP
            } else {
                faster
            };
        }
        if more_than_one || waiting {
            return None;
        }
        match last_alive {
            None => Some(MinigameResult::Nothing),
            Some(winner) => Some(MinigameResult::Winner(winner)),
        }
    }


    /// Registry-style constructor: a fresh instance behind the uniform
    /// minigame interface.
    pub fn init(players: Vec<Player>) -> (r: crate::minigame::Minigame)
        ensures
            r.wf(),
            r.player_count() == players@.len(),
    {
        crate::minigame::Minigame::HotRope(MGHotRope::new(players))
    }

    pub fn title(&self) -> (r: &'static str) {
        "Hot Rope"
    }

    pub fn description(&self) -> (r: &'static str) {
        "Jump the sweeping rope. It only gets faster!"
    }
}

} // verus!
