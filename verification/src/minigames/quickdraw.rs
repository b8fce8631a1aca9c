//! Reaction buzzer game: a random "go" time is drawn; whoever signals
//! before it is eliminated at that instant, whoever signals first after
//! it wins. If everyone jumps the gun, nobody wins.

use crate::game::UpdateProps;
use crate::mathutil::{spec_add_time, TIME_CAP};
use crate::minigame::MinigameResult;
use crate::tputil::{Button, InputState, Player};
use vstd::prelude::*;

verus! {

/// Whether player `i` is standing (no stamp yet) and holding the signal
/// in this tick's snapshot.
pub open spec fn qd_presses(pre: MGQuickdraw, input: InputState, i: int) -> bool {
    pre.player_buzzes@[i] < 0 && input.spec_held_of(pre.players@[i].input, Button::South)
}

/// The elimination stamp player `i` carries after a tick that ends at
/// `t2`: signalling before the go time stamps the moment, everything
/// else is unchanged.
pub open spec fn qd_stamp_after(pre: MGQuickdraw, input: InputState, t2: int, i: int) -> int {
    if t2 < pre.buzz_time && qd_presses(pre, input, i) {
        t2
    } else {
        pre.player_buzzes@[i] as int
    }
}

/// One tick of the buzzer game, exactly: time advances, early signals
/// stamp their players out, the first player holding the signal at or
/// after the go time wins, a full set of stamps ends the round with no
/// winner, and otherwise the round continues.
pub open spec fn qd_step_rel(
    pre: MGQuickdraw,
    props: UpdateProps,
    post: MGQuickdraw,
    r: Option<MinigameResult>,
) -> bool {
    let t2 = spec_add_time(pre.time as int, props.time as int);
    let n = pre.players@.len() as int;
    &&& post.players == pre.players
    &&& post.buzz_time == pre.buzz_time
    &&& post.time == t2
    &&& post.player_buzzes@.len() == pre.player_buzzes@.len()
    &&& forall|i: int|
        0 <= i < n ==> (#[trigger] post.player_buzzes@[i]) == qd_stamp_after(
            pre,
            props.input,
            t2,
            i,
        )
    &&& match r {
        Option::Some(MinigameResult::Winner(w)) => {
            &&& t2 >= pre.buzz_time
            &&& 0 <= w < n
            &&& qd_presses(pre, props.input, w as int)
            &&& forall|j: int| 0 <= j < w ==> !qd_presses(pre, props.input, j)
        },
        Option::Some(MinigameResult::Nothing) => {
            &&& !(t2 >= pre.buzz_time && exists|i: int|
                0 <= i < n && qd_presses(pre, props.input, i))
            &&& forall|i: int|
                0 <= i < n ==> #[trigger] qd_stamp_after(pre, props.input, t2, i) >= 0
        },
        Option::None => {
            &&& !(t2 >= pre.buzz_time && exists|i: int|
                0 <= i < n && qd_presses(pre, props.input, i))
            &&& exists|i: int| 0 <= i < n && qd_stamp_after(pre, props.input, t2, i) < 0
        },
        _ => false,
    }
}

/// Earliest possible "go" time, milliseconds into the round.
pub const BUZZ_MIN: u64 = 1000;

/// Exclusive upper bound of the "go" time.
pub const BUZZ_MAX: u64 = 10_000;

pub struct MGQuickdraw {
    pub players: Vec<Player>,
    /// The randomly drawn "go" instant, ms.
    pub buzz_time: u64,
    /// Accumulated round time, ms.
    pub time: u64,
    /// Per player: the instant they signalled early (eliminating them),
    /// or -1 while they have not signalled.
    pub player_buzzes: Vec<i64>,
}

impl MGQuickdraw {
    pub open spec fn wf(self) -> bool {
        &&& self.player_buzzes@.len() == self.players@.len()
        &&& BUZZ_MIN <= self.buzz_time < BUZZ_MAX
        &&& self.time <= TIME_CAP
        &&& forall|i: int|
            0 <= i < self.player_buzzes@.len() ==> -1 <= (#[trigger] self.player_buzzes@[i])
                <= TIME_CAP
    }

    /// A fresh round: everyone in, a random "go" time drawn.
    pub fn new(players: Vec<Player>) -> (r: MGQuickdraw)
        ensures
            r.wf(),
            r.players == players,
            r.time == 0,
            forall|i: int| 0 <= i < r.player_buzzes@.len() ==> (#[trigger] r.player_buzzes@[i]) == -1,
    {
        let count: usize = players.len();
        let buzz_time: u64 = crate::rng::random_range_u64(BUZZ_MIN, BUZZ_MAX);
        let mut player_buzzes: Vec<i64> = Vec::new();
        let mut i: usize = 0;
        while i < count
            invariant
                i <= count,
                player_buzzes@.len() == i,
                forall|j: int| 0 <= j < i ==> (#[trigger] player_buzzes@[j]) == -1,
            decreases count - i,
        {
            player_buzzes.push(-1);
            i += 1;
        }
        MGQuickdraw { players, buzz_time, time: 0, player_buzzes }
    }

    /// One tick, exactly as `qd_step_rel` states it: a player holding
    /// the signal before the "go" time records an elimination stamp; the
    /// first one holding it at or after "go" wins outright; when nobody
    /// is left unsignalled, the round ends with no winner.
    pub fn update(&mut self, props: &UpdateProps) -> (r: Option<MinigameResult>)
        requires
            old(self).wf(),
            props.wf(),
        ensures
            final(self).wf(),
            qd_step_rel(*old(self), *props, *final(self), r),
            match r {
                Option::None => true,
                Option::Some(res) => res.wf(final(self).players@.len() as int),
            },
    {
        self.time = crate::mathutil::add_time(self.time, props.time);
        let ghost t2 = self.time as int;
        let mut all_dead = true;
        let mut i: usize = 0;
        while i < self.players.len()
            invariant
                i <= self.players@.len(),
                self.players == old(self).players,
                self.buzz_time == old(self).buzz_time,
                self.player_buzzes@.len() == old(self).player_buzzes@.len(),
                old(self).player_buzzes@.len() == old(self).players@.len(),
                self.time == t2,
                t2 == spec_add_time(old(self).time as int, props.time as int),
                self.wf(),
                props.wf(),
                forall|j: int|
                    0 <= j < i ==> (#[trigger] self.player_buzzes@[j]) == qd_stamp_after(
                        *old(self),
                        props.input,
                        t2,
                        j,
                    ),
                forall|j: int|
                    i <= j < self.player_buzzes@.len() ==> (#[trigger] self.player_buzzes@[j])
                        == old(self).player_buzzes@[j],
                all_dead <==> (forall|j: int|
                    0 <= j < i ==> #[trigger] qd_stamp_after(*old(self), props.input, t2, j)
                        >= 0),
                self.time as int >= old(self).buzz_time ==> forall|j: int|
                    0 <= j < i ==> !qd_presses(*old(self), props.input, j),
            decreases self.players@.len() - i,
        {
            if self.player_buzzes[i] < 0 {
                let ctl = self.players[i].input;
                if props.input.is_pressed(&ctl, Button::South) {
                    if self.time < self.buzz_time {
                        let stamp: i64 = self.time as i64;
                        self.player_buzzes.set(i, stamp);
                    } else {
                        return Some(MinigameResult::Winner(i));
                    }
                } else {
                    all_dead = false;
                }
            }
            proof {
                assert(self.player_buzzes@[i as int] == qd_stamp_after(
                    *old(self),
                    props.input,
                    t2,
                    i as int,
                ));
            }
            i += 1;
        }
        if all_dead {
            Some(MinigameResult::Nothing)
        } else {
            None
        }
    }


    /// Registry-style constructor: a fresh instance behind the uniform
    /// minigame interface.
    pub fn init(players: Vec<Player>) -> (r: crate::minigame::Minigame)
        ensures
            r.wf(),
            r.player_count() == players@.len(),
    {
        crate::minigame::Minigame::Quickdraw(MGQuickdraw::new(players))
    }

    pub fn title(&self) -> (r: &'static str) {
        "Quickdraw"
    }

    pub fn description(&self) -> (r: &'static str) {
        "Jump when the light turns green. Too early and you are out!"
    }
}

} // verus!
