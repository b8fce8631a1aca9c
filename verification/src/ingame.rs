//! The per-match session state and the movement phases: die roll,
//! branch choice, board movement and space resolution.

use crate::board::{Board, SpaceID, SpaceType};
use crate::game::{UpdateProps, UpdateResult, Phase};
use crate::minigame::{apply_delta, clamp_coins, MinigameState};
use crate::tputil::{Axis, Button, Player, COLOR_COUNT};
use vstd::prelude::*;

verus! {

/// Cost of the objective token, in currency.
pub const STAR_COST: u16 = 20;

/// Currency granted or deducted by a space effect.
pub const SPACE_EFFECT: i64 = 3;

/// How long the space-result pause lasts, ms.
pub const SPACE_RESULT_MS: u64 = 1000;

/// How long the die-roll confirmation animation lasts, ms.
pub const DIE_ANIM_MS: u64 = 500;

/// How often the cycling die advances, ms (roughly a ninth of a second).
pub const DIE_CYCLE_MS: u64 = 111;

/// Steering deadzone: an axis must exceed this (milli-units) to steer.
pub const STEER_DEADZONE: i32 = 500;

/// One player's progress through a match.
#[derive(Copy, Clone, PartialEq, Eq, Structural, Debug)]
pub struct PlayerInfo {
    pub player: Player,
    pub space: SpaceID,
    pub coins: u16,
    pub stars: u8,
}

impl PlayerInfo {
    /// Valid relative to a board: the color is a palette index and the
    /// occupied space exists.
    pub open spec fn wf(self, board: Board) -> bool {
        &&& self.player.wf()
        &&& board.has_space(self.space)
    }
}

impl From<Player> for PlayerInfo {
    /// A newly joined player: at the first space with nothing earned yet.
    fn from(player: Player) -> (r: PlayerInfo) {
        PlayerInfo { player, space: 0, coins: 0, stars: 0 }
    }
}

impl vstd::std_specs::convert::FromSpecImpl<Player> for PlayerInfo {
    open spec fn obeys_from_spec() -> bool {
        true
    }

    open spec fn from_spec(player: Player) -> PlayerInfo {
        PlayerInfo { player, space: 0, coins: 0, stars: 0 }
    }
}

/// Whether a list of players is a valid roster for `board`: everyone on
/// an existing space, palette colors, and no two players sharing a color
/// or an input source.
pub open spec fn roster_ok(players: Seq<PlayerInfo>, board: Board) -> bool {
    &&& forall|i: int| 0 <= i < players.len() ==> (#[trigger] players[i]).wf(board)
    &&& forall|i: int, j: int|
        0 <= i < j < players.len() ==> (#[trigger] players[i]).player.color != (
        #[trigger] players[j]).player.color
    &&& forall|i: int, j: int|
        0 <= i < j < players.len() ==> (#[trigger] players[i]).player.input != (
        #[trigger] players[j]).player.input
}

/// The session: board, roster in turn order, and where the objective
/// token currently sits.
pub struct GameInfo {
    pub players: Vec<PlayerInfo>,
    pub board: Board,
    pub star_space: SpaceID,
}

impl GameInfo {
    pub open spec fn wf(self) -> bool {
        &&& self.board.wf()
        &&& 1 <= self.players@.len() <= COLOR_COUNT
        &&& roster_ok(self.players@, self.board)
        &&& self.board.has_space(self.star_space)
    }

    /// Builds a session from a roster and a board, placing the objective
    /// token on a uniformly random space.
    pub fn new(players: Vec<PlayerInfo>, board: Board) -> (r: GameInfo)
        requires
            board.wf(),
            board.spaces@.len() >= 1,
            1 <= players@.len() <= COLOR_COUNT,
            roster_ok(players@, board),
        ensures
            r.wf(),
            r.players == players,
            r.board == board,
    {
        let star_space = GameInfo::choose_star_space(&board);
        GameInfo { players, board, star_space }
    }

    /// A uniformly random existing space id.
    fn choose_star_space(board: &Board) -> (r: SpaceID)
        requires
            board.spaces@.len() >= 1,
        ensures
            board.has_space(r),
    {
        let k: usize = crate::rng::random_index(board.spaces.len());
        board.spaces[k].id
    }

    /// The balances of all players, in turn order.
    pub fn coin_balances(&self) -> (r: Vec<u16>)
        ensures
            r@.len() == self.players@.len(),
            forall|i: int| 0 <= i < r@.len() ==> r@[i] == (#[trigger] self.players@[i]).coins,
    {
        let mut r: Vec<u16> = Vec::new();
        let mut i: usize = 0;
        while i < self.players.len()
            invariant
                i <= self.players@.len(),
                r@.len() == i,
                forall|j: int| 0 <= j < i ==> r@[j] == (#[trigger] self.players@[j]).coins,
            decreases self.players@.len() - i,
        {
            let c: u16 = self.players[i].coins;
            r.push(c);
            i += 1;
        }
        r
    }
}

/// The die-roll phase: a number cycles 1 to 9 until the active player
/// confirms; a short animation then plays and the frozen number becomes
/// the move count.
pub struct DieRollState {
    pub game: GameInfo,
    pub time: u64,
    pub anim: u64,
    pub jump: bool,
    pub turn: usize,
    pub number: u8,
}

impl DieRollState {
    pub open spec fn wf(self) -> bool {
        &&& self.game.wf()
        &&& self.turn < self.game.players@.len()
        &&& 1 <= self.number <= 9
        &&& self.time <= crate::mathutil::TIME_CAP
        &&& self.anim <= crate::mathutil::TIME_CAP
    }

    pub fn new(game: GameInfo, turn: usize) -> (r: DieRollState)
        requires
            game.wf(),
            turn < game.players@.len(),
        ensures
            r.wf(),
            r.game == game,
            r.turn == turn,
            !r.jump,
            r.number == 1,
    {
        DieRollState { game, time: 0, anim: 0, jump: false, turn, number: 1 }
    }

    /// What one tick of this phase does, exactly; the update's whole
    /// contract.
    pub open spec fn step_ok(self, props: UpdateProps, r: UpdateResult) -> bool {
        {
                let held = props.input.spec_held_of(
                    self.game.players@[self.turn as int].player.input,
                    Button::South,
                );
                let anim2 = crate::mathutil::spec_add_time(self.anim as int, props.time as int);
                let time2 = crate::mathutil::spec_add_time(self.time as int, props.time as int);
                let branches = self.game.board.space_of(
                    self.game.players@[self.turn as int].space,
                ).transitions@.len();
                match r {
                    UpdateResult::Continue(p) => match p {
                        Phase::DieRoll(d) => {
                            &&& d.game == self.game
                            &&& d.turn == self.turn
                            &&& if self.jump {
                                // The confirmation animation runs; once it is
                                // over, only a dead-end space can stall here.
                                &&& d.jump
                                &&& d.number == self.number
                                &&& d.time == self.time
                                &&& d.anim == anim2
                                &&& anim2 > DIE_ANIM_MS ==> branches == 0
                            } else if held {
                                // Confirm: the number freezes.
                                &&& d.jump
                                &&& d.number == self.number
                                &&& d.time == self.time
                                &&& d.anim == self.anim
                            } else {
                                // Still cycling: one step per cycle period.
                                &&& !d.jump
                                &&& d.anim == self.anim
                                &&& d.time == time2 % (DIE_CYCLE_MS as int)
                                &&& d.number == ((self.number - 1 + (time2 / (
                                DIE_CYCLE_MS as int)) % 9) % 9) + 1
                            }
                        },
                        _ => false,
                    },
                    UpdateResult::NewState(p) => {
                        &&& self.jump
                        &&& anim2 > DIE_ANIM_MS
                        &&& match p {
                            Phase::TransitionChoice(t) => t.game == self.game && t.turn
                                == self.turn && t.remaining == self.number && branches > 1,
                            Phase::BoardMove(b) => b.game == self.game && b.turn == self.turn
                                && b.remaining == self.number && b.transition == 0 && branches
                                == 1,
                            _ => false,
                        }
                    },
                }
            }
    }

    /// One tick. While unconfirmed the number advances roughly every
    /// ninth of a second; once the active player confirms, the number
    /// freezes and after the animation the phase hands over to movement:
    /// branch choice when the current space forks, plain movement
    /// otherwise.
    pub fn update(self, props: &UpdateProps) -> (r: UpdateResult)
        requires
            self.wf(),
            props.wf(),
        ensures
            r.phase().wf(),
            self.step_ok(*props, r),
    {
        let turn = self.turn;
        let number = self.number;
        let game = self.game;
        let mut time = self.time;
        let mut anim = self.anim;
        let mut jump = self.jump;
        let mut new_number = number;
        if jump {
            anim = crate::mathutil::add_time(anim, props.time);
            if anim > DIE_ANIM_MS {
                let space_id: SpaceID = game.players[turn].space;
                let branches: usize = game.board.space_ref(space_id).transitions.len();
                if branches > 1 {
                    return UpdateResult::NewState(
                        Phase::TransitionChoice(TransitionChoiceState::new(game, turn, number)),
                    );
                } else if branches == 1 {
                    return UpdateResult::NewState(
                        Phase::BoardMove(BoardMoveState::new(game, 0, turn, number)),
                    );
                }
                // A dead-end space: there is nowhere to move, so the
                // phase stays (a stalled phase, never a crash).
            }
        } else {
            let ctl = game.players[turn].player.input;
            if props.input.is_pressed(&ctl, Button::South) {
                jump = true;
            } else {
                time = crate::mathutil::add_time(time, props.time);
                let steps: u64 = time / DIE_CYCLE_MS;
                time = time % DIE_CYCLE_MS;
                proof {
                    assert(((number - 1) as u64 + steps % 9) % 9 < 9) by (nonlinear_arith);
                }
                new_number = ((((number - 1) as u64 + steps % 9) % 9) + 1) as u8;
            }
        }
        UpdateResult::Continue(
            Phase::DieRoll(DieRollState { game, time, anim, jump, turn, number: new_number }),
        )
    }
}

/// The bearing (millidegrees) from the space `sid` to the destination of
/// its `k`-th transition.
pub open spec fn edge_bearing(game: GameInfo, sid: SpaceID, k: int) -> int {
    let sp = game.board.space_of(sid);
    let dest = game.board.space_of(sp.transitions@[k].to);
    crate::mathutil::spec_bearing(dest.pos.x - sp.pos.x, dest.pos.y - sp.pos.y)
}

/// `sel` is the transition whose bearing lies closest (in wrapped
/// angular distance) to the input bearing `user`, earliest index on ties.
pub open spec fn selected_is_closest(game: GameInfo, turn: int, user: int, sel: int) -> bool {
    let sid = game.players[turn].space;
    let trans = game.board.space_of(sid).transitions@;
    &&& 0 <= sel < trans.len()
    &&& forall|k: int|
        0 <= k < trans.len() ==> crate::mathutil::angle_diff(
            user,
            edge_bearing(game, sid, sel),
        ) <= crate::mathutil::angle_diff(user, #[trigger] edge_bearing(game, sid, k))
    &&& forall|k: int|
        0 <= k < sel ==> crate::mathutil::angle_diff(user, edge_bearing(game, sid, sel))
            < crate::mathutil::angle_diff(user, #[trigger] edge_bearing(game, sid, k))
}

/// The branch-choice phase: the active player steers an analog direction
/// and the transition whose bearing lies closest (in wrapped angular
/// distance) to the input direction is selected; confirming starts the
/// move along it.
pub struct TransitionChoiceState {
    pub game: GameInfo,
    pub turn: usize,
    pub time: u64,
    pub selected: usize,
    pub remaining: u8,
}

impl TransitionChoiceState {
    pub open spec fn wf(self) -> bool {
        &&& self.game.wf()
        &&& self.turn < self.game.players@.len()
        &&& self.selected < self.game.board.space_of(
            self.game.players@[self.turn as int].space,
        ).transitions@.len()
        &&& 1 <= self.remaining
        &&& self.time <= crate::mathutil::TIME_CAP
    }

    pub fn new(game: GameInfo, turn: usize, remaining: u8) -> (r: TransitionChoiceState)
        requires
            game.wf(),
            turn < game.players@.len(),
            1 <= remaining,
            game.board.space_of(game.players@[turn as int].space).transitions@.len() >= 1,
        ensures
            r.wf(),
            r.game == game,
            r.turn == turn,
            r.remaining == remaining,
            r.selected == 0,
    {
        TransitionChoiceState { game, turn, remaining, time: 0, selected: 0 }
    }

    /// What one tick of this phase does, exactly; the update's whole
    /// contract.
    pub open spec fn step_ok(self, props: UpdateProps, r: UpdateResult) -> bool {
        {
                let ctl = self.game.players@[self.turn as int].player.input;
                let held = props.input.spec_held_of(ctl, Button::South);
                let ix = props.input.spec_axis_of(ctl, Axis::X) as int;
                let iy = -(props.input.spec_axis_of(ctl, Axis::Y) as int);
                let steering = ix > STEER_DEADZONE || ix < -STEER_DEADZONE || iy
                    > STEER_DEADZONE || iy < -STEER_DEADZONE;
                match r {
                    UpdateResult::Continue(p) => match p {
                        Phase::TransitionChoice(t) => {
                            &&& !held
                            &&& t.game == self.game
                            &&& t.turn == self.turn
                            &&& t.remaining == self.remaining
                            &&& t.time == crate::mathutil::spec_add_time(
                                self.time as int,
                                props.time as int,
                            )
                            &&& if steering {
                                selected_is_closest(
                                    self.game,
                                    self.turn as int,
                                    crate::mathutil::spec_bearing(ix, iy),
                                    t.selected as int,
                                )
                            } else {
                                t.selected == self.selected
                            }
                        },
                        _ => false,
                    },
                    UpdateResult::NewState(p) => held && match p {
                        Phase::BoardMove(b) => b.game == self.game && b.turn == self.turn
                            && b.remaining == self.remaining && b.transition == self.selected,
                        _ => false,
                    },
                }
            }
    }

    /// One tick: steering beyond the deadzone re-selects the transition
    /// with the nearest bearing; confirming moves along the selection.
    pub fn update(self, props: &UpdateProps) -> (r: UpdateResult)
        requires
            self.wf(),
            props.wf(),
        ensures
            r.phase().wf(),
            self.step_ok(*props, r),
    {
        let turn = self.turn;
        let game = self.game;
        let mut selected = self.selected;
        let time = crate::mathutil::add_time(self.time, props.time);
        let ctl = game.players[turn].player.input;
        if props.input.is_pressed(&ctl, Button::South) {
            return UpdateResult::NewState(
                Phase::BoardMove(BoardMoveState::new(game, selected, turn, self.remaining)),
            );
        }
        let input_x: i32 = props.input.get_axis(&ctl, Axis::X);
        let input_y: i32 = -props.input.get_axis(&ctl, Axis::Y);
        if input_x > STEER_DEADZONE || input_x < -STEER_DEADZONE || input_y > STEER_DEADZONE
            || input_y < -STEER_DEADZONE {
            let user: i64 = crate::mathutil::bearing_millideg(input_x as i64, input_y as i64);
            let space_id: SpaceID = game.players[turn].space;
            let space = game.board.space_ref(space_id);
            let mut bearings: Vec<i64> = Vec::new();
            let mut k: usize = 0;
            while k < space.transitions.len()
                invariant
                    k <= space.transitions@.len(),
                    game.wf(),
                    turn < game.players@.len(),
                    space_id == game.players@[turn as int].space,
                    *space == game.board.space_of(game.players@[turn as int].space),
                    space.pos.in_bounds(),
                    forall|m: int|
                        0 <= m < space.transitions@.len() ==> game.board.has_space(
                            (#[trigger] space.transitions@[m]).to,
                        ),
                    bearings@.len() == k,
                    forall|m: int|
                        0 <= m < bearings@.len() ==> -180_000 < (#[trigger] bearings@[m])
                            <= 180_000,
                    forall|m: int|
                        0 <= m < bearings@.len() ==> (#[trigger] bearings@[m]) == edge_bearing(
                            game,
                            space_id,
                            m,
                        ),
                decreases space.transitions@.len() - k,
            {
                let dest_id: SpaceID = space.transitions[k].to;
                let dest = game.board.space_ref(dest_id);
                let b: i64 = crate::mathutil::bearing_millideg(
                    dest.pos.x - space.pos.x,
                    dest.pos.y - space.pos.y,
                );
                bearings.push(b);
                k += 1;
            }
            if bearings.len() > 0 {
                selected = crate::mathutil::choose_closest_bearing(&bearings, user);
                proof {
                    assert forall|m: int|
                        0 <= m < space.transitions@.len() implies crate::mathutil::angle_diff(
                        user as int,
                        edge_bearing(game, space_id, selected as int),
                    ) <= crate::mathutil::angle_diff(
                        user as int,
                        #[trigger] edge_bearing(game, space_id, m),
                    ) by {
                        assert(bearings@[m] == edge_bearing(game, space_id, m));
                    }
                    assert forall|m: int| 0 <= m < selected implies crate::mathutil::angle_diff(
                        user as int,
                        edge_bearing(game, space_id, selected as int),
                    ) < crate::mathutil::angle_diff(
                        user as int,
                        #[trigger] edge_bearing(game, space_id, m),
                    ) by {
                        assert(bearings@[m] == edge_bearing(game, space_id, m));
                    }
                }
            }
        }
        UpdateResult::Continue(
            Phase::TransitionChoice(
                TransitionChoiceState {
                    game,
                    turn,
                    time,
                    selected,
                    remaining: self.remaining,
                },
            ),
        )
    }
}

/// Destination of the `transition`-th edge out of the space the active
/// player occupies.
pub open spec fn dest_of(game: GameInfo, turn: int, transition: int) -> SpaceID {
    game.board.space_of(game.players[turn].space).transitions[transition].to
}

/// Whether landing on `dest` buys the objective token for the player.
pub open spec fn star_bought(game: GameInfo, turn: int, dest: SpaceID) -> bool {
    dest == game.star_space && game.players[turn].coins >= STAR_COST
}

/// The balance after a possible objective-token purchase.
pub open spec fn coins_after_star(game: GameInfo, turn: int, dest: SpaceID) -> int {
    if star_bought(game, turn, dest) {
        game.players[turn].coins - STAR_COST
    } else {
        game.players[turn].coins as int
    }
}

/// The token count after a possible objective-token purchase (counts
/// saturate at the field's capacity).
pub open spec fn stars_after_star(game: GameInfo, turn: int, dest: SpaceID) -> int {
    if star_bought(game, turn, dest) {
        if game.players[turn].stars == 255 {
            255
        } else {
            game.players[turn].stars + 1
        }
    } else {
        game.players[turn].stars as int
    }
}

/// The signed currency effect of ending a move on `dest`.
pub open spec fn effect_delta(game: GameInfo, dest: SpaceID) -> int {
    match game.board.space_of(dest).space_type {
        SpaceType::Positive => SPACE_EFFECT as int,
        SpaceType::Negative => -(SPACE_EFFECT as int),
    }
}

/// The movement phase: the active player slides from the current space
/// to the chosen transition's destination over a duration proportional
/// to the distance between them.
pub struct BoardMoveState {
    pub game: GameInfo,
    pub time: u64,
    pub transition: usize,
    pub duration: u64,
    pub turn: usize,
    pub remaining: u8,
}

impl BoardMoveState {
    pub open spec fn wf(self) -> bool {
        &&& self.game.wf()
        &&& self.turn < self.game.players@.len()
        &&& self.transition < self.game.board.space_of(
            self.game.players@[self.turn as int].space,
        ).transitions@.len()
        &&& 1 <= self.remaining
        &&& self.time <= crate::mathutil::TIME_CAP
    }

    /// Starts a move; its duration is the distance between the two
    /// spaces divided by five (a fifth of a second per board unit).
    pub fn new(game: GameInfo, transition: usize, turn: usize, remaining: u8) -> (r:
        BoardMoveState)
        requires
            game.wf(),
            turn < game.players@.len(),
            transition < game.board.space_of(game.players@[turn as int].space).transitions@.len(),
            1 <= remaining,
        ensures
            r.wf(),
            r.game == game,
            r.turn == turn,
            r.transition == transition,
            r.remaining == remaining,
            r.time == 0,
            ({
                let a = game.board.space_of(game.players@[turn as int].space).pos;
                let b = game.board.space_of(
                    dest_of(game, turn as int, transition as int),
                ).pos;
                let d2 = (b.x - a.x) * (b.x - a.x) + (b.y - a.y) * (b.y - a.y);
                (5 * r.duration) * (5 * r.duration) <= d2 < (5 * r.duration + 5) * (5
                    * r.duration + 5)
            }),
    {
        let start = game.board.space_ref(game.players[turn].space);
        let dest_id: SpaceID = start.transitions[transition].to;
        let pos_start = start.pos;
        let dest = game.board.space_ref(dest_id);
        let d: u64 = crate::tputil::Point2D::dist(pos_start, dest.pos);
        let duration: u64 = d / 5;
        proof {
            vstd::arithmetic::div_mod::lemma_fundamental_div_mod(d as int, 5);
            assert((5 * duration) * (5 * duration) <= (d as int) * (d as int))
                by (nonlinear_arith)
                requires
                    0 <= 5 * duration <= d,
            ;
            assert((d + 1) * (d + 1) <= (5 * duration + 5) * (5 * duration + 5))
                by (nonlinear_arith)
                requires
                    0 <= d < 5 * duration + 5,
            ;
        }
        BoardMoveState { game, time: 0, transition, duration, turn, remaining }
    }

    /// One tick. When the duration elapses: the player arrives at the
    /// destination; landing on the objective-token space with enough
    /// currency buys a token and relocates it; with moves left the walk
    /// continues (forking into branch choice at forks), and on the final
    /// space its effect is applied and the result shown. The effect is
    /// applied through the clamped update (`clamp_coins`), so a balance
    /// never goes negative; `lemma_currency_floor` states the general
    /// law for any delta sequence.
    /// What one tick of this phase does, exactly; the update's whole
    /// contract.
    pub open spec fn step_ok(self, props: UpdateProps, r: UpdateResult) -> bool {
            match r {
                UpdateResult::Continue(p) => match p {
                    Phase::BoardMove(b) => {
                        &&& b.game == self.game
                        &&& b.turn == self.turn
                        &&& b.remaining == self.remaining
                        &&& b.transition == self.transition
                        &&& b.duration == self.duration
                        &&& b.time == crate::mathutil::spec_add_time(
                            self.time as int,
                            props.time as int,
                        )
                        &&& b.time <= self.duration
                    },
                    _ => false,
                },
                UpdateResult::NewState(p) => {
                    let dest = dest_of(self.game, self.turn as int, self.transition as int);
                    &&& crate::mathutil::spec_add_time(self.time as int, props.time as int)
                        > self.duration
                    &&& match p {
                        Phase::TransitionChoice(t) => {
                            &&& self.remaining > 1
                            &&& t.turn == self.turn
                            &&& t.remaining == self.remaining - 1
                            &&& self.game.board.space_of(dest).transitions@.len() > 1
                            &&& t.game.board == self.game.board
                            &&& t.game.players@.len() == self.game.players@.len()
                            &&& t.game.players@[self.turn as int].space == dest
                            &&& t.game.players@[self.turn as int].coins == coins_after_star(
                                self.game,
                                self.turn as int,
                                dest,
                            )
                            &&& t.game.players@[self.turn as int].stars == stars_after_star(
                                self.game,
                                self.turn as int,
                                dest,
                            )
                            &&& !star_bought(self.game, self.turn as int, dest)
                                ==> t.game.star_space == self.game.star_space
                        },
                        Phase::BoardMove(b) => {
                            &&& self.remaining > 1
                            &&& b.turn == self.turn
                            &&& b.remaining == self.remaining - 1
                            &&& b.transition == 0
                            &&& self.game.board.space_of(dest).transitions@.len() == 1
                            &&& b.game.board == self.game.board
                            &&& b.game.players@.len() == self.game.players@.len()
                            &&& b.game.players@[self.turn as int].space == dest
                            &&& b.game.players@[self.turn as int].coins == coins_after_star(
                                self.game,
                                self.turn as int,
                                dest,
                            )
                            &&& b.game.players@[self.turn as int].stars == stars_after_star(
                                self.game,
                                self.turn as int,
                                dest,
                            )
                            &&& !star_bought(self.game, self.turn as int, dest)
                                ==> b.game.star_space == self.game.star_space
                        },
                        Phase::SpaceResult(s) => {
                            &&& s.turn == self.turn
                            &&& self.remaining == 1 || self.game.board.space_of(
                                dest,
                            ).transitions@.len() == 0
                            &&& s.game.board == self.game.board
                            &&& s.game.players@.len() == self.game.players@.len()
                            &&& s.game.players@[self.turn as int].space == dest
                            &&& s.game.players@[self.turn as int].coins == clamp_coins(
                                coins_after_star(self.game, self.turn as int, dest)
                                    + effect_delta(self.game, dest),
                            )
                            &&& s.game.players@[self.turn as int].stars == stars_after_star(
                                self.game,
                                self.turn as int,
                                dest,
                            )
                            &&& !star_bought(self.game, self.turn as int, dest)
                                ==> s.game.star_space == self.game.star_space
                        },
                        _ => false,
                    }
                },
            }
    }

    pub fn update(self, props: &UpdateProps) -> (r: UpdateResult)
        requires
            self.wf(),
            props.wf(),
        ensures
            r.phase().wf(),
            self.step_ok(*props, r),
    {
        let turn = self.turn;
        let mut game = self.game;
        let time = crate::mathutil::add_time(self.time, props.time);
        if time > self.duration {
            let space_id: SpaceID = game.players[turn].space;
            let dest_id: SpaceID;
            {
                let start = game.board.space_ref(space_id);
                dest_id = start.transitions[self.transition].to;
            }
            proof {
                assert(game.board.has_space(dest_id));
            }
            let ghost pre_game = game;

            let mut moved: PlayerInfo = game.players[turn];
            moved.space = dest_id;

            if dest_id == game.star_space && moved.coins >= STAR_COST {
                moved.coins = moved.coins - STAR_COST;
                moved.stars = if moved.stars == 255 {
                    255
                } else {
                    moved.stars + 1
                };
                game.players.set(turn, moved);
                game.star_space = GameInfo::choose_star_space(&game.board);
            } else {
                game.players.set(turn, moved);
            }
            proof {
                assert(roster_ok(game.players@, game.board));
                assert(game.wf());
                assert(game.players@[turn as int].coins == coins_after_star(
                    pre_game,
                    turn as int,
                    dest_id,
                ));
            }

            if self.remaining > 1 {
                let branches: usize = game.board.space_ref(dest_id).transitions.len();
                if branches > 1 {
                    return UpdateResult::NewState(
                        Phase::TransitionChoice(
                            TransitionChoiceState::new(game, turn, self.remaining - 1),
                        ),
                    );
                } else if branches == 1 {
                    return UpdateResult::NewState(
                        Phase::BoardMove(BoardMoveState::new(game, 0, turn, self.remaining - 1)),
                    );
                }
            }
            // Final space (or a dead end): apply its effect and show the
            // outcome.
            let mut landed: PlayerInfo = game.players[turn];
            let delta: i64 = {
                let dest_space = game.board.space_ref(dest_id);
                match dest_space.space_type {
                    SpaceType::Positive => SPACE_EFFECT,
                    SpaceType::Negative => -SPACE_EFFECT,
                }
            };
            landed.coins = apply_delta(landed.coins, delta);
            game.players.set(turn, landed);
            proof {
                assert(roster_ok(game.players@, game.board));
            }
            return UpdateResult::NewState(
                Phase::SpaceResult(SpaceResultState { game, time: 0, turn }),
            );
        }
        UpdateResult::Continue(
            Phase::BoardMove(
                BoardMoveState {
                    game,
                    time,
                    transition: self.transition,
                    duration: self.duration,
                    turn,
                    remaining: self.remaining,
                },
            ),
        )
    }
}

/// The pause after a move resolves, showing the outcome; then the next
/// player rolls, or — after the last player — a minigame round begins.
pub struct SpaceResultState {
    pub game: GameInfo,
    pub time: u64,
    pub turn: usize,
}

impl SpaceResultState {
    pub open spec fn wf(self) -> bool {
        &&& self.game.wf()
        &&& self.turn < self.game.players@.len()
        &&& self.time <= crate::mathutil::TIME_CAP
    }

    /// What one tick of this phase does, exactly; the update's whole
    /// contract.
    pub open spec fn step_ok(self, props: UpdateProps, r: UpdateResult) -> bool {
            match r {
                UpdateResult::Continue(p) => match p {
                    Phase::SpaceResult(s) => {
                        &&& s.game == self.game
                        &&& s.turn == self.turn
                        &&& s.time == crate::mathutil::spec_add_time(
                            self.time as int,
                            props.time as int,
                        )
                        &&& s.time <= SPACE_RESULT_MS
                    },
                    _ => false,
                },
                UpdateResult::NewState(p) => crate::mathutil::spec_add_time(
                    self.time as int,
                    props.time as int,
                ) > SPACE_RESULT_MS && match p {
                    Phase::DieRoll(d) => self.turn + 1 < self.game.players@.len() && d.turn
                        == self.turn + 1 && d.game == self.game,
                    Phase::Minigame(m) => self.turn + 1 == self.game.players@.len() && m.game
                        == self.game,
                    _ => false,
                },
            }
    }

    /// One tick: after the pause, hand the turn on — to the next
    /// player's die roll, or to a random minigame once every player has
    /// moved this round.
    pub fn update(self, props: &UpdateProps) -> (r: UpdateResult)
        requires
            self.wf(),
            props.wf(),
        ensures
            r.phase().wf(),
            self.step_ok(*props, r),
    {
        let turn = self.turn;
        let game = self.game;
        let time = crate::mathutil::add_time(self.time, props.time);
        if time > SPACE_RESULT_MS {
            if turn + 1 < game.players.len() {
                return UpdateResult::NewState(Phase::DieRoll(DieRollState::new(game, turn + 1)));
            } else {
                return UpdateResult::NewState(Phase::Minigame(MinigameState::new_random(game)));
            }
        }
        UpdateResult::Continue(Phase::SpaceResult(SpaceResultState { game, time, turn }))
    }
}

} // verus!
