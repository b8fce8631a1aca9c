//! The phase protocol: the top-level state machine's phases, the result
//! a phase update hands back, and what the host feeds every tick.

use crate::ingame::{BoardMoveState, DieRollState, SpaceResultState, TransitionChoiceState};
use crate::minigame::{MinigameResultState, MinigameState};
use crate::setup::{JoinState, MenuState};
use crate::tputil::InputState;
use vstd::prelude::*;

verus! {

/// Longest tick the engine accepts, in milliseconds. A host feeding
/// larger steps is broken; the bound keeps fixed-point physics inside
/// 64 bits.
pub const TICK_LIMIT: u64 = 1_000_000;

/// What one update tick carries: the elapsed time since the previous
/// tick in milliseconds and the input snapshot for this tick.
pub struct UpdateProps {
    pub time: u64,
    pub input: InputState,
}

impl UpdateProps {
    pub open spec fn wf(self) -> bool {
        &&& self.input.wf()
        &&& self.time <= TICK_LIMIT
    }
}

/// One state of the top-level machine. Exactly one phase is live at a
/// time; the host drives it once per tick.
pub enum Phase {
    Menu(MenuState),
    Join(JoinState),
    DieRoll(DieRollState),
    TransitionChoice(TransitionChoiceState),
    BoardMove(BoardMoveState),
    SpaceResult(SpaceResultState),
    Minigame(MinigameState),
    MinigameResult(MinigameResultState),
}

impl Phase {
    pub open spec fn wf(self) -> bool {
        match self {
            Phase::Menu(_) => true,
            Phase::Join(s) => s.wf(),
            Phase::DieRoll(s) => s.wf(),
            Phase::TransitionChoice(s) => s.wf(),
            Phase::BoardMove(s) => s.wf(),
            Phase::SpaceResult(s) => s.wf(),
            Phase::Minigame(s) => s.wf(),
            Phase::MinigameResult(s) => s.wf(),
        }
    }

    /// Where every match starts: the menu.
    pub fn initial() -> (r: Phase)
        ensures
            r.wf(),
            r is Menu,
    {
        Phase::Menu(MenuState {})
    }

    /// What one tick does, exactly: the live phase's own step relation
    /// sanctioned some update outcome whose phase is the result.
    pub open spec fn step_ok(self, props: UpdateProps, post: Phase) -> bool {
        exists|u: UpdateResult|
            {
                &&& post == #[trigger] u.phase()
                &&& match self {
                    Phase::Menu(s) => s.step_ok(props, u),
                    Phase::Join(s) => crate::setup::join_step_ok(s, props, u),
                    Phase::DieRoll(s) => s.step_ok(props, u),
                    Phase::TransitionChoice(s) => s.step_ok(props, u),
                    Phase::BoardMove(s) => s.step_ok(props, u),
                    Phase::SpaceResult(s) => s.step_ok(props, u),
                    Phase::Minigame(s) => s.step_ok(props, u),
                    Phase::MinigameResult(s) => s.step_ok(props, u),
                }
            }
    }

    /// One tick of the live phase. The phase consumes its own state and
    /// yields its successor — itself updated, or a fresh phase built
    /// from data it owned (the engine's ownership-transfer transition).
    pub fn update(self, props: &UpdateProps) -> (r: Phase)
        requires
            self.wf(),
            props.wf(),
        ensures
            r.wf(),
            self.step_ok(*props, r),
    {
        let ghost pre = self;
        let result = match self {
            Phase::Menu(s) => s.update(props),
            Phase::Join(s) => s.update(props),
            Phase::DieRoll(s) => s.update(props),
            Phase::TransitionChoice(s) => s.update(props),
            Phase::BoardMove(s) => s.update(props),
            Phase::SpaceResult(s) => s.update(props),
            Phase::Minigame(s) => s.update(props),
            Phase::MinigameResult(s) => s.update(props),
        };
        let r = result.into_phase();
        proof {
            assert(r == result.phase());
            assert(pre.step_ok(*props, r));
        }
        r
    }
}

/// What a phase update decides: keep running (with the phase's own
/// updated state) or replace the live phase with a new one.
pub enum UpdateResult {
    Continue(Phase),
    NewState(Phase),
}

impl UpdateResult {
    /// The phase that is live after this result is applied.
    pub open spec fn phase(self) -> Phase {
        match self {
            UpdateResult::Continue(p) => p,
            UpdateResult::NewState(p) => p,
        }
    }

    /// Installs the result: either way, the carried phase becomes live.
    pub fn into_phase(self) -> (r: Phase)
        ensures
            r == self.phase(),
    {
        match self {
            UpdateResult::Continue(p) => p,
            UpdateResult::NewState(p) => p,
        }
    }
}

} // verus!
