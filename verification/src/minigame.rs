//! The minigame contract and registry, minigame outcomes, and their
//! aggregation into bounded per-player currency deltas, plus the
//! currency-update rule itself.

use crate::game::{Phase, UpdateProps, UpdateResult};
use crate::ingame::{DieRollState, GameInfo};
use crate::minigames::castleclimb::{cc_step_rel, MGCastleClimb};
use crate::minigames::hotrope::{hr_step_rel, MGHotRope};
use crate::minigames::itemcatch::{ic_step_rel, MGItemCatch};
use crate::minigames::pong::{pg_step_rel, MGPong};
use crate::minigames::quickdraw::{qd_step_rel, MGQuickdraw};
use crate::minigames::snake::{sk_step_rel, MGSnake};
use crate::tputil::Player;
use vstd::prelude::*;

verus! {

/// The pool of currency one minigame round redistributes.
pub const MINIGAME_COINS: i64 = 10;

/// Hardware cap of a currency balance.
pub const COIN_CAP: u16 = 65535;

/// Largest magnitude a single Ratios score may carry; keeps every sum
/// the aggregation forms inside 64 bits.
pub const RATIO_LIMIT: i64 = 1_000_000_000_000;

/// Most players an aggregation call handles; keeps sums of scores inside
/// 64 bits together with `RATIO_LIMIT`.
pub const PLAYER_LIMIT: usize = 1000;

/// A minigame's raw outcome: no winner, a single winner, a set of tied
/// winners, or one real-valued score per player (fixed-point integers).
#[derive(Debug)]
pub enum MinigameResult {
    Nothing,
    Winner(usize),
    Tie(Vec<usize>),
    Ratios(Vec<i64>),
}

impl MinigameResult {
    /// Validity relative to a player count `n`: tie sets are nonempty and
    /// index players, score lists carry one bounded entry per player.
    pub open spec fn wf(self, n: int) -> bool {
        match self {
            MinigameResult::Nothing => true,
            MinigameResult::Winner(_) => true,
            MinigameResult::Tie(ix) => {
                &&& ix@.len() > 0
                &&& forall|k: int| 0 <= k < ix@.len() ==> (#[trigger] ix@[k]) < n
            },
            MinigameResult::Ratios(v) => {
                &&& v@.len() == n
                &&& forall|k: int|
                    0 <= k < v@.len() ==> -RATIO_LIMIT <= (#[trigger] v@[k]) <= RATIO_LIMIT
            },
        }
    }
}

/// Sum of the positive entries of `v`.
pub open spec fn sum_pos(v: Seq<i64>) -> int
    decreases v.len(),
{
    if v.len() == 0 {
        0
    } else {
        sum_pos(v.drop_last()) + if v.last() > 0 {
            v.last() as int
        } else {
            0
        }
    }
}

/// Sum of the magnitudes of the negative entries of `v`.
pub open spec fn sum_neg_abs(v: Seq<i64>) -> int
    decreases v.len(),
{
    if v.len() == 0 {
        0
    } else {
        sum_neg_abs(v.drop_last()) + if v.last() < 0 {
            -(v.last() as int)
        } else {
            0
        }
    }
}

/// The Ratios normalizer: the larger of the positive sum and the
/// magnitude of the negative sum.
pub open spec fn normalizer(v: Seq<i64>) -> int {
    if sum_pos(v) >= sum_neg_abs(v) {
        sum_pos(v)
    } else {
        sum_neg_abs(v)
    }
}

/// The delta a single Ratios entry yields: zero when the normalizer is
/// zero, else the entry scaled by pool/normalizer, truncated toward zero
/// and clamped below at the negation of the player's balance.
pub open spec fn ratio_delta(x: int, coins: u16, norm: int) -> int {
    if norm == 0 {
        0
    } else {
        let d = crate::mathutil::div_trunc(x * MINIGAME_COINS, norm);
        if d < -(coins as int) {
            -(coins as int)
        } else {
            d
        }
    }
}

/// What aggregation owes player `i` for `result`, given current balances.
pub open spec fn delta_spec(result: MinigameResult, coins: Seq<u16>, i: int) -> int {
    match result {
        MinigameResult::Nothing => 0,
        MinigameResult::Winner(w) => if i == w {
            MINIGAME_COINS as int
        } else {
            0
        },
        MinigameResult::Tie(ix) => if ix@.contains(i as usize) {
            MINIGAME_COINS as int / ix@.len() as int
        } else {
            0
        },
        MinigameResult::Ratios(v) => ratio_delta(v@[i] as int, coins[i], normalizer(v@)),
    }
}

/// Converts a minigame's raw outcome into one signed currency delta per
/// player: `Nothing` pays nobody, `Winner` pays the whole pool to one
/// player, `Tie` splits the pool evenly (the division remainder is
/// dropped, not redistributed), and `Ratios` scales the scores by
/// pool/normalizer with truncation toward zero, never charging a player
/// more than their balance.
pub fn aggregate_result(result: &MinigameResult, coins: &Vec<u16>) -> (r: Vec<i64>)
    requires
        result.wf(coins@.len() as int),
        coins@.len() <= PLAYER_LIMIT,
    ensures
        r@.len() == coins@.len(),
        forall|i: int| 0 <= i < r@.len() ==> r@[i] == delta_spec(*result, coins@, i),
{
    let n: usize = coins.len();
    match result {
        MinigameResult::Nothing => {
            let mut r: Vec<i64> = Vec::new();
            let mut i: usize = 0;
            while i < n
                invariant
                    i <= n,
                    r@.len() == i,
                    forall|j: int| 0 <= j < i ==> r@[j] == 0,
                decreases n - i,
            {
                r.push(0);
                i += 1;
            }
            r
        },
        MinigameResult::Winner(w) => {
            let wi: usize = *w;
            let mut r: Vec<i64> = Vec::new();
            let mut i: usize = 0;
            while i < n
                invariant
                    i <= n,
                    r@.len() == i,
                    forall|j: int|
                        0 <= j < i ==> r@[j] == if j == wi {
                            MINIGAME_COINS as int
                        } else {
                            0
                        },
                decreases n - i,
            {
                if i == wi {
                    r.push(MINIGAME_COINS);
                } else {
                    r.push(0);
                }
                i += 1;
            }
            r
        },
        MinigameResult::Tie(ix) => {
            let amount: i64 = ((MINIGAME_COINS as u64) / (ix.len() as u64)) as i64;
            let mut r: Vec<i64> = Vec::new();
            let mut i: usize = 0;
            while i < n
                invariant
                    i <= n,
                    r@.len() == i,
                    forall|j: int| 0 <= j < i ==> r@[j] == 0,
                decreases n - i,
            {
                r.push(0);
                i += 1;
            }
            let mut k: usize = 0;
            while k < ix.len()
                invariant
                    k <= ix@.len(),
                    r@.len() == n,
                    forall|k2: int| 0 <= k2 < ix@.len() ==> (#[trigger] ix@[k2]) < n,
                    forall|j: int|
                        0 <= j < n ==> r@[j] == if ix@.take(k as int).contains(j as usize) {
                            amount as int
                        } else {
                            0
                        },
                decreases ix@.len() - k,
            {
                let target: usize = ix[k];
                let ghost prev = r@;
                r.set(target, amount);
                proof {
                    assert(ix@.take(k + 1).drop_last() =~= ix@.take(k as int));
                    assert(ix@.take(k + 1).last() == ix@[k as int]);
                    assert forall|j: int| 0 <= j < n implies r@[j] == (if ix@.take(
                        k + 1,
                    ).contains(j as usize) {
                        amount as int
                    } else {
                        0
                    }) by {
                        let t = ix@.take(k + 1);
                        if j == target {
                            assert(t[k as int] == target);
                            assert(t.contains(j as usize));
                        } else {
                            assert(r@[j] == prev[j]);
                            if t.contains(j as usize) {
                                let m = choose|m: int| 0 <= m < t.len() && t[m] == j as usize;
                                assert(m < k);
                                assert(ix@.take(k as int)[m] == j as usize);
                                assert(ix@.take(k as int).contains(j as usize));
                            } else {
                                if ix@.take(k as int).contains(j as usize) {
                                    let m = choose|m: int|
                                        0 <= m < k && ix@.take(k as int)[m] == j as usize;
                                    assert(t[m] == j as usize);
                                }
                            }
                        }
                    }
                }
                k += 1;
            }
            proof {
                assert(ix@.take(ix@.len() as int) =~= ix@);
            }
            r
        },
        MinigameResult::Ratios(v) => {
            let norm: u64 = compute_normalizer(v);
            proof {
                assert(v@.len() * RATIO_LIMIT <= 1000 * RATIO_LIMIT) by (nonlinear_arith)
                    requires
                        v@.len() <= 1000,
                ;
            }
            let mut r: Vec<i64> = Vec::new();
            let mut i: usize = 0;
            while i < n
                invariant
                    i <= n,
                    v@.len() == n,
                    coins@.len() == n,
                    r@.len() == i,
                    norm == normalizer(v@),
                    norm <= 1_000_000_000_000_000,
                    forall|k: int|
                        0 <= k < v@.len() ==> -RATIO_LIMIT <= (#[trigger] v@[k]) <= RATIO_LIMIT,
                    forall|j: int|
                        0 <= j < i ==> r@[j] == ratio_delta(v@[j] as int, coins@[j], normalizer(v@)),
                decreases n - i,
            {
                let x: i64 = v[i];
                let d: i64 = if norm == 0 {
                    0
                } else {
                    crate::mathutil::div_trunc_i64(x * MINIGAME_COINS, norm as i64)
                };
                let floor: i64 = -(coins[i] as i64);
                let clamped: i64 = if norm != 0 && d < floor {
                    floor
                } else {
                    d
                };
                r.push(clamped);
                i += 1;
            }
            r
        },
    }
}

/// Computes the Ratios normalizer of `v`.
fn compute_normalizer(v: &Vec<i64>) -> (r: u64)
    requires
        v@.len() <= PLAYER_LIMIT,
        forall|k: int| 0 <= k < v@.len() ==> -RATIO_LIMIT <= (#[trigger] v@[k]) <= RATIO_LIMIT,
    ensures
        r == normalizer(v@),
        r <= v@.len() * RATIO_LIMIT,
{
    let mut sp: u64 = 0;
    let mut sn: u64 = 0;
    let mut i: usize = 0;
    proof {
        lemma_sums_bounded(v@.take(0));
    }
    while i < v.len()
        invariant
            i <= v@.len(),
            v@.len() <= PLAYER_LIMIT,
            forall|k: int| 0 <= k < v@.len() ==> -RATIO_LIMIT <= (#[trigger] v@[k]) <= RATIO_LIMIT,
            sp == sum_pos(v@.take(i as int)),
            sn == sum_neg_abs(v@.take(i as int)),
        decreases v@.len() - i,
    {
        let x: i64 = v[i];
        proof {
            assert(v@.take(i + 1).drop_last() =~= v@.take(i as int));
            assert(v@.take(i + 1).last() == v@[i as int]);
            lemma_sums_bounded(v@.take(i + 1));
            lemma_sums_bounded(v@.take(i as int));
        }
        if x > 0 {
            sp = sp + (x as u64);
        } else if x < 0 {
            sn = sn + ((-x) as u64);
        }
        i += 1;
    }
    proof {
        assert(v@.take(v@.len() as int) =~= v@);
        lemma_sums_bounded(v@);
    }
    if sp >= sn {
        sp
    } else {
        sn
    }
}

/// Both partial sums stay within what 64 bits hold.
proof fn lemma_sums_bounded(v: Seq<i64>)
    requires
        v.len() <= PLAYER_LIMIT,
        forall|k: int| 0 <= k < v.len() ==> -RATIO_LIMIT <= (#[trigger] v[k]) <= RATIO_LIMIT,
    ensures
        0 <= sum_pos(v) <= v.len() * RATIO_LIMIT,
        0 <= sum_neg_abs(v) <= v.len() * RATIO_LIMIT,
    decreases v.len(),
{
    if v.len() > 0 {
        assert forall|k: int| 0 <= k < v.drop_last().len() implies -RATIO_LIMIT <= (
        #[trigger] v.drop_last()[k]) <= RATIO_LIMIT by {
            assert(v.drop_last()[k] == v[k]);
        }
        lemma_sums_bounded(v.drop_last());
    }
}

/// Clamps a currency balance into what a u16 holds.
pub open spec fn clamp_coins(x: int) -> int {
    if x < 0 {
        0
    } else if x > COIN_CAP {
        COIN_CAP as int
    } else {
        x
    }
}

/// Applies one signed delta to a balance, clamping at zero (and at the
/// hardware cap above).
pub fn apply_delta(coins: u16, delta: i64) -> (r: u16)
    ensures
        r as int == clamp_coins(coins + delta),
{
    if delta >= 0 {
        if delta >= 65536 {
            COIN_CAP
        } else {
            let s: i64 = coins as i64 + delta;
            if s > COIN_CAP as i64 {
                COIN_CAP
            } else {
                s as u16
            }
        }
    } else {
        if delta <= -65536 {
            0
        } else {
            let s: i64 = coins as i64 + delta;
            if s < 0 {
                0
            } else {
                s as u16
            }
        }
    }
}

/// A balance after a sequence of clamped delta applications.
pub open spec fn fold_deltas(start: int, deltas: Seq<int>) -> int
    decreases deltas.len(),
{
    if deltas.len() == 0 {
        start
    } else {
        clamp_coins(fold_deltas(start, deltas.drop_last()) + deltas.last())
    }
}

/// The currency floor law: whatever space effects and minigame deltas are
/// applied, in any order and number, a balance that starts valid stays in
/// [0, COIN_CAP] — in particular it never goes negative.
pub proof fn lemma_currency_floor(start: u16, deltas: Seq<int>)
    ensures
        0 <= fold_deltas(start as int, deltas) <= COIN_CAP,
    decreases deltas.len(),
{
    if deltas.len() > 0 {
        lemma_currency_floor(start, deltas.drop_last());
    }
}

/// The uniform minigame interface: one of the registered simulations,
/// each single-use — once its update yields a result the engine discards
/// the instance.
pub enum Minigame {
    Quickdraw(MGQuickdraw),
    HotRope(MGHotRope),
    Snake(MGSnake),
    CastleClimb(MGCastleClimb),
    ItemCatch(MGItemCatch),
    Pong(MGPong),
}

impl Minigame {
    pub open spec fn wf(self) -> bool {
        match self {
            Minigame::Quickdraw(g) => g.wf(),
            Minigame::HotRope(g) => g.wf(),
            Minigame::Snake(g) => g.wf(),
            Minigame::CastleClimb(g) => g.wf(),
            Minigame::ItemCatch(g) => g.wf(),
            Minigame::Pong(g) => g.wf(),
        }
    }

    /// How many players this instance was built for.
    pub open spec fn player_count(self) -> int {
        self.players_of().len() as int
    }

    /// The players this instance was seeded with, in turn order.
    pub open spec fn players_of(self) -> Seq<Player> {
        match self {
            Minigame::Quickdraw(g) => g.players@,
            Minigame::HotRope(g) => g.players@,
            Minigame::Snake(g) => g.players@,
            Minigame::CastleClimb(g) => g.players@,
            Minigame::ItemCatch(g) => g.players@,
            Minigame::Pong(g) => g.players@,
        }
    }

    /// One tick of the carried simulation, whichever it is: the variant
    /// is kept and the simulation's own step relation holds of it.
    pub open spec fn step_rel(
        self,
        props: UpdateProps,
        post: Minigame,
        r: Option<MinigameResult>,
    ) -> bool {
        match (self, post) {
            (Minigame::Quickdraw(a), Minigame::Quickdraw(b)) => qd_step_rel(a, props, b, r),
            (Minigame::HotRope(a), Minigame::HotRope(b)) => hr_step_rel(a, props, b, r),
            (Minigame::Snake(a), Minigame::Snake(b)) => sk_step_rel(a, props, b, r),
            (Minigame::CastleClimb(a), Minigame::CastleClimb(b)) => cc_step_rel(a, props, b, r),
            (Minigame::ItemCatch(a), Minigame::ItemCatch(b)) => ic_step_rel(a, props, b, r),
            (Minigame::Pong(a), Minigame::Pong(b)) => pg_step_rel(a, props, b, r),
            _ => false,
        }
    }

    /// Picks one registered minigame uniformly at random and seeds it
    /// with the participating players.
    pub fn new_random(players: Vec<Player>) -> (r: Minigame)
        requires
            1 <= players@.len() <= 16,
        ensures
            r.wf(),
            r.players_of() == players@,
    {
        let pick: usize = crate::rng::random_index(6);
        if pick == 0 {
            Minigame::Quickdraw(MGQuickdraw::new(players))
        } else if pick == 1 {
            Minigame::HotRope(MGHotRope::new(players))
        } else if pick == 2 {
            Minigame::Snake(MGSnake::new(players))
        } else if pick == 3 {
            Minigame::CastleClimb(MGCastleClimb::new(players))
        } else if pick == 4 {
            Minigame::ItemCatch(MGItemCatch::new(players))
        } else {
            Minigame::Pong(MGPong::new(players))
        }
    }

    /// One tick of whichever simulation this is; `None` means still
    /// running, and any reported result is valid for the player count.
    pub fn update(&mut self, props: &UpdateProps) -> (r: Option<MinigameResult>)
        requires
            old(self).wf(),
            props.wf(),
        ensures
            final(self).wf(),
            final(self).players_of() == old(self).players_of(),
            old(self).step_rel(*props, *final(self), r),
            match r {
                Option::None => true,
                Option::Some(res) => res.wf(final(self).player_count()),
            },
    {
        match self {
            Minigame::Quickdraw(g) => g.update(props),
            Minigame::HotRope(g) => g.update(props),
            Minigame::Snake(g) => g.update(props),
            Minigame::CastleClimb(g) => g.update(props),
            Minigame::ItemCatch(g) => g.update(props),
            Minigame::Pong(g) => g.update(props),
        }
    }

    pub fn title(&self) -> (r: &'static str) {
        match self {
            Minigame::Quickdraw(g) => g.title(),
            Minigame::HotRope(g) => g.title(),
            Minigame::Snake(g) => g.title(),
            Minigame::CastleClimb(g) => g.title(),
            Minigame::ItemCatch(g) => g.title(),
            Minigame::Pong(g) => g.title(),
        }
    }

    pub fn description(&self) -> (r: &'static str) {
        match self {
            Minigame::Quickdraw(g) => g.description(),
            Minigame::HotRope(g) => g.description(),
            Minigame::Snake(g) => g.description(),
            Minigame::CastleClimb(g) => g.description(),
            Minigame::ItemCatch(g) => g.description(),
            Minigame::Pong(g) => g.description(),
        }
    }
}

/// The balances of a session's players as a sequence.
pub open spec fn coin_seq(game: GameInfo) -> Seq<u16> {
    game.players@.map(|i: int, p: crate::ingame::PlayerInfo| p.coins)
}

/// The minigame phase: drives one simulation every tick until it
/// reports a result, converts that result into currency deltas, and
/// hands over to the result display — discarding the spent minigame.
pub struct MinigameState {
    pub minigame: Minigame,
    pub game: GameInfo,
}

impl MinigameState {
    pub open spec fn wf(self) -> bool {
        &&& self.game.wf()
        &&& self.minigame.wf()
        &&& self.minigame.player_count() == self.game.players@.len()
    }

    pub fn new(game: GameInfo, minigame: Minigame) -> (r: MinigameState)
        requires
            game.wf(),
            minigame.wf(),
            minigame.player_count() == game.players@.len(),
        ensures
            r.wf(),
            r.game == game,
            r.minigame == minigame,
    {
        MinigameState { game, minigame }
    }

    /// Starts a minigame round with a randomly selected simulation,
    /// seeded with the session's players in turn order.
    pub fn new_random(game: GameInfo) -> (r: MinigameState)
        requires
            game.wf(),
        ensures
            r.wf(),
            r.game == game,
            r.minigame.players_of() == game.players@.map(
                |i: int, p: crate::ingame::PlayerInfo| p.player,
            ),
    {
        let mut roster: Vec<Player> = Vec::new();
        let mut i: usize = 0;
        while i < game.players.len()
            invariant
                i <= game.players@.len(),
                roster@.len() == i,
                forall|j: int| 0 <= j < i ==> (#[trigger] roster@[j]) == game.players@[j].player,
            decreases game.players@.len() - i,
        {
            let p: Player = game.players[i].player;
            roster.push(p);
            i += 1;
        }
        proof {
            assert(roster@ =~= game.players@.map(
                |i: int, p: crate::ingame::PlayerInfo| p.player,
            ));
        }
        let minigame = Minigame::new_random(roster);
        MinigameState { game, minigame }
    }

    /// The aggregation step on this session's balances.
    pub fn process_result(&self, result: &MinigameResult) -> (r: Vec<i64>)
        requires
            self.wf(),
            result.wf(self.game.players@.len() as int),
        ensures
            r@.len() == self.game.players@.len(),
            forall|i: int|
                0 <= i < r@.len() ==> r@[i] == delta_spec(*result, coin_seq(self.game), i),
    {
        let coins: Vec<u16> = self.game.coin_balances();
        proof {
            assert(coins@ =~= coin_seq(self.game));
        }
        aggregate_result(result, &coins)
    }

    /// What one tick of this phase does, exactly: the carried minigame
    /// is driven one step; a `None` report keeps the phase with the
    /// stepped instance, and a result replaces the phase with the
    /// result display carrying that report's aggregated deltas — the
    /// spent minigame does not survive the transition.
    pub open spec fn step_ok(self, props: UpdateProps, r: UpdateResult) -> bool {
        match r {
            UpdateResult::Continue(p) => match p {
                Phase::Minigame(m) => m.game == self.game && self.minigame.step_rel(
                    props,
                    m.minigame,
                    None,
                ),
                _ => false,
            },
            UpdateResult::NewState(p) => match p {
                Phase::MinigameResult(q) => q.game == self.game && q.result@.len()
                    == self.game.players@.len() && exists|mg2: Minigame, res: MinigameResult|
                    {
                        &&& #[trigger] self.minigame.step_rel(props, mg2, Some(res))
                        &&& res.wf(self.game.players@.len() as int)
                        &&& forall|i: int|
                            0 <= i < q.result@.len() ==> q.result@[i] == delta_spec(
                                res,
                                coin_seq(self.game),
                                i,
                            )
                    },
                _ => false,
            },
        }
    }

    /// One tick: drive the minigame; on a result, convert it to deltas
    /// and replace this phase with the result display. The spent
    /// minigame does not survive the transition.
    pub fn update(self, props: &UpdateProps) -> (r: UpdateResult)
        requires
            self.wf(),
            props.wf(),
        ensures
            r.phase().wf(),
            self.step_ok(*props, r),
    {
        let game = self.game;
        let mut minigame = self.minigame;
        let ghost pre_mg = minigame;
        let outcome = minigame.update(props);
        match outcome {
            None => UpdateResult::Continue(
                Phase::Minigame(MinigameState { minigame, game }),
            ),
            Some(result) => {
                let ghost gres = result;
                let next = MinigameState { minigame, game };
                let deltas: Vec<i64> = next.process_result(&result);
                let out = UpdateResult::NewState(
                    Phase::MinigameResult(MinigameResultState::new(next.game, deltas)),
                );
                proof {
                    assert(pre_mg.step_rel(*props, next.minigame, Some(gres)));
                }
                out
            },
        }
    }
}

/// How long the per-player deltas stay on screen, ms.
pub const RESULT_SHOW_MS: u64 = 3000;

/// The result display: shows each player's signed delta, then applies
/// every delta (clamped at zero) and starts the next round with the
/// first player's die roll.
pub struct MinigameResultState {
    pub game: GameInfo,
    pub time: u64,
    pub result: Vec<i64>,
}

impl MinigameResultState {
    pub open spec fn wf(self) -> bool {
        &&& self.game.wf()
        &&& self.result@.len() == self.game.players@.len()
        &&& self.time <= crate::mathutil::TIME_CAP
    }

    pub fn new(game: GameInfo, result: Vec<i64>) -> (r: MinigameResultState)
        requires
            game.wf(),
            result@.len() == game.players@.len(),
        ensures
            r.wf(),
            r.game == game,
            r.result == result,
            r.time == 0,
    {
        MinigameResultState { game, result, time: 0 }
    }

    /// What one tick of this phase does, exactly: the display timer
    /// runs; when it expires, every delta is applied to its player's
    /// balance (clamped at zero), everything else about the session is
    /// kept, and the next round starts at the first player's die roll.
    pub open spec fn step_ok(self, props: UpdateProps, r: UpdateResult) -> bool {
        {
            let time2 = crate::mathutil::spec_add_time(self.time as int, props.time as int);
            match r {
                UpdateResult::Continue(p) => match p {
                    Phase::MinigameResult(q) => q.game == self.game && q.result == self.result
                        && q.time == time2 && time2 <= RESULT_SHOW_MS,
                    _ => false,
                },
                UpdateResult::NewState(p) => time2 > RESULT_SHOW_MS && match p {
                    Phase::DieRoll(d) => {
                        &&& d.turn == 0
                        &&& d.game.board == self.game.board
                        &&& d.game.star_space == self.game.star_space
                        &&& d.game.players@.len() == self.game.players@.len()
                        &&& forall|i: int|
                            0 <= i < d.game.players@.len() ==> (
                            #[trigger] d.game.players@[i]).coins == clamp_coins(
                                self.game.players@[i].coins + self.result@[i],
                            ) && d.game.players@[i].space == self.game.players@[i].space
                                && d.game.players@[i].stars == self.game.players@[i].stars
                                && d.game.players@[i].player == self.game.players@[i].player
                    },
                    _ => false,
                },
            }
        }
    }

    /// One tick: when the display expires, apply every delta to the
    /// corresponding balance through the clamped update (`clamp_coins`),
    /// so no balance goes negative (`lemma_currency_floor` states the
    /// general law), and return to the first player's die roll.
    pub fn update(self, props: &UpdateProps) -> (r: UpdateResult)
        requires
            self.wf(),
            props.wf(),
        ensures
            r.phase().wf(),
            self.step_ok(*props, r),
    {
        let mut game = self.game;
        let result = self.result;
        let time = crate::mathutil::add_time(self.time, props.time);
        if time > RESULT_SHOW_MS {
            let mut i: usize = 0;
            while i < game.players.len()
                invariant
                    i <= game.players@.len(),
                    game.board == self.game.board,
                    game.star_space == self.game.star_space,
                    game.wf(),
                    game.players@.len() == self.game.players@.len(),
                    result@.len() == self.game.players@.len(),
                    forall|j: int|
                        0 <= j < i ==> (#[trigger] game.players@[j]).coins == clamp_coins(
                            self.game.players@[j].coins + result@[j],
                        ) && game.players@[j].space == self.game.players@[j].space
                            && game.players@[j].stars == self.game.players@[j].stars
                            && game.players@[j].player == self.game.players@[j].player,
                    forall|j: int|
                        i <= j < game.players@.len() ==> (#[trigger] game.players@[j])
                            == self.game.players@[j],
                decreases game.players@.len() - i,
            {
                let mut p: crate::ingame::PlayerInfo = game.players[i];
                let d: i64 = result[i];
                p.coins = apply_delta(p.coins, d);
                let ghost before = game.players@;
                game.players.set(i, p);
                proof {
                    assert forall|a: int, b: int|
                        0 <= a < b < game.players@.len() implies (
                    #[trigger] game.players@[a]).player.color != (
                    #[trigger] game.players@[b]).player.color && game.players@[a].player.input
                        != game.players@[b].player.input by {
                        assert(game.players@[a].player == before[a].player);
                        assert(game.players@[b].player == before[b].player);
                        assert(roster_players_distinct_at(before, a, b));
                    }
                }
                i += 1;
            }
            return UpdateResult::NewState(Phase::DieRoll(DieRollState::new(game, 0)));
        }
        UpdateResult::Continue(
            Phase::MinigameResult(MinigameResultState { game, time, result }),
        )
    }
}

/// Distinctness of a roster pair, as the roster invariant states it.
pub open spec fn roster_players_distinct_at(
    players: Seq<crate::ingame::PlayerInfo>,
    a: int,
    b: int,
) -> bool {
    players[a].player.color != players[b].player.color && players[a].player.input
        != players[b].player.input
}

} // verus!
