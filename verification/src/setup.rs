//! The pre-match phases: the menu and the player-join lobby.

use crate::board::Board;
use crate::game::{Phase, UpdateProps, UpdateResult};
use crate::ingame::{DieRollState, GameInfo, PlayerInfo};
use crate::tputil::{Axis, Button, InputMethod, InputState, Player, COLOR_COUNT};
use vstd::prelude::*;

verus! {

/// Cap on a lobby sprite's accumulated spin, so it never overflows.
pub const SPIN_CAP: i64 = 1_000_000_000_000_000;

/// The title menu: any confirm press opens the join lobby.
pub struct MenuState {}

impl MenuState {
    /// What one tick of the menu does, exactly: a confirm press from
    /// any source — and nothing else — opens an empty lobby.
    pub open spec fn step_ok(self, props: UpdateProps, r: UpdateResult) -> bool {
        match r {
            UpdateResult::Continue(p) => p is Menu && !props.input.any_pressed(Button::South),
            UpdateResult::NewState(p) => props.input.any_pressed(Button::South) && match p {
                Phase::Join(j) => j.players@.len() == 0,
                _ => false,
            },
        }
    }

    /// One tick: the menu stays until some source presses confirm, and
    /// exactly then opens an empty lobby.
    pub fn update(self, props: &UpdateProps) -> (r: UpdateResult)
        requires
            props.wf(),
        ensures
            r.phase().wf(),
            self.step_ok(*props, r),
    {
        let pressed = props.input.get_pressed_any(Button::South);
        if pressed.len() > 0 {
            UpdateResult::NewState(Phase::Join(JoinState::new()))
        } else {
            UpdateResult::Continue(Phase::Menu(MenuState {}))
        }
    }
}

/// One lobby slot: the joined player and a spin animation accumulator.
#[derive(Copy, Clone, PartialEq, Eq, Structural, Debug)]
pub struct JoinStatePlayer {
    pub player: Player,
    pub rotation: i64,
}

/// Whether this tick's snapshot tells the player driven by `ctl` to
/// leave: holding the leave button without the confirm veto.
pub open spec fn wants_leave(input: InputState, ctl: InputMethod) -> bool {
    input.spec_held_of(ctl, Button::East) && !input.spec_held_of(ctl, Button::South)
}

/// Whether some lobby entry is driven by `ctl`.
pub open spec fn lobby_has_input(players: Seq<JoinStatePlayer>, ctl: InputMethod) -> bool {
    exists|k: int| 0 <= k < players.len() && (#[trigger] players[k]).player.input == ctl
}

/// Whether some lobby entry wears palette color `c`.
pub open spec fn lobby_has_color(players: Seq<JoinStatePlayer>, c: int) -> bool {
    exists|k: int| 0 <= k < players.len() && (#[trigger] players[k]).player.color == c
}

/// How the joining pass relates the old lobby to the lobby `mid` it
/// leaves behind: the old entries keep their identities and order, every
/// appended entry is a confirm-presser that was not in, and every
/// confirm-presser not yet in is appended — unless the lobby filled up.
/// (Which free palette color a joiner receives is random.)
pub open spec fn joins_ok(
    pre: Seq<JoinStatePlayer>,
    input: InputState,
    mid: Seq<JoinStatePlayer>,
) -> bool {
    &&& pre.len() <= mid.len() <= COLOR_COUNT
    &&& forall|m: int| 0 <= m < pre.len() ==> (#[trigger] mid[m]).player == pre[m].player
    &&& forall|k: int|
        pre.len() <= k < mid.len() ==> !lobby_has_input(pre, (#[trigger] mid[k]).player.input)
            && exists|i: int|
            0 <= i < input.sources@.len() && (#[trigger] input.sources@[i]).spec_pressed(
                Button::South,
            ) && input.sources@[i].source == mid[k].player.input
    &&& forall|i: int|
        0 <= i < input.sources@.len() && (#[trigger] input.sources@[i]).spec_pressed(
            Button::South,
        ) && !lobby_has_input(pre, input.sources@[i].source) ==> lobby_has_input(
            mid,
            input.sources@[i].source,
        ) || mid.len() == COLOR_COUNT
}

/// The lobby after the leave pass: the entries whose players are not
/// leaving, in order.
pub open spec fn survivors(mid: Seq<JoinStatePlayer>, input: InputState) -> Seq<
    JoinStatePlayer,
> {
    mid.filter(|p: JoinStatePlayer| !wants_leave(input, p.player.input))
}

/// The full lobby step: some post-join lobby `mid` obeys `joins_ok`, and
/// the tick's outcome is determined by it — the lobby keeps `mid`'s
/// survivors, unless a start press finds the lobby non-empty, in which
/// case the match begins with exactly those survivors as the roster.
pub open spec fn join_step_ok(pre: JoinState, props: UpdateProps, r: UpdateResult) -> bool {
    exists|mid: Seq<JoinStatePlayer>|
        {
            &&& #[trigger] joins_ok(pre.players@, props.input, mid)
            &&& match r {
                UpdateResult::Continue(p) => match p {
                    Phase::Join(j) => {
                        &&& j.players@ == survivors(mid, props.input)
                        &&& !(props.input.any_pressed(Button::Start) && j.players@.len() > 0)
                    },
                    _ => false,
                },
                UpdateResult::NewState(p) => match p {
                    Phase::DieRoll(d) => {
                        &&& props.input.any_pressed(Button::Start)
                        &&& crate::board::default_board_shape(d.game.board)
                        &&& d.turn == 0
                        &&& d.game.players@.len() == survivors(mid, props.input).len()
                        &&& d.game.players@.len() >= 1
                        &&& forall|i: int|
                            0 <= i < d.game.players@.len() ==> (
                            #[trigger] d.game.players@[i]) == (PlayerInfo {
                                player: survivors(mid, props.input)[i].player,
                                space: 0,
                                coins: 0,
                                stars: 0,
                            })
                    },
                    _ => false,
                },
            }
        }
}

/// The join lobby: players join with confirm, leave by holding the
/// leave button, and any start press begins the match.
pub struct JoinState {
    pub players: Vec<JoinStatePlayer>,
}

impl JoinState {
    /// Lobby invariant: at most one player per palette color, colors are
    /// palette indices, and no two players share an input source.
    pub open spec fn wf(self) -> bool {
        &&& self.players@.len() <= COLOR_COUNT
        &&& forall|i: int| 0 <= i < self.players@.len() ==> (#[trigger] self.players@[i]).player.wf()
        &&& forall|i: int, j: int|
            0 <= i < j < self.players@.len() ==> (#[trigger] self.players@[i]).player.color != (
            #[trigger] self.players@[j]).player.color
        &&& forall|i: int, j: int|
            0 <= i < j < self.players@.len() ==> (#[trigger] self.players@[i]).player.input != (
            #[trigger] self.players@[j]).player.input
        &&& forall|i: int|
            0 <= i < self.players@.len() ==> -SPIN_CAP <= (#[trigger] self.players@[i]).rotation
                <= SPIN_CAP
    }

    pub fn new() -> (r: JoinState)
        ensures
            r.wf(),
            r.players@.len() == 0,
    {
        JoinState { players: Vec::new() }
    }

    /// One tick of the lobby: see `join_step_ok`. Sources that pressed
    /// confirm join with a random unused palette color while there is
    /// room; holding the leave button (without confirm) drops a player;
    /// a start press with at least one player in the lobby builds the
    /// session on the default board and starts the first die roll.
    /// Starting an empty lobby is refused: the phase simply stays.
    pub fn update(self, props: &UpdateProps) -> (r: UpdateResult)
        requires
            self.wf(),
            props.wf(),
        ensures
            r.phase().wf(),
            join_step_ok(self, *props, r),
    {
        let ghost pre = self.players@;
        let mut players = self.players;

        // Joining: each source that pressed confirm this tick and is not
        // already in gets a random unused color — while the lobby has
        // room.
        let joining: Vec<InputMethod> = props.input.get_pressed_any(Button::South);
        let mut j: usize = 0;
        while j < joining.len()
            invariant
                j <= joining@.len(),
                (JoinState { players }).wf(),
                pre.len() <= players@.len(),
                forall|m: int| 0 <= m < pre.len() ==> (#[trigger] players@[m]) == pre[m],
                forall|k: int|
                    pre.len() <= k < players@.len() ==> !lobby_has_input(
                        pre,
                        (#[trigger] players@[k]).player.input,
                    ) && exists|i: int|
                        0 <= i < props.input.sources@.len() && (
                        #[trigger] props.input.sources@[i]).spec_pressed(Button::South)
                            && props.input.sources@[i].source == players@[k].player.input,
                forall|k2: int| #![trigger joining@[k2]]
                    0 <= k2 < joining@.len() ==> exists|i: int|
                        0 <= i < props.input.sources@.len() && (
                        #[trigger] props.input.sources@[i]).spec_pressed(Button::South)
                            && joining@[k2] == props.input.sources@[i].source,
                forall|k2: int| #![trigger joining@[k2]]
                    0 <= k2 < j ==> !lobby_has_input(pre, joining@[k2]) ==> lobby_has_input(
                        players@,
                        joining@[k2],
                    ) || players@.len() == COLOR_COUNT,
            decreases joining@.len() - j,
        {
            let src: InputMethod = joining[j];
            let ghost before_round = players@;
            if players.len() < COLOR_COUNT {
                let mut found = false;
                let mut i: usize = 0;
                while i < players.len()
                    invariant
                        i <= players@.len(),
                        found <==> exists|k: int|
                            0 <= k < i && (#[trigger] players@[k]).player.input == src,
                    decreases players@.len() - i,
                {
                    if players[i].player.input == src {
                        found = true;
                        proof {
                            assert(players@[i as int].player.input == src);
                        }
                    }
                    i += 1;
                }
                if !found {
                    let mut free: Vec<usize> = Vec::new();
                    let mut c: usize = 0;
                    while c < COLOR_COUNT
                        invariant
                            c <= COLOR_COUNT,
                            forall|k: int|
                                0 <= k < free@.len() ==> (#[trigger] free@[k]) < COLOR_COUNT,
                            forall|k: int, m: int|
                                0 <= k < free@.len() && 0 <= m < players@.len() ==> (
                                #[trigger] free@[k]) != (#[trigger] players@[m]).player.color,
                            forall|c2: int|
                                0 <= c2 < c ==> free@.contains(c2 as usize)
                                    || #[trigger] lobby_has_color(players@, c2),
                        decreases COLOR_COUNT - c,
                    {
                        let mut used = false;
                        let mut i2: usize = 0;
                        while i2 < players.len()
                            invariant
                                i2 <= players@.len(),
                                !used ==> forall|m: int|
                                    0 <= m < i2 ==> (#[trigger] players@[m]).player.color != c,
                                used ==> lobby_has_color(players@, c as int),
                            decreases players@.len() - i2,
                        {
                            if players[i2].player.color == c {
                                used = true;
                                proof {
                                    assert(players@[i2 as int].player.color == c);
                                }
                            }
                            i2 += 1;
                        }
                        let ghost free_before = free@;
                        if !used {
                            free.push(c);
                            proof {
                                assert(free@.last() == c);
                                assert(free@.contains(c));
                            }
                        }
                        proof {
                            assert forall|c2: int|
                                0 <= c2 < c + 1 implies free@.contains(c2 as usize)
                                    || lobby_has_color(players@, c2) by {
                                if c2 < c {
                                    if free_before.contains(c2 as usize) {
                                        let k = choose|k: int|
                                            0 <= k < free_before.len() && free_before[k] == (
                                            c2 as usize);
                                        assert(free@[k] == c2 as usize);
                                        assert(free@.contains(c2 as usize));
                                    }
                                }
                            }
                        }
                        c += 1;
                    }
                    proof {
                        // With fewer players than palette colors, some
                        // color is unused: five distinct used colors
                        // would need five distinct players.
                        if free@.len() == 0 {
                            assert(lobby_has_color(players@, 0));
                            assert(lobby_has_color(players@, 1));
                            assert(lobby_has_color(players@, 2));
                            assert(lobby_has_color(players@, 3));
                            assert(lobby_has_color(players@, 4));
                            let w0 = choose|m: int|
                                0 <= m < players@.len() && (#[trigger] players@[m]).player.color
                                    == 0;
                            let w1 = choose|m: int|
                                0 <= m < players@.len() && (#[trigger] players@[m]).player.color
                                    == 1;
                            let w2 = choose|m: int|
                                0 <= m < players@.len() && (#[trigger] players@[m]).player.color
                                    == 2;
                            let w3 = choose|m: int|
                                0 <= m < players@.len() && (#[trigger] players@[m]).player.color
                                    == 3;
                            let w4 = choose|m: int|
                                0 <= m < players@.len() && (#[trigger] players@[m]).player.color
                                    == 4;
                            assert(false);
                        }
                    }
                    let pick: usize = crate::rng::random_index(free.len());
                    let color: usize = free[pick];
                    players.push(
                        JoinStatePlayer { player: Player { input: src, color }, rotation: 0 },
                    );
                    proof {
                        assert(players@.last().player.input == src);
                        assert(lobby_has_input(players@, src));
                        assert forall|k: int|
                            pre.len() <= k < players@.len() implies !lobby_has_input(
                            pre,
                            (#[trigger] players@[k]).player.input,
                        ) && exists|i3: int|
                            0 <= i3 < props.input.sources@.len() && (
                            #[trigger] props.input.sources@[i3]).spec_pressed(Button::South)
                                && props.input.sources@[i3].source == players@[k].player.input by {
                            if k < players@.len() - 1 {
                                assert(players@[k] == before_round[k]);
                            } else {
                                // The new entry: its source pressed
                                // confirm and was not in the old lobby.
                                assert(joining@[j as int] == joining@[j as int]);
                                if lobby_has_input(pre, src) {
                                    let m = choose|m: int|
                                        0 <= m < pre.len() && (#[trigger] pre[m]).player.input
                                            == src;
                                    assert(players@[m].player.input == src);
                                }
                            }
                        }
                    }
                }
            }
            proof {
                // Coverage: each processed presser is now in, or the
                // lobby is full.
                assert forall|k2: int| #![trigger joining@[k2]]
                    0 <= k2 < j + 1 && !lobby_has_input(pre, joining@[k2])
                        implies lobby_has_input(players@, joining@[k2]) || players@.len()
                        == COLOR_COUNT by {
                    if k2 < j {
                        if lobby_has_input(before_round, joining@[k2]) {
                            let m = choose|m: int|
                                0 <= m < before_round.len() && (
                                #[trigger] before_round[m]).player.input == joining@[k2];
                            assert(players@[m].player.input == joining@[k2]);
                        }
                    }
                }
            }
            j += 1;
        }

        // Spin each lobby sprite with its player's horizontal input.
        let ghost after_join = players@;
        let mut i: usize = 0;
        while i < players.len()
            invariant
                i <= players@.len(),
                (JoinState { players }).wf(),
                props.wf(),
                players@.len() == after_join.len(),
                forall|m: int|
                    0 <= m < players@.len() ==> (#[trigger] players@[m]).player
                        == after_join[m].player,
            decreases players@.len() - i,
        {
            let mut p: JoinStatePlayer = players[i];
            let ax: i64 = props.input.get_axis(&p.player.input, Axis::X) as i64;
            let spin: i64 = crate::mathutil::scale_time(ax * 3, props.time as i64);
            let mut rot: i64 = p.rotation + spin;
            if rot > SPIN_CAP {
                rot = SPIN_CAP;
            }
            if rot < -SPIN_CAP {
                rot = -SPIN_CAP;
            }
            p.rotation = rot;
            let ghost before = players@;
            players.set(i, p);
            proof {
                assert forall|a: int, b: int|
                    0 <= a < b < players@.len() implies (#[trigger] players@[a]).player.color != (
                #[trigger] players@[b]).player.color && players@[a].player.input
                    != players@[b].player.input by {
                    assert(players@[a].player == before[a].player);
                    assert(players@[b].player == before[b].player);
                }
            }
            i += 1;
        }
        let ghost mid = players@;
        proof {
            lemma_identities_joins_ok(pre, props.input, after_join, mid);
        }

        // Leaving: a player holding the leave button without confirm is
        // dropped; everyone else is kept in order.
        let mut kept: Vec<JoinStatePlayer> = Vec::new();
        let mut i3: usize = 0;
        while i3 < players.len()
            invariant
                i3 <= players@.len(),
                players@ == mid,
                (JoinState { players }).wf(),
                props.wf(),
                kept@ == survivors(players@.take(i3 as int), props.input),
            decreases players@.len() - i3,
        {
            let p: JoinStatePlayer = players[i3];
            let leaving = props.input.is_pressed(&p.player.input, Button::East)
                && !props.input.is_pressed(&p.player.input, Button::South);
            proof {
                reveal(Seq::filter);
                assert(players@.take(i3 + 1).drop_last() =~= players@.take(i3 as int));
                assert(players@.take(i3 + 1).last() == p);
            }
            if !leaving {
                kept.push(p);
            }
            i3 += 1;
        }
        proof {
            assert(players@.take(players@.len() as int) =~= players@);
        }
        let players2 = kept;

        // Starting: any start press begins the match, provided someone
        // has joined.
        let starters = props.input.get_pressed_any(Button::Start);
        proof {
            lemma_survivors_wf(mid, props.input);
        }
        if starters.len() > 0 && players2.len() > 0 {
            let board: Board = Board::get_default_board();
            proof {
                assert(board.spaces@[0].id == 0);
                assert(board.has_space(0));
            }
            let mut roster: Vec<PlayerInfo> = Vec::new();
            let mut m: usize = 0;
            while m < players2.len()
                invariant
                    m <= players2@.len(),
                    roster@.len() == m,
                    board.wf(),
                    board.has_space(0),
                    (JoinState { players: players2 }).wf(),
                    forall|k: int|
                        0 <= k < roster@.len() ==> (#[trigger] roster@[k]) == (PlayerInfo {
                            player: players2@[k].player,
                            space: 0,
                            coins: 0,
                            stars: 0,
                        }),
                decreases players2@.len() - m,
            {
                let pl: Player = players2[m].player;
                roster.push(PlayerInfo::from(pl));
                m += 1;
            }
            proof {
                assert(crate::ingame::roster_ok(roster@, board));
            }
            let game = GameInfo::new(roster, board);
            let result = UpdateResult::NewState(Phase::DieRoll(DieRollState::new(game, 0)));
            proof {
                assert(joins_ok(pre, props.input, mid));
                assert(players2@ == survivors(mid, props.input));
                assert(join_step_ok(self, *props, result));
            }
            return result;
        }
        let result = UpdateResult::Continue(Phase::Join(JoinState { players: players2 }));
        proof {
            assert(joins_ok(pre, props.input, mid));
            assert(players2@ == survivors(mid, props.input));
            assert(join_step_ok(self, *props, result));
        }
        result
    }
}

/// Filtering a valid lobby keeps it valid: the survivors are pairwise
/// distinct in color and input, each well formed, and no more numerous
/// than the lobby.
proof fn lemma_survivors_wf(s: Seq<JoinStatePlayer>, input: InputState)
    requires
        forall|i: int|
            0 <= i < s.len() ==> (#[trigger] s[i]).player.wf() && -SPIN_CAP <= s[i].rotation
                <= SPIN_CAP,
        forall|i: int, j: int|
            0 <= i < j < s.len() ==> (#[trigger] s[i]).player.color != (
            #[trigger] s[j]).player.color && s[i].player.input != s[j].player.input,
    ensures
        survivors(s, input).len() <= s.len(),
        forall|k: int|
            0 <= k < survivors(s, input).len() ==> exists|m: int|
                0 <= m < s.len() && (#[trigger] survivors(s, input)[k]) == s[m],
        forall|i: int|
            0 <= i < survivors(s, input).len() ==> (#[trigger] survivors(s, input)[i]).player.wf()
                && -SPIN_CAP <= survivors(s, input)[i].rotation <= SPIN_CAP,
        forall|i: int, j: int|
            0 <= i < j < survivors(s, input).len() ==> (
            #[trigger] survivors(s, input)[i]).player.color != (
            #[trigger] survivors(s, input)[j]).player.color && survivors(s, input)[i].player.input
                != survivors(s, input)[j].player.input,
    decreases s.len(),
{
    reveal(Seq::filter);
    if s.len() > 0 {
        let d = s.drop_last();
        assert forall|i: int| 0 <= i < d.len() implies (#[trigger] d[i]).player.wf() && -SPIN_CAP
            <= d[i].rotation <= SPIN_CAP by {
            assert(d[i] == s[i]);
        }
        assert forall|i: int, j: int|
            0 <= i < j < d.len() implies (#[trigger] d[i]).player.color != (
        #[trigger] d[j]).player.color && d[i].player.input != d[j].player.input by {
            assert(d[i] == s[i] && d[j] == s[j]);
        }
        lemma_survivors_wf(d, input);
        let v = survivors(s, input);
        let vd = survivors(d, input);
        if !wants_leave(input, s.last().player.input) {
            assert(v == vd.push(s.last()));
            assert forall|k: int|
                0 <= k < v.len() implies exists|m: int|
                    0 <= m < s.len() && (#[trigger] v[k]) == s[m] by {
                if k < vd.len() {
                    assert(v[k] == vd[k]);
                    let m = choose|m: int| 0 <= m < d.len() && (#[trigger] vd[k]) == d[m];
                    assert(v[k] == s[m]);
                } else {
                    assert(v[k] == s[s.len() - 1]);
                }
            }
            assert forall|i: int, j: int|
                0 <= i < j < v.len() implies (#[trigger] v[i]).player.color != (
            #[trigger] v[j]).player.color && v[i].player.input != v[j].player.input by {
                if j < vd.len() {
                    assert(v[i] == vd[i] && v[j] == vd[j]);
                } else {
                    assert(v[j] == s[s.len() - 1]);
                    assert(v[i] == vd[i]);
                    let m = choose|m: int| 0 <= m < d.len() && (#[trigger] vd[i]) == d[m];
                    assert(v[i] == s[m] && m < s.len() - 1);
                }
            }
        } else {
            assert(v == vd);
        }
    }
}

/// Identity-preserving passes preserve the joining relation: if the
/// post-join lobby obeys it and a later pass keeps every player identity
/// (touching only rotations), the later lobby obeys it too.
proof fn lemma_identities_joins_ok(
    pre: Seq<JoinStatePlayer>,
    input: InputState,
    a: Seq<JoinStatePlayer>,
    b: Seq<JoinStatePlayer>,
)
    requires
        joins_ok(pre, input, a),
        a.len() == b.len(),
        forall|m: int| 0 <= m < b.len() ==> (#[trigger] b[m]).player == a[m].player,
    ensures
        joins_ok(pre, input, b),
{
    assert forall|m: int| 0 <= m < pre.len() implies (#[trigger] b[m]).player == pre[m].player by {
        assert(a[m].player == pre[m].player);
    }
    assert forall|k: int|
        pre.len() <= k < b.len() implies !lobby_has_input(pre, (#[trigger] b[k]).player.input)
            && exists|i: int|
            0 <= i < input.sources@.len() && (#[trigger] input.sources@[i]).spec_pressed(
                Button::South,
            ) && input.sources@[i].source == b[k].player.input by {
        assert(b[k].player == a[k].player);
        assert(!lobby_has_input(pre, a[k].player.input) && exists|i: int|
            0 <= i < input.sources@.len() && (#[trigger] input.sources@[i]).spec_pressed(
                Button::South,
            ) && input.sources@[i].source == a[k].player.input);
    }
    assert forall|i: int|
        0 <= i < input.sources@.len() && (#[trigger] input.sources@[i]).spec_pressed(
            Button::South,
        ) && !lobby_has_input(pre, input.sources@[i].source) implies lobby_has_input(
        b,
        input.sources@[i].source,
    ) || b.len() == COLOR_COUNT by {
        if lobby_has_input(a, input.sources@[i].source) {
            let m = choose|m: int|
                0 <= m < a.len() && (#[trigger] a[m]).player.input == input.sources@[i].source;
            assert(b[m].player.input == input.sources@[i].source);
        }
    }
}

} // verus!
