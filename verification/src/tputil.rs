//! Shared small types: fixed-point points, input snapshots, players, alignment.

use vstd::prelude::*;

verus! {

/// Number of distinct player colors in the fixed palette.
pub const COLOR_COUNT: usize = 5;

/// Largest coordinate magnitude a board position may carry, in milli-units.
/// Keeps squared distances and bearing computations inside `i64`.
pub const COORD_LIMIT: i64 = 1_000_000_000;

/// An analog input axis of a controller.
#[derive(Copy, Clone, PartialEq, Eq, Structural, Debug)]
pub enum Axis {
    X,
    Y,
}

/// The buttons the engine reads. South confirms and jumps, East leaves
/// a joining lobby, Start begins a match.
#[derive(Copy, Clone, PartialEq, Eq, Structural, Debug)]
pub enum Button {
    South,
    East,
    Start,
}

/// Which physical device drives a player. Gamepads carry the host's
/// numeric handle for the device.
#[derive(Copy, Clone, PartialEq, Eq, Structural, Debug)]
pub enum InputMethod {
    Gamepad(u64),
    Keyboard,
}

/// A joined player: an input source plus a palette color index.
#[derive(Copy, Clone, PartialEq, Eq, Structural, Debug)]
pub struct Player {
    pub input: InputMethod,
    pub color: usize,
}

impl Player {
    /// A player is valid when its color is a palette index.
    pub open spec fn wf(self) -> bool {
        self.color < COLOR_COUNT
    }
}

/// A 2D point in milli-units (1000 = one board unit).
#[derive(Copy, Clone, PartialEq, Eq, Structural, Debug)]
pub struct Point2D {
    pub x: i64,
    pub y: i64,
}

impl Point2D {
    pub open spec fn in_bounds(self) -> bool {
        &&& -COORD_LIMIT <= self.x <= COORD_LIMIT
        &&& -COORD_LIMIT <= self.y <= COORD_LIMIT
    }

    pub fn new(x: i64, y: i64) -> (r: Point2D)
        ensures
            r.x == x,
            r.y == y,
    {
        Point2D { x, y }
    }

    /// Linear interpolation from `a` to `b`: `t` is a fixed-point
    /// fraction, 1000 meaning all the way to `b`.
    pub fn lerp(a: Point2D, b: Point2D, t: i64) -> (r: Point2D)
        requires
            a.in_bounds(),
            b.in_bounds(),
            0 <= t <= 1000,
        ensures
            r.x == a.x + crate::mathutil::div_trunc((b.x - a.x) * t, 1000),
            r.y == a.y + crate::mathutil::div_trunc((b.y - a.y) * t, 1000),
    {
        let dx: i64 = b.x - a.x;
        let dy: i64 = b.y - a.y;
        proof {
            assert(-2_000_000_000_000 <= dx * t <= 2_000_000_000_000) by (nonlinear_arith)
                requires
                    -2_000_000_000 <= dx <= 2_000_000_000,
                    0 <= t <= 1000,
            ;
            assert(-2_000_000_000_000 <= dy * t <= 2_000_000_000_000) by (nonlinear_arith)
                requires
                    -2_000_000_000 <= dy <= 2_000_000_000,
                    0 <= t <= 1000,
            ;
            crate::mathutil::lemma_div_trunc_bound(dx * t, 1000, 2_000_000_000);
            crate::mathutil::lemma_div_trunc_bound(dy * t, 1000, 2_000_000_000);
        }
        Point2D {
            x: a.x + crate::mathutil::div_milli(dx * t),
            y: a.y + crate::mathutil::div_milli(dy * t),
        }
    }

    /// Euclidean distance between two points in milli-units, rounded
    /// down to an integer.
    pub fn dist(a: Point2D, b: Point2D) -> (r: u64)
        requires
            a.in_bounds(),
            b.in_bounds(),
        ensures
            r * r <= (b.x - a.x) * (b.x - a.x) + (b.y - a.y) * (b.y - a.y) < (r + 1) * (r + 1),
    {
        let dx: i64 = b.x - a.x;
        let dy: i64 = b.y - a.y;
        proof {
            assert(0 <= dx * dx <= 4_000_000_000_000_000_000) by (nonlinear_arith)
                requires
                    -2_000_000_000 <= dx <= 2_000_000_000,
            ;
            assert(0 <= dy * dy <= 4_000_000_000_000_000_000) by (nonlinear_arith)
                requires
                    -2_000_000_000 <= dy <= 2_000_000_000,
            ;
        }
        crate::mathutil::isqrt((dx * dx) as u64 + (dy * dy) as u64)
    }

    /// Scales both coordinates by the fixed-point factor `a`
    /// (`a == 1000` leaves the point unchanged).
    pub fn multiply_scalar(&self, a: i64) -> (r: Point2D)
        requires
            -1_000_000_000_000 <= self.x * a <= 1_000_000_000_000,
            -1_000_000_000_000 <= self.y * a <= 1_000_000_000_000,
        ensures
            r.x == crate::mathutil::div_trunc(self.x * a, 1000),
            r.y == crate::mathutil::div_trunc(self.y * a, 1000),
    {
        Point2D {
            x: crate::mathutil::div_milli(self.x * a),
            y: crate::mathutil::div_milli(self.y * a),
        }
    }
}

/// The input one source reported for one tick. Axis values are milli-units
/// in [-1000, 1000]; the `*_pressed` fields mean the button went down during
/// this tick, while the bare fields mean it is currently held.
#[derive(Copy, Clone, PartialEq, Eq, Structural, Debug)]
pub struct SourceInput {
    pub source: InputMethod,
    pub axis_x: i32,
    pub axis_y: i32,
    pub south: bool,
    pub east: bool,
    pub start: bool,
    pub south_pressed: bool,
    pub start_pressed: bool,
}

impl SourceInput {
    pub open spec fn wf(self) -> bool {
        &&& -1000 <= self.axis_x <= 1000
        &&& -1000 <= self.axis_y <= 1000
    }

    pub open spec fn spec_held(self, button: Button) -> bool {
        match button {
            Button::South => self.south,
            Button::East => self.east,
            Button::Start => self.start,
        }
    }

    pub open spec fn spec_pressed(self, button: Button) -> bool {
        match button {
            Button::South => self.south_pressed,
            Button::East => self.east,
            Button::Start => self.start_pressed,
        }
    }

    pub open spec fn spec_axis(self, axis: Axis) -> i32 {
        match axis {
            Axis::X => self.axis_x,
            Axis::Y => self.axis_y,
        }
    }
}

/// One tick's input snapshot over every connected source. This is the
/// abstract input-provider capability: the host polls its device backends
/// once per tick and hands the engine this plain-value view.
#[derive(Debug)]
pub struct InputState {
    pub sources: Vec<SourceInput>,
}

impl InputState {
    pub open spec fn wf(self) -> bool {
        forall|i: int| 0 <= i < self.sources@.len() ==> (#[trigger] self.sources@[i]).wf()
    }

    /// Whether some source in the snapshot reports for `ctl`.
    pub open spec fn has_source(self, ctl: InputMethod) -> bool {
        exists|i: int|
            0 <= i < self.sources@.len() && (#[trigger] self.sources@[i]).source == ctl
    }

    /// The entry the lookups read: the first one reporting for `ctl`
    /// (meaningful when `has_source(ctl)`).
    pub open spec fn source_for(self, ctl: InputMethod) -> SourceInput {
        self.sources@[first_match(self.sources@, ctl)]
    }

    /// What `get_axis` returns for `ctl`.
    pub open spec fn spec_axis_of(self, ctl: InputMethod, axis: Axis) -> i32 {
        if self.has_source(ctl) {
            self.source_for(ctl).spec_axis(axis)
        } else {
            0
        }
    }

    /// What `is_pressed` returns for `ctl`.
    pub open spec fn spec_held_of(self, ctl: InputMethod, button: Button) -> bool {
        self.has_source(ctl) && self.source_for(ctl).spec_held(button)
    }

    /// Whether any source pressed `button` during this tick.
    pub open spec fn any_pressed(self, button: Button) -> bool {
        exists|i: int|
            0 <= i < self.sources@.len() && (#[trigger] self.sources@[i]).spec_pressed(button)
    }

    pub fn new() -> (r: InputState)
        ensures
            r.sources@.len() == 0,
    {
        InputState { sources: Vec::new() }
    }

    /// The current deflection of `axis` on the first entry for `ctl`, or
    /// 0 when the source is not in the snapshot.
    pub fn get_axis(&self, ctl: &InputMethod, axis: Axis) -> (r: i32)
        ensures
            r == self.spec_axis_of(*ctl, axis),
            self.wf() ==> -1000 <= r <= 1000,
    {
        let mut i: usize = 0;
        while i < self.sources.len()
            invariant
                i <= self.sources@.len(),
                forall|j: int| 0 <= j < i ==> (#[trigger] self.sources@[j]).source != *ctl,
            decreases self.sources@.len() - i,
        {
            if self.sources[i].source == *ctl {
                proof {
                    lemma_first_match(self.sources@, *ctl, i as int);
                }
                return match axis {
                    Axis::X => self.sources[i].axis_x,
                    Axis::Y => self.sources[i].axis_y,
                };
            }
            i += 1;
        }
        proof {
            if self.has_source(*ctl) {
                let n = choose|n: int|
                    0 <= n < self.sources@.len() && (#[trigger] self.sources@[n]).source == *ctl;
                assert(false);
            }
        }
        0
    }

    /// Whether the first entry for `ctl` currently holds `button`; false
    /// when the source is absent.
    pub fn is_pressed(&self, ctl: &InputMethod, button: Button) -> (r: bool)
        ensures
            r == self.spec_held_of(*ctl, button),
    {
        let mut i: usize = 0;
        while i < self.sources.len()
            invariant
                i <= self.sources@.len(),
                forall|j: int| 0 <= j < i ==> (#[trigger] self.sources@[j]).source != *ctl,
            decreases self.sources@.len() - i,
        {
            if self.sources[i].source == *ctl {
                proof {
                    lemma_first_match(self.sources@, *ctl, i as int);
                }
                return match button {
                    Button::South => self.sources[i].south,
                    Button::East => self.sources[i].east,
                    Button::Start => self.sources[i].start,
                };
            }
            i += 1;
        }
        proof {
            if self.has_source(*ctl) {
                let n = choose|n: int|
                    0 <= n < self.sources@.len() && (#[trigger] self.sources@[n]).source == *ctl;
                assert(false);
            }
        }
        false
    }

    /// Every source that pressed `button` during this tick, in snapshot order.
    pub fn get_pressed_any(&self, button: Button) -> (r: Vec<InputMethod>)
        ensures
            forall|k: int| #![trigger r@[k]]
                0 <= k < r@.len() ==> exists|i: int|
                    0 <= i < self.sources@.len()
                        && (#[trigger] self.sources@[i]).spec_pressed(button)
                        && r@[k] == self.sources@[i].source,
            forall|i: int|
                0 <= i < self.sources@.len() && (#[trigger] self.sources@[i]).spec_pressed(
                    button,
                ) ==> r@.contains(self.sources@[i].source),
            (r@.len() > 0) == self.any_pressed(button),
    {
        let mut results: Vec<InputMethod> = Vec::new();
        let mut i: usize = 0;
        while i < self.sources.len()
            invariant
                i <= self.sources@.len(),
                forall|k: int| #![trigger results@[k]]
                    0 <= k < results@.len() ==> exists|j: int|
                        0 <= j < self.sources@.len()
                            && (#[trigger] self.sources@[j]).spec_pressed(button)
                            && results@[k] == self.sources@[j].source,
                forall|j: int|
                    0 <= j < i && (#[trigger] self.sources@[j]).spec_pressed(button)
                        ==> results@.contains(self.sources@[j].source),
            decreases self.sources@.len() - i,
        {
            let s = self.sources[i];
            let hit = match button {
                Button::South => s.south_pressed,
                Button::East => s.east,
                Button::Start => s.start_pressed,
            };
            let ghost prev = results@;
            if hit {
                results.push(s.source);
            }
            proof {
                assert forall|j: int|
                    0 <= j < i + 1 && (#[trigger] self.sources@[j]).spec_pressed(button)
                        implies results@.contains(self.sources@[j].source) by {
                    if j < i {
                        let k = choose|k: int|
                            0 <= k < prev.len() && prev[k] == self.sources@[j].source;
                        assert(results@[k] == self.sources@[j].source);
                    } else {
                        assert(results@[results@.len() - 1] == s.source);
                    }
                }
            }
            i += 1;
        }
        proof {
            if results@.len() > 0 {
                assert(results@[0] == results@[0]);
                let j = choose|j: int|
                    0 <= j < self.sources@.len() && (#[trigger] self.sources@[j]).spec_pressed(
                        button,
                    ) && results@[0] == self.sources@[j].source;
                assert(self.any_pressed(button));
            }
            if self.any_pressed(button) {
                let w = choose|w: int|
                    0 <= w < self.sources@.len() && (#[trigger] self.sources@[w]).spec_pressed(
                        button,
                    );
                assert(results@.contains(self.sources@[w].source));
            }
        }
        results
    }
}

/// Index of the first entry of `sources` reporting for `ctl` (the length
/// when there is none).
pub open spec fn first_match(sources: Seq<SourceInput>, ctl: InputMethod) -> int
    decreases sources.len(),
{
    if sources.len() == 0 {
        0
    } else if sources[0].source == ctl {
        0
    } else {
        1 + first_match(sources.drop_first(), ctl)
    }
}

/// The first entry matching `ctl` is the one with no match before it.
pub proof fn lemma_first_match(sources: Seq<SourceInput>, ctl: InputMethod, i: int)
    requires
        0 <= i < sources.len(),
        sources[i].source == ctl,
        forall|j: int| 0 <= j < i ==> (#[trigger] sources[j]).source != ctl,
    ensures
        first_match(sources, ctl) == i,
    decreases i,
{
    if i > 0 {
        assert(sources[0].source != ctl);
        let tail = sources.drop_first();
        assert(tail[i - 1] == sources[i]);
        assert forall|j: int| 0 <= j < i - 1 implies (#[trigger] tail[j]).source != ctl by {
            assert(tail[j] == sources[j + 1]);
        }
        lemma_first_match(tail, ctl, i - 1);
    }
}

/// Horizontal anchoring of drawn text.
#[derive(Copy, Clone, PartialEq, Eq, Structural, Debug)]
pub enum AlignmentX {
    Left,
    Center,
    Right,
}

/// Vertical anchoring of drawn text.
#[derive(Copy, Clone, PartialEq, Eq, Structural, Debug)]
pub enum AlignmentY {
    Top,
    Middle,
    Bottom,
}

/// A text anchor: horizontal and vertical alignment together.
#[derive(Copy, Clone, PartialEq, Eq, Structural, Debug)]
pub struct Alignment(pub AlignmentX, pub AlignmentY);

impl Alignment {
    /// Horizontal offset that anchors text of width `width` (milli-units).
    pub fn get_offset_x(&self, width: i64) -> (r: i64)
        requires
            0 <= width,
        ensures
            self.0 == AlignmentX::Left ==> r == 0,
            self.0 == AlignmentX::Center ==> r == -(width / 2),
            self.0 == AlignmentX::Right ==> r == -width,
    {
        match self.0 {
            AlignmentX::Left => 0,
            AlignmentX::Center => -((width as u64 / 2) as i64),
            AlignmentX::Right => -width,
        }
    }

    /// Vertical offset that anchors text of height `height` (milli-units).
    pub fn get_text_offset_y(&self, height: i64) -> (r: i64)
        requires
            0 <= height,
        ensures
            self.1 == AlignmentY::Top ==> r == height,
            self.1 == AlignmentY::Middle ==> r == height / 2,
            self.1 == AlignmentY::Bottom ==> r == 0,
    {
        match self.1 {
            AlignmentY::Top => height,
            AlignmentY::Middle => (height as u64 / 2) as i64,
            AlignmentY::Bottom => 0,
        }
    }

    /// Both offsets as a point.
    pub fn get_text_offset(&self, width: i64, height: i64) -> (r: Point2D)
        requires
            0 <= width,
            0 <= height,
        ensures
            r.x == match self.0 {
                AlignmentX::Left => 0,
                AlignmentX::Center => -(width / 2),
                AlignmentX::Right => -width as int,
            },
            r.y == match self.1 {
                AlignmentY::Top => height as int,
                AlignmentY::Middle => height / 2,
                AlignmentY::Bottom => 0,
            },
    {
        Point2D { x: self.get_offset_x(width), y: self.get_text_offset_y(height) }
    }
}

} // verus!
