//! Fixed-point arithmetic helpers: truncating division, integer square
//! root, angle normalization and a coarse sine approximation.
//!
//! Angles are millidegrees: a full turn is 360_000 and bearings live in
//! the half-open range (-180_000, 180_000].

use vstd::prelude::*;

verus! {

/// A full turn in millidegrees.
pub const FULL_TURN: i64 = 360_000;

/// Half a turn in millidegrees.
pub const HALF_TURN: i64 = 180_000;

/// Cap on accumulated times, far beyond every timer threshold the engine
/// compares against; accumulators saturate here instead of overflowing.
pub const TIME_CAP: u64 = 1_099_511_627_776;

/// Division truncating toward zero (what the host hardware does), for a
/// positive divisor.
pub open spec fn div_trunc(a: int, b: int) -> int
    recommends
        b > 0,
{
    if a >= 0 {
        a / b
    } else {
        -((-a) / b)
    }
}

/// The absolute value of a mathematical integer.
pub open spec fn abs_int(a: int) -> int {
    if a < 0 {
        -a
    } else {
        a
    }
}

/// Wraps an angle difference out of (-FULL_TURN, FULL_TURN) back into
/// (-HALF_TURN, HALF_TURN].
pub open spec fn norm_angle(d: int) -> int
    recommends
        -360_000 < d < 360_000,
{
    if d > 180_000 {
        d - 360_000
    } else if d <= -180_000 {
        d + 360_000
    } else {
        d
    }
}

/// Absolute angular distance between two bearings in (-HALF_TURN, HALF_TURN].
pub open spec fn angle_diff(a: int, b: int) -> int
    recommends
        -180_000 < a <= 180_000,
        -180_000 < b <= 180_000,
{
    abs_int(norm_angle(a - b))
}

/// Truncating division by 1000 (one fixed-point scaling step).
pub fn div_milli(a: i64) -> (r: i64)
    requires
        a != i64::MIN,
    ensures
        r == div_trunc(a as int, 1000),
{
    if a >= 0 {
        ((a as u64) / 1000) as i64
    } else {
        -((((-a) as u64) / 1000) as i64)
    }
}

/// Truncating division of `a` by a positive `b`.
pub fn div_trunc_i64(a: i64, b: i64) -> (r: i64)
    requires
        a != i64::MIN,
        b > 0,
    ensures
        r == div_trunc(a as int, b as int),
{
    if a >= 0 {
        ((a as u64) / (b as u64)) as i64
    } else {
        -((((-a) as u64) / (b as u64)) as i64)
    }
}

/// Largest `r` with `r * r <= n`.
pub fn isqrt(n: u64) -> (r: u64)
    ensures
        r * r <= n < (r + 1) * (r + 1),
{
    if n == 0 {
        return 0;
    }
    let mut lo: u64 = 0;
    let mut hi: u64 = 4_294_967_296;
    if n < hi {
        hi = n + 1;
        proof {
            assert(n < hi * hi) by (nonlinear_arith)
                requires
                    hi == n + 1,
            ;
        }
    }
    proof {
        assert(n < 4_294_967_296 * 4_294_967_296) by (nonlinear_arith)
            requires
                n < 18_446_744_073_709_551_616,
        ;
    }
    while hi - lo > 1
        invariant
            lo < hi <= 4_294_967_296,
            lo * lo <= n,
            n < hi * hi,
        decreases hi - lo,
    {
        let mid: u64 = lo + (hi - lo) / 2;
        proof {
            assert(mid * mid <= 4_294_967_295 * 4_294_967_295) by (nonlinear_arith)
                requires
                    mid <= 4_294_967_295,
            ;
        }
        if mid * mid <= n {
            lo = mid;
        } else {
            hi = mid;
        }
    }
    lo
}

/// What `add_time` computes: saturating addition capped at `TIME_CAP`.
pub open spec fn spec_add_time(t: int, dt: int) -> int {
    if t + dt <= TIME_CAP {
        t + dt
    } else {
        TIME_CAP as int
    }
}

/// Saturating time accumulation: adds `dt` milliseconds, capping at
/// `TIME_CAP` so accumulators never overflow.
pub fn add_time(t: u64, dt: u64) -> (r: u64)
    requires
        t <= TIME_CAP,
    ensures
        r == spec_add_time(t as int, dt as int),
        r <= TIME_CAP,
        t <= r,
    {
    if dt >= TIME_CAP - t {
        TIME_CAP
    } else {
        t + dt
    }
}

/// Truncating division keeps magnitudes: when |a| <= m * b, the quotient
/// stays within |m|.
pub proof fn lemma_div_trunc_bound(a: int, b: int, m: int)
    requires
        b > 0,
        0 <= m,
        -(m * b) <= a <= m * b,
    ensures
        -m <= div_trunc(a, b) <= m,
{
    if a >= 0 {
        vstd::arithmetic::div_mod::lemma_multiply_divide_le(a, b, m);
        vstd::arithmetic::div_mod::lemma_div_pos_is_pos(a, b);
    } else {
        vstd::arithmetic::div_mod::lemma_multiply_divide_le(-a, b, m);
        vstd::arithmetic::div_mod::lemma_div_pos_is_pos(-a, b);
    }
}

/// One physics integration step: `v` (milli-units per second) over `dt`
/// milliseconds, truncated toward zero.
pub fn scale_time(v: i64, dt: i64) -> (r: i64)
    requires
        0 <= dt <= 1_000_000,
        -1_000_000_000 <= v <= 1_000_000_000,
    ensures
        r == div_trunc(v * dt, 1000),
        abs_int(r as int) <= abs_int(v as int) * 1000,
{
    proof {
        assert(-(1_000_000_000_000_000int) <= v * dt <= 1_000_000_000_000_000int)
            by (nonlinear_arith)
            requires
                0 <= dt <= 1_000_000,
                -1_000_000_000 <= v <= 1_000_000_000,
        ;
        assert(-(abs_int(v as int) * 1_000_000) <= v * dt <= abs_int(v as int) * 1_000_000)
            by (nonlinear_arith)
            requires
                0 <= dt <= 1_000_000,
        ;
        assert(abs_int(v as int) * 1_000_000 == (abs_int(v as int) * 1000) * 1000)
            by (nonlinear_arith);
        lemma_div_trunc_bound(v * dt, 1000, abs_int(v as int) * 1000);
    }
    div_milli(v * dt)
}

/// Absolute angular distance, executable form.
pub fn angle_distance(a: i64, b: i64) -> (r: i64)
    requires
        -180_000 < a <= 180_000,
        -180_000 < b <= 180_000,
    ensures
        r == angle_diff(a as int, b as int),
        0 <= r <= 180_000,
{
    let d: i64 = a - b;
    let w: i64 = if d > 180_000 {
        d - 360_000
    } else if d <= -180_000 {
        d + 360_000
    } else {
        d
    };
    if w < 0 {
        -w
    } else {
        w
    }
}

/// Picks the bearing closest (in wrapped angular distance) to `user`,
/// returning the first index attaining the minimum.
pub fn choose_closest_bearing(bearings: &Vec<i64>, user: i64) -> (r: usize)
    requires
        bearings@.len() > 0,
        forall|j: int| 0 <= j < bearings@.len() ==> -180_000 < #[trigger] bearings@[j] <= 180_000,
        -180_000 < user <= 180_000,
    ensures
        r < bearings@.len(),
        forall|j: int|
            0 <= j < bearings@.len() ==> angle_diff(user as int, bearings@[r as int] as int)
                <= angle_diff(user as int, #[trigger] bearings@[j] as int),
        forall|j: int|
            0 <= j < r ==> angle_diff(user as int, bearings@[r as int] as int) < angle_diff(
                user as int,
                #[trigger] bearings@[j] as int,
            ),
{
    let mut best: usize = 0;
    let mut best_d: i64 = angle_distance(user, bearings[0]);
    let mut i: usize = 1;
    while i < bearings.len()
        invariant
            1 <= i <= bearings@.len(),
            best < i,
            forall|j: int|
                0 <= j < bearings@.len() ==> -180_000 < #[trigger] bearings@[j] <= 180_000,
            -180_000 < user <= 180_000,
            best_d == angle_diff(user as int, bearings@[best as int] as int),
            forall|j: int| 0 <= j < i ==> best_d <= angle_diff(user as int, #[trigger] bearings@[j] as int),
            forall|j: int| 0 <= j < best ==> best_d < angle_diff(user as int, #[trigger] bearings@[j] as int),
        decreases bearings@.len() - i,
    {
        let d: i64 = angle_distance(user, bearings[i]);
        if d < best_d {
            best = i;
            best_d = d;
        }
        i += 1;
    }
    best
}

/// The octant arctangent as mathematics: what `atan_octant` computes.
pub open spec fn spec_atan_octant(ratio: int) -> int
    recommends
        0 <= ratio <= 1000,
{
    45 * ratio + 15_640 * ratio * (1000 - ratio) / 1_000_000
}

/// The full bearing as mathematics: what `bearing_millideg` computes.
pub open spec fn spec_bearing(dx: int, dy: int) -> int {
    let ax = abs_int(dx);
    let ay = abs_int(dy);
    if ax == 0 && ay == 0 {
        0
    } else {
        let base = if ay <= ax {
            spec_atan_octant(ay * 1000 / ax)
        } else {
            90_000 - spec_atan_octant(ax * 1000 / ay)
        };
        let quad = if dx >= 0 {
            base
        } else {
            180_000 - base
        };
        let signed = if dy >= 0 {
            quad
        } else {
            -quad
        };
        if signed <= -180_000 {
            signed + 360_000
        } else {
            signed
        }
    }
}

/// One octant of the bearing computation: a coarse arctangent of
/// `ratio`/1000 in millidegrees, exact at both ends of the octant.
fn atan_octant(ratio: u64) -> (r: u64)
    requires
        ratio <= 1000,
    ensures
        r == spec_atan_octant(ratio as int),
        r <= 45_000,
        ratio == 0 ==> r == 0,
        ratio == 1000 ==> r == 45_000,
{
    proof {
        assert(15_640 * ratio * (1000 - ratio) <= 1_000_000 * ((45_000 - 45 * ratio) as int))
            by (nonlinear_arith)
            requires
                ratio <= 1000,
        ;
    }
    let quad: u64 = 15_640 * ratio * (1000 - ratio) / 1_000_000;
    proof {
        vstd::arithmetic::div_mod::lemma_multiply_divide_le(
            15_640 * ratio * (1000 - ratio),
            1_000_000,
            (45_000 - 45 * ratio) as int,
        );
    }
    let r: u64 = 45 * ratio + quad;
    proof {
        if ratio == 0 || ratio == 1000 {
            assert(15_640 * ratio * (1000 - ratio) == 0) by (nonlinear_arith)
                requires
                    ratio == 0 || ratio == 1000,
            ;
            vstd::arithmetic::div_mod::lemma_div_of0(1_000_000);
        }
    }
    r
}

/// The bearing of the displacement (`dx`, `dy`) in millidegrees, in
/// (-HALF_TURN, HALF_TURN]; exact on the four axis directions and 0 for
/// the zero displacement.
pub fn bearing_millideg(dx: i64, dy: i64) -> (r: i64)
    requires
        -2_000_000_000 <= dx <= 2_000_000_000,
        -2_000_000_000 <= dy <= 2_000_000_000,
    ensures
        r == spec_bearing(dx as int, dy as int),
        -180_000 < r <= 180_000,
        dx > 0 && dy == 0 ==> r == 0,
        dx == 0 && dy > 0 ==> r == 90_000,
        dx < 0 && dy == 0 ==> r == 180_000,
        dx == 0 && dy < 0 ==> r == -90_000,
        dx == 0 && dy == 0 ==> r == 0,
{
    let ax: u64 = if dx >= 0 {
        dx as u64
    } else {
        (-dx) as u64
    };
    let ay: u64 = if dy >= 0 {
        dy as u64
    } else {
        (-dy) as u64
    };
    if ax == 0 && ay == 0 {
        return 0;
    }
    let base: i64 = if ay <= ax {
        proof {
            vstd::arithmetic::div_mod::lemma_multiply_divide_le(
                ay * 1000,
                ax as int,
                1000,
            );
            assert(ay * 1000 <= ax * 1000) by (nonlinear_arith)
                requires
                    ay <= ax,
            ;
        }
        atan_octant(ay * 1000 / ax) as i64
    } else {
        proof {
            vstd::arithmetic::div_mod::lemma_multiply_divide_le(
                ax * 1000,
                ay as int,
                1000,
            );
            assert(ax * 1000 <= ay * 1000) by (nonlinear_arith)
                requires
                    ax <= ay,
            ;
        }
        90_000 - atan_octant(ax * 1000 / ay) as i64
    };
    let quad: i64 = if dx >= 0 {
        base
    } else {
        180_000 - base
    };
    let signed: i64 = if dy >= 0 {
        quad
    } else {
        -quad
    };
    if signed <= -180_000 {
        signed + 360_000
    } else {
        signed
    }
}

/// The coarse sine as mathematics: what `milli_sin` computes.
pub open spec fn spec_milli_sin(x: int) -> int {
    let ax = abs_int(x);
    let p = ax * (180_000 - ax) / 1_000_000;
    let s = 4000 * p / (40_500 - p);
    if x >= 0 {
        s
    } else {
        -s
    }
}

/// The coarse cosine as mathematics: what `milli_cos` computes.
pub open spec fn spec_milli_cos(x: int) -> int {
    if x >= 0 {
        spec_milli_sin(90_000 - x)
    } else {
        spec_milli_sin(90_000 + x)
    }
}

/// A coarse fixed-point sine: argument in millidegrees, result in
/// milli-units of [-1000, 1000]; exact at multiples of 90 degrees.
pub fn milli_sin(x: i64) -> (r: i64)
    requires
        -180_000 <= x <= 180_000,
    ensures
        r == spec_milli_sin(x as int),
        -1000 <= r <= 1000,
        x == 0 ==> r == 0,
        x == 90_000 ==> r == 1000,
        x == -90_000 ==> r == -1000,
        x == 180_000 ==> r == 0,
        x == -180_000 ==> r == 0,
        x >= 0 ==> r >= 0,
        x <= 0 ==> r <= 0,
{
    let ax: u64 = if x >= 0 {
        x as u64
    } else {
        (-x) as u64
    };
    proof {
        assert(ax * (180_000 - ax) <= 8_100_000_000) by (nonlinear_arith)
            requires
                ax <= 180_000,
        ;
    }
    let p: u64 = ax * (180_000 - ax) / 1_000_000;
    proof {
        vstd::arithmetic::div_mod::lemma_multiply_divide_le(
            ax * (180_000 - ax),
            1_000_000,
            8100,
        );
    }
    let s: u64 = 4000 * p / (40_500 - p);
    proof {
        vstd::arithmetic::div_mod::lemma_multiply_divide_le(
            4000 * p,
            (40_500 - p) as int,
            1000,
        );
        assert(4000 * p <= (40_500 - p) * 1000) by (nonlinear_arith)
            requires
                p <= 8100,
        ;
        if ax == 0 || ax == 180_000 {
            assert(ax * (180_000 - ax) == 0) by (nonlinear_arith)
                requires
                    ax == 0 || ax == 180_000,
            ;
            vstd::arithmetic::div_mod::lemma_div_of0(1_000_000);
            assert(p == 0);
            vstd::arithmetic::div_mod::lemma_div_of0(40_500);
            assert(s == 0);
        }
        if ax == 90_000 {
            assert(ax * (180_000 - ax) == 8_100_000_000) by (nonlinear_arith)
                requires
                    ax == 90_000,
            ;
            vstd::arithmetic::div_mod::lemma_div_by_multiple(8100, 1_000_000);
            assert(p == 8100);
            vstd::arithmetic::div_mod::lemma_div_by_multiple(1000, 32_400);
            assert(s == 1000);
        }
    }
    if x >= 0 {
        s as i64
    } else {
        -(s as i64)
    }
}

/// A coarse fixed-point cosine on the same scale as `milli_sin`.
pub fn milli_cos(x: i64) -> (r: i64)
    requires
        -180_000 <= x <= 180_000,
    ensures
        r == spec_milli_cos(x as int),
        -1000 <= r <= 1000,
        x == 0 ==> r == 1000,
        x == 90_000 ==> r == 0,
        x == -90_000 ==> r == 0,
        x == 180_000 ==> r == -1000,
        x == -180_000 ==> r == -1000,
{
    if x >= 0 {
        milli_sin(90_000 - x)
    } else {
        milli_sin(90_000 + x)
    }
}

} // verus!
