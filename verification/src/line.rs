//! Digital-line rasterization over sub-pixel coordinates.
//!
//! Positions and distances are integers in thousandths of a pixel
//! ("milli-pixels"), the fixed-point form of the sprite's continuous
//! position.  A ray is walked in unit-pixel steps: the step count is the
//! floor of the Euclidean distance in pixels, and each step offsets the
//! start by `distance x unit direction`, truncated to a pixel
//! coordinate.

use vstd::prelude::*;
use vstd::arithmetic::div_mod::{
    lemma_div_is_ordered, lemma_div_multiples_vanish, lemma_div_nonincreasing,
};
use vstd::arithmetic::mul::lemma_mul_inequality;

verus! {

/// `r` is the integer square root of `n`, rounded down.
pub open spec fn is_sqrt(r: nat, n: nat) -> bool {
    r * r <= n && n < (r + 1) * (r + 1)
}

/// The integer square root of `n`, rounded down.
pub open spec fn sqrt_floor(n: nat) -> nat {
    choose|r: nat| #[trigger] is_sqrt(r, n)
}

/// Every natural number has an integer square root.
pub proof fn lemma_sqrt_exists(n: nat)
    ensures
        exists|r: nat| #[trigger] is_sqrt(r, n),
    decreases n,
{
    if n == 0 {
        assert(0 * 0 <= 0 && 0 < (0 + 1) * (0 + 1)) by (nonlinear_arith);
        assert(is_sqrt(0, 0));
    } else {
        lemma_sqrt_exists((n - 1) as nat);
        let r = choose|r: nat| #[trigger] is_sqrt(r, (n - 1) as nat);
        if n < (r + 1) * (r + 1) {
            assert(is_sqrt(r, n));
        } else {
            assert(n == (r + 1) * (r + 1));
            assert((r + 1) * (r + 1) < (r + 2) * (r + 2)) by (nonlinear_arith);
            assert(is_sqrt(r + 1, n));
        }
    }
}

/// The integer square root is unique.
pub proof fn lemma_sqrt_unique(a: nat, b: nat, n: nat)
    requires
        is_sqrt(a, n),
        is_sqrt(b, n),
    ensures
        a == b,
{
    if a < b {
        assert((a + 1) * (a + 1) <= b * b) by (nonlinear_arith)
            requires
                a + 1 <= b,
        ;
        assert(false);
    }
    if b < a {
        assert((b + 1) * (b + 1) <= a * a) by (nonlinear_arith)
            requires
                b + 1 <= a,
        ;
        assert(false);
    }
}

/// A coordinate's magnitude never exceeds the vector's norm.
pub proof fn lemma_component_le_norm(dx: int, dy: int)
    ensures
        -(sqrt_floor((dx * dx + dy * dy) as nat) as int) <= dx <= sqrt_floor(
            (dx * dx + dy * dy) as nat,
        ) as int,
{
    assert(dx * dx >= 0 && dy * dy >= 0) by (nonlinear_arith);
    let n = (dx * dx + dy * dy) as nat;
    lemma_sqrt_exists(n);
    let r = sqrt_floor(n);
    assert(is_sqrt(r, n));
    assert(dx * dx < (r + 1) * (r + 1));
    assert(-(r as int) <= dx <= r as int) by (nonlinear_arith)
        requires
            dx * dx < (r + 1) * (r + 1),
            r >= 0,
    ;
}

/// Computes the integer square root of `n`, rounded down.
pub fn isqrt(n: u64) -> (r: u64)
    requires
        n < 0x4000000000000000,
    ensures
        r as nat == sqrt_floor(n as nat),
        is_sqrt(r as nat, n as nat),
{
    let mut lo: u64 = 0;
    let mut hi: u64 = 0x80000000;
    assert(0x80000000 * 0x80000000 == 0x4000000000000000int) by (nonlinear_arith);
    while hi - lo > 1
        invariant
            lo < hi <= 0x80000000,
            lo * lo <= n as nat,
            (n as nat) < hi * hi,
        decreases hi - lo,
    {
        let mid = lo + (hi - lo) / 2;
        proof {
            assert(mid as int * mid <= 0x80000000 * 0x80000000) by (nonlinear_arith)
                requires
                    0 <= mid <= 0x80000000,
            ;
        }
        if mid * mid <= n {
            lo = mid;
        } else {
            hi = mid;
        }
    }
    proof {
        assert(hi == lo + 1);
        assert(is_sqrt(lo as nat, n as nat));
        lemma_sqrt_exists(n as nat);
        lemma_sqrt_unique(lo as nat, sqrt_floor(n as nat), n as nat);
    }
    lo
}

/// Truncation of a milli-pixel position to a pixel coordinate: toward
/// zero, clamped to the `u16` range (the behaviour of a float-to-`u16`
/// cast).
pub open spec fn to_px(m: int) -> u16 {
    if m <= 0 {
        0u16
    } else if m / 1000 > 65535 {
        65535u16
    } else {
        (m / 1000) as u16
    }
}

/// Truncates a milli-pixel position to a pixel coordinate.
pub fn px_of_mpx(m: i64) -> (r: u16)
    ensures
        r == to_px(m as int),
{
    if m <= 0 {
        0
    } else {
        let q = (m as u64) / 1000;
        if q > 65535 {
            65535
        } else {
            q as u16
        }
    }
}

/// Travel of `t / norm` of the vector component `d`: the offset after
/// going distance `t` along a direction whose norm is `norm`, truncated
/// toward zero.
pub open spec fn step_toward(d: int, norm: nat, t: nat) -> int
    recommends
        norm > 0,
{
    if d >= 0 {
        (t * d) / (norm as int)
    } else {
        -((t * -d) / (norm as int))
    }
}

/// The offset stays within the distance travelled when the component is
/// within the norm.
pub proof fn lemma_step_toward_bound(d: int, norm: nat, t: nat)
    requires
        norm > 0,
        -(norm as int) <= d <= norm as int,
    ensures
        -(t as int) <= step_toward(d, norm, t) <= t as int,
{
    let ad = if d >= 0 { d } else { -d };
    lemma_mul_inequality(ad, norm as int, t as int);
    assert(t * ad <= t * norm);
    lemma_div_is_ordered(t * ad, t * (norm as int), norm as int);
    lemma_div_multiples_vanish(t as int, norm as int);
    assert((t * ad) >= 0) by (nonlinear_arith)
        requires
            t >= 0,
            ad >= 0,
    ;
    assert((t * ad) / (norm as int) >= 0);
    assert((t * ad) / (norm as int) <= t as int);
}

/// Computes `step_toward`: the signed offset after travelling `t` along
/// the component `d` of a direction with norm `norm`.
pub fn step_offset(d: i64, norm: u64, t: i64) -> (r: i64)
    requires
        norm > 0,
        0 <= t <= 0x8000000,
        -0x40000000 <= d <= 0x40000000,
    ensures
        r == step_toward(d as int, norm as nat, t as nat),
{
    let ad: u64 = if d >= 0 {
        d as u64
    } else {
        (-d) as u64
    };
    proof {
        assert(t as u64 * ad <= 0x200000000000000) by (nonlinear_arith)
            requires
                t as u64 <= 0x8000000,
                ad <= 0x40000000,
        ;
    }
    let num: u64 = (t as u64) * ad;
    let off: u64 = num / norm;
    proof {
        lemma_div_nonincreasing(num as int, norm as int);
    }
    if d >= 0 {
        off as i64
    } else {
        -(off as i64)
    }
}

/// The rasterized points of a line: `count` unit steps from the start,
/// the i-th offset by `i x (d / norm)` in milli-pixels, truncated to
/// pixel coordinates.
pub open spec fn line_points(sx: int, sy: int, dx: int, dy: int, norm: nat, count: nat) -> Seq<
    (u16, u16),
> {
    Seq::new(
        count,
        |i: int|
            (
                to_px(sx + step_toward(dx, norm, (1000 * i) as nat)),
                to_px(sy + step_toward(dy, norm, (1000 * i) as nat)),
            ),
    )
}

/// Rasterizes the line from start to end (milli-pixel coordinates): one
/// point per whole pixel of Euclidean distance, each the truncation of
/// `start + step x unit direction`, capped at 65535 points.
pub fn coordinates_on_line(start_x: i64, start_y: i64, end_x: i64, end_y: i64) -> (r: Vec<
    (u16, u16),
>)
    requires
        -0x10000000 <= start_x <= 0x10000000,
        -0x10000000 <= start_y <= 0x10000000,
        -0x10000000 <= end_x <= 0x10000000,
        -0x10000000 <= end_y <= 0x10000000,
    ensures
        ({
            let dx = end_x - start_x;
            let dy = end_y - start_y;
            let norm = sqrt_floor((dx * dx + dy * dy) as nat);
            let count: nat = if norm / 1000 > 65535 {
                65535
            } else {
                norm / 1000
            };
            r@ == line_points(start_x as int, start_y as int, dx as int, dy as int, norm, count)
        }),
{
    let dx = end_x - start_x;
    let dy = end_y - start_y;
    let adx: u64 = if dx >= 0 {
        dx as u64
    } else {
        (-dx) as u64
    };
    let ady: u64 = if dy >= 0 {
        dy as u64
    } else {
        (-dy) as u64
    };
    proof {
        assert(adx * adx + ady * ady < 0x4000000000000000) by (nonlinear_arith)
            requires
                adx <= 0x20000000,
                ady <= 0x20000000,
        ;
        assert(adx as int * adx + ady as int * ady == dx as int * dx + dy as int * dy)
            by (nonlinear_arith)
            requires
                adx == (if dx >= 0 { dx as int } else { -(dx as int) }) && ady == (if dy >= 0 {
                    dy as int
                } else {
                    -(dy as int)
                }),
        ;
    }
    let norm = isqrt(adx * adx + ady * ady);
    let steps64: u64 = norm / 1000;
    let steps: u64 = if steps64 > 65535 {
        65535
    } else {
        steps64
    };
    let ghost gnorm: nat = norm as nat;
    let ghost count: nat = steps as nat;
    let mut r: Vec<(u16, u16)> = Vec::new();
    let mut i: u64 = 0;
    while i < steps
        invariant
            i <= steps,
            steps <= 65535,
            norm >= 1 || steps == 0,
            norm as nat == gnorm,
            gnorm == sqrt_floor((dx as int * dx + dy as int * dy) as nat),
            -0x20000000 <= dx <= 0x20000000,
            -0x20000000 <= dy <= 0x20000000,
            -0x10000000 <= start_x <= 0x10000000,
            -0x10000000 <= start_y <= 0x10000000,
            r@.len() == i,
            forall|k: int|
                0 <= k < i ==> r@[k] == (
                    to_px(start_x + step_toward(dx as int, gnorm, (1000 * k) as nat)),
                    to_px(start_y + step_toward(dy as int, gnorm, (1000 * k) as nat)),
                ),
        decreases steps - i,
    {
        let t: i64 = (i as i64) * 1000;
        proof {
            lemma_component_le_norm(dx as int, dy as int);
            lemma_component_le_norm(dy as int, dx as int);
            assert(dy as int * dy + dx as int * dx == dx as int * dx + dy as int * dy);
            lemma_step_toward_bound(dx as int, gnorm, t as nat);
            lemma_step_toward_bound(dy as int, gnorm, t as nat);
        }
        let ox = step_offset(dx, norm, t);
        let oy = step_offset(dy, norm, t);
        let px = px_of_mpx(start_x + ox);
        let py = px_of_mpx(start_y + oy);
        r.push((px, py));
        i += 1;
    }
    proof {
        assert(r@ =~= line_points(
            start_x as int,
            start_y as int,
            dx as int,
            dy as int,
            gnorm,
            count,
        ));
    }
    r
}

/// The points of the ray from `(x, y) + skip x unit(dir)` to
/// `(x, y) + length x unit(dir)`; empty for a zero direction.
pub open spec fn ray_points(x: int, y: int, dir_x: int, dir_y: int, length: nat, skip: nat) -> Seq<
    (u16, u16),
> {
    let nd = sqrt_floor((dir_x * dir_x + dir_y * dir_y) as nat);
    if nd == 0 {
        Seq::<(u16, u16)>::empty()
    } else {
        let sx = x + step_toward(dir_x, nd, skip);
        let sy = y + step_toward(dir_y, nd, skip);
        let ex = x + step_toward(dir_x, nd, length);
        let ey = y + step_toward(dir_y, nd, length);
        let dx = ex - sx;
        let dy = ey - sy;
        let norm = sqrt_floor((dx * dx + dy * dy) as nat);
        let count: nat = if norm / 1000 > 65535 {
            65535
        } else {
            norm / 1000
        };
        line_points(sx, sy, dx, dy, norm, count)
    }
}

/// Rasterizes the lookahead ray: from `center + skip x unit(dir)` to
/// `center + length x unit(dir)`, all in milli-pixels.  A zero direction
/// yields no points.
pub fn coordinates_on_line_with_dir_and_skip_offset(
    x: i64,
    y: i64,
    dir_x: i64,
    dir_y: i64,
    length: i64,
    skip_offset: i64,
) -> (r: Vec<(u16, u16)>)
    requires
        -0x8000000 <= x <= 0x8000000,
        -0x8000000 <= y <= 0x8000000,
        -0x8000000 <= dir_x <= 0x8000000,
        -0x8000000 <= dir_y <= 0x8000000,
        0 <= skip_offset <= 0x8000000,
        0 <= length <= 0x8000000,
    ensures
        r@ == ray_points(
            x as int,
            y as int,
            dir_x as int,
            dir_y as int,
            length as nat,
            skip_offset as nat,
        ),
{
    let adx: u64 = if dir_x >= 0 {
        dir_x as u64
    } else {
        (-dir_x) as u64
    };
    let ady: u64 = if dir_y >= 0 {
        dir_y as u64
    } else {
        (-dir_y) as u64
    };
    proof {
        assert(adx * adx + ady * ady < 0x4000000000000000) by (nonlinear_arith)
            requires
                adx <= 0x8000000,
                ady <= 0x8000000,
        ;
        assert(adx as int * adx + ady as int * ady == dir_x as int * dir_x + dir_y as int * dir_y)
            by (nonlinear_arith)
            requires
                adx == (if dir_x >= 0 { dir_x as int } else { -(dir_x as int) }) && ady == (if dir_y
                    >= 0 {
                    dir_y as int
                } else {
                    -(dir_y as int)
                }),
        ;
    }
    let nd = isqrt(adx * adx + ady * ady);
    if nd == 0 {
        let r: Vec<(u16, u16)> = Vec::new();
        proof {
            assert(r@ =~= Seq::<(u16, u16)>::empty());
        }
        return r;
    }
    proof {
        lemma_component_le_norm(dir_x as int, dir_y as int);
        lemma_component_le_norm(dir_y as int, dir_x as int);
        assert(dir_y * dir_y + dir_x * dir_x == dir_x * dir_x + dir_y * dir_y) by (nonlinear_arith);
        lemma_step_toward_bound(dir_x as int, nd as nat, skip_offset as nat);
        lemma_step_toward_bound(dir_y as int, nd as nat, skip_offset as nat);
        lemma_step_toward_bound(dir_x as int, nd as nat, length as nat);
        lemma_step_toward_bound(dir_y as int, nd as nat, length as nat);
    }
    let sx = x + step_offset(dir_x, nd, skip_offset);
    let sy = y + step_offset(dir_y, nd, skip_offset);
    let ex = x + step_offset(dir_x, nd, length);
    let ey = y + step_offset(dir_y, nd, length);
    coordinates_on_line(sx, sy, ex, ey)
}

} // verus!
