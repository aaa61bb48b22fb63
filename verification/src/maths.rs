use vstd::prelude::*;

verus! {

/// Fixed-point scale: the number of coordinate sub-units in one world unit.
pub const SCALE: i64 = 1000;

/// Largest magnitude a stored coordinate may take (in sub-units).
pub const COORD_LIMIT: i64 = 200_000_000;

/// Largest magnitude a stored velocity component may take (in sub-units).
pub const VEL_LIMIT: i64 = 1_000_000;

/// Largest magnitude a pheromone strength may take (in sub-units).
pub const STRENGTH_LIMIT: i64 = 1_000_000_000_000;

/// Squared distance between two points.
pub open spec fn dist_sq(ax: int, ay: int, bx: int, by: int) -> int {
    (bx - ax) * (bx - ax) + (by - ay) * (by - ay)
}

/// The floor of the square root of `n` (0 for negative `n`).
pub open spec fn sqrt_floor(n: int) -> int
    decreases n,
{
    if n <= 0 {
        0
    } else {
        let r = sqrt_floor(n - 1);
        if (r + 1) * (r + 1) <= n {
            r + 1
        } else {
            r
        }
    }
}

/// `sqrt_floor(n)` is indeed the floor of the square root.
pub proof fn lemma_sqrt_floor(n: int)
    requires
        n >= 0,
    ensures
        sqrt_floor(n) >= 0,
        sqrt_floor(n) * sqrt_floor(n) <= n,
        n < (sqrt_floor(n) + 1) * (sqrt_floor(n) + 1),
    decreases n,
{
    if n > 0 {
        lemma_sqrt_floor(n - 1);
        let r = sqrt_floor(n - 1);
        assert(r * r <= n - 1);
        if (r + 1) * (r + 1) <= n {
            assert(n < (r + 2) * (r + 2)) by (nonlinear_arith)
                requires
                    n - 1 < (r + 1) * (r + 1),
                    r >= 0,
            ;
        }
    }
}

/// Any `r` with `r * r <= n < (r + 1) * (r + 1)` equals `sqrt_floor(n)`.
pub proof fn lemma_sqrt_floor_unique(n: int, r: int)
    requires
        n >= 0,
        r >= 0,
        r * r <= n,
        n < (r + 1) * (r + 1),
    ensures
        r == sqrt_floor(n),
{
    lemma_sqrt_floor(n);
    let s = sqrt_floor(n);
    assert(r == s) by (nonlinear_arith)
        requires
            r >= 0,
            s >= 0,
            r * r <= n,
            n < (r + 1) * (r + 1),
            s * s <= n,
            n < (s + 1) * (s + 1),
    ;
}

/// Floor square root of a `u64`.
pub fn isqrt64(n: u64) -> (r: u64)
    ensures
        r == sqrt_floor(n as int),
{
    let mut lo: u64 = 0;
    let mut hi: u64 = 4294967296;
    assert((n as int) < (hi as int) * (hi as int)) by (nonlinear_arith)
        requires
            n <= u64::MAX,
            hi == 4294967296u64,
    ;
    while lo + 1 < hi
        invariant
            lo < hi,
            hi <= 4294967296,
            (lo as int) * (lo as int) <= n as int,
            (n as int) < (hi as int) * (hi as int),
        decreases hi - lo,
    {
        let mid: u64 = lo + (hi - lo) / 2;
        proof {
            assert((mid as int) * (mid as int) < 0x1_0000_0000_0000_0000) by (nonlinear_arith)
                requires
                    0 <= mid < 4294967296,
            ;
        }
        if (mid as u128) * (mid as u128) <= n as u128 {
            lo = mid;
        } else {
            hi = mid;
        }
    }
    proof {
        lemma_sqrt_floor_unique(n as int, lo as int);
    }
    lo
}

/// Squared distance from one point to another, as the systems compare it
/// against squared radii.
pub fn target_distance_sq(pos_x: i64, pos_y: i64, target_x: i64, target_y: i64) -> (r: i64)
    requires
        -COORD_LIMIT <= pos_x <= COORD_LIMIT,
        -COORD_LIMIT <= pos_y <= COORD_LIMIT,
        -COORD_LIMIT <= target_x <= COORD_LIMIT,
        -COORD_LIMIT <= target_y <= COORD_LIMIT,
    ensures
        r == dist_sq(pos_x as int, pos_y as int, target_x as int, target_y as int),
        0 <= r <= 320_000_000_000_000_000,
{
    let dx = target_x - pos_x;
    let dy = target_y - pos_y;
    proof {
        assert(dx * dx <= 160_000_000_000_000_000 && dx * dx >= 0) by (nonlinear_arith)
            requires
                -400_000_000 <= dx <= 400_000_000,
        ;
        assert(dy * dy <= 160_000_000_000_000_000 && dy * dy >= 0) by (nonlinear_arith)
            requires
                -400_000_000 <= dy <= 400_000_000,
        ;
    }
    dx * dx + dy * dy
}

/// Absolute value of a bounded `i64`.
fn abs64(v: i64) -> (r: i64)
    requires
        v > i64::MIN,
    ensures
        r == if v >= 0 { v as int } else { -(v as int) },
        r >= 0,
{
    if v < 0 {
        -v
    } else {
        v
    }
}

/// The normalized direction for `(dx, dy)`, scaled to `SCALE`, or `None` when
/// the vector is zero. Components are computed on magnitudes, so division
/// truncates toward zero on both sides of the axis.
pub open spec fn normalize_spec(dx: int, dy: int) -> Option<(int, int)> {
    let m = sqrt_floor(dx * dx + dy * dy);
    if m == 0 {
        None
    } else {
        Some(
            (
                if dx >= 0 {
                    (dx * SCALE) / m
                } else {
                    -((-dx * SCALE) / m)
                },
                if dy >= 0 {
                    (dy * SCALE) / m
                } else {
                    -((-dy * SCALE) / m)
                },
            ),
        )
    }
}

/// A normalized component never exceeds `SCALE` in magnitude, and at least
/// one of the two is nonzero.
pub proof fn lemma_normalize_bounds(dx: int, dy: int)
    requires
        -COORD_LIMIT * 2 <= dx <= COORD_LIMIT * 2,
        -COORD_LIMIT * 2 <= dy <= COORD_LIMIT * 2,
        normalize_spec(dx, dy) is Some,
    ensures
        -SCALE <= normalize_spec(dx, dy)->Some_0.0 <= SCALE,
        -SCALE <= normalize_spec(dx, dy)->Some_0.1 <= SCALE,
        normalize_spec(dx, dy)->Some_0.0 != 0 || normalize_spec(dx, dy)->Some_0.1 != 0,
{
    let ax = if dx >= 0 { dx } else { -dx };
    let ay = if dy >= 0 { dy } else { -dy };
    let n = dx * dx + dy * dy;
    assert(n == ax * ax + ay * ay) by (nonlinear_arith)
        requires
            ax == if dx >= 0 { dx } else { -dx },
            ay == if dy >= 0 { dy } else { -dy },
            n == dx * dx + dy * dy,
    ;
    assert(n >= 0) by (nonlinear_arith)
        requires
            n == ax * ax + ay * ay,
            ax >= 0,
            ay >= 0,
    ;
    lemma_sqrt_floor(n);
    let m = sqrt_floor(n);
    assert(m > 0);
    // each magnitude is at most m: ax * ax <= n < (m + 1)^2 implies ax <= m
    assert(ax <= m && ay <= m) by (nonlinear_arith)
        requires
            ax >= 0,
            ay >= 0,
            m >= 0,
            ax * ax <= n,
            ay * ay <= n,
            n < (m + 1) * (m + 1),
            n == ax * ax + ay * ay,
    ;
    assert((ax * SCALE) / m <= SCALE && (ay * SCALE) / m <= SCALE) by (nonlinear_arith)
        requires
            0 <= ax <= m,
            0 <= ay <= m,
            m > 0,
            SCALE == 1000,
    ;
    assert((ax * SCALE) / m >= 0 && (ay * SCALE) / m >= 0) by (nonlinear_arith)
        requires
            ax >= 0,
            ay >= 0,
            m > 0,
            SCALE == 1000,
    ;
    // the larger magnitude keeps a nonzero normalized component:
    // 2 * mx * mx >= n and m * m <= n give m < 2 * mx, hence mx * SCALE / m > 0
    let mx = if ax >= ay { ax } else { ay };
    assert(mx * SCALE >= m * 500 && m >= 1) by (nonlinear_arith)
        requires
            mx == if ax >= ay { ax } else { ay },
            ax >= 0,
            ay >= 0,
            m >= 1,
            m * m <= n,
            n == ax * ax + ay * ay,
            SCALE == 1000,
    ;
    assert((mx * SCALE) / m >= 1) by (nonlinear_arith)
        requires
            mx * SCALE >= m * 500,
            m >= 1,
            mx >= 0,
            SCALE == 1000,
    ;
}

/// Normalize a direction vector to length `SCALE` (in fixed-point units),
/// or report `None` for the zero vector, which has no direction.
pub fn normalize_vector(dx: i64, dy: i64) -> (r: Option<(i64, i64)>)
    requires
        -COORD_LIMIT * 2 <= dx <= COORD_LIMIT * 2,
        -COORD_LIMIT * 2 <= dy <= COORD_LIMIT * 2,
    ensures
        r is Some <==> normalize_spec(dx as int, dy as int) is Some,
        r is Some ==> {
            let (nx, ny) = normalize_spec(dx as int, dy as int)->Some_0;
            r->Some_0.0 == nx && r->Some_0.1 == ny && -SCALE <= nx <= SCALE && -SCALE <= ny
                <= SCALE && (nx != 0 || ny != 0)
        },
        r is None <==> dx == 0 && dy == 0,
{
    let ax = abs64(dx);
    let ay = abs64(dy);
    proof {
        assert(ax * ax + ay * ay == dx * dx + dy * dy && ax * ax + ay * ay
            <= 320_000_000_000_000_000) by (nonlinear_arith)
            requires
                ax == if dx >= 0 { dx as int } else { -(dx as int) },
                ay == if dy >= 0 { dy as int } else { -(dy as int) },
                -400_000_000 <= dx <= 400_000_000,
                -400_000_000 <= dy <= 400_000_000,
        ;
    }
    let n: u64 = (ax * ax + ay * ay) as u64;
    let m = isqrt64(n);
    if m == 0 {
        proof {
            lemma_sqrt_floor(n as int);
            assert(ax == 0 && ay == 0) by (nonlinear_arith)
                requires
                    ax >= 0,
                    ay >= 0,
                    ax * ax + ay * ay < 1,
            ;
        }
        None
    } else {
        proof {
            lemma_sqrt_floor(n as int);
            assert(ax <= m && ay <= m) by (nonlinear_arith)
                requires
                    ax >= 0,
                    ay >= 0,
                    m >= 0,
                    ax * ax <= n,
                    ay * ay <= n,
                    (n as int) < (m + 1) * (m + 1),
                    n == ax * ax + ay * ay,
            ;
            assert(ax * SCALE <= 400_000_000_000 && ay * SCALE <= 400_000_000_000)
                by (nonlinear_arith)
                requires
                    0 <= ax <= 400_000_000,
                    0 <= ay <= 400_000_000,
                    SCALE == 1000,
            ;
            assert(0 <= (ax * SCALE) / (m as int) <= SCALE && 0 <= (ay * SCALE) / (m as int)
                <= SCALE) by (nonlinear_arith)
                requires
                    0 <= ax <= m,
                    0 <= ay <= m,
                    m > 0,
                    SCALE == 1000,
            ;
            lemma_normalize_bounds(dx as int, dy as int);
            assert(m * m <= n ==> m <= 600_000_000) by (nonlinear_arith)
                requires
                    n <= 320_000_000_000_000_000u64,
                    m >= 0,
            ;
        }
        let nx_mag: i64 = (ax * SCALE) / (m as i64);
        let ny_mag: i64 = (ay * SCALE) / (m as i64);
        let nx: i64 = if dx >= 0 {
            nx_mag
        } else {
            -nx_mag
        };
        let ny: i64 = if dy >= 0 {
            ny_mag
        } else {
            -ny_mag
        };
        Some((nx, ny))
    }
}

/// How strongly a pheromone of the given strength attracts from the given
/// squared distance: `strength / (sqrt(distance_sq) + 1)`, in fixed point.
pub open spec fn attraction_spec(distance_sq: int, strength: int) -> int {
    let d = sqrt_floor(distance_sq) + SCALE;
    if strength >= 0 {
        (strength * SCALE) / d
    } else {
        -((-strength * SCALE) / d)
    }
}

/// Attraction score of a pheromone deposit: its strength divided by one more
/// than the distance to it.
pub fn calculate_attraction_strength(distance_sq: i64, pheromone_strength: i64) -> (r: i64)
    requires
        0 <= distance_sq <= 320_000_000_000_000_000,
        -STRENGTH_LIMIT <= pheromone_strength <= STRENGTH_LIMIT,
    ensures
        r == attraction_spec(distance_sq as int, pheromone_strength as int),
{
    let m = isqrt64(distance_sq as u64);
    proof {
        lemma_sqrt_floor(distance_sq as int);
        assert(sqrt_floor(distance_sq as int) <= 600_000_000) by (nonlinear_arith)
            requires
                sqrt_floor(distance_sq as int) * sqrt_floor(distance_sq as int) <= distance_sq,
                distance_sq <= 320_000_000_000_000_000,
                sqrt_floor(distance_sq as int) >= 0,
        ;
    }
    let d: i64 = (m as i64) + SCALE;
    let s_mag: i64 = abs64(pheromone_strength);
    proof {
        assert(s_mag * SCALE <= 1_000_000_000_000_000 && s_mag * SCALE >= 0) by (nonlinear_arith)
            requires
                0 <= s_mag <= 1_000_000_000_000,
                SCALE == 1000,
        ;
        assert(0 <= (s_mag * SCALE) / (d as int) <= s_mag * SCALE) by (nonlinear_arith)
            requires
                s_mag * SCALE >= 0,
                d >= 1000,
        ;
    }
    let mag: i64 = (s_mag * SCALE) / d;
    if pheromone_strength >= 0 {
        mag
    } else {
        -mag
    }
}

} // verus!
