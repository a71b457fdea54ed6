//! Fixed-point arithmetic shared by the whole simulation.
use vstd::prelude::*;

verus! {

/// One arena unit, one second and the ratio 1 are all written as this many thousandths.
pub const UNIT: i64 = 1000;

/// Largest magnitude of a coordinate.
pub const COORD_MAX: i64 = 1_000_000_000;

/// Largest extent of the arena, and largest magnitude of the coordinates of an obstacle's
/// corners. It leaves room below `COORD_MAX` for an agent pushed out of an obstacle.
pub const FIELD_MAX: i64 = 900_000_000;

/// Largest magnitude of the coordinates of an agent. It leaves room below `COORD_MAX`
/// for the muzzle, where the agent's projectiles start.
pub const AGENT_MAX: i64 = 950_000_000;

/// Largest speed that an agent may be given.
pub const SPEED_MAX: i64 = 10_000_000;

/// Largest magnitude of a velocity component: twice the largest speed, since a steering
/// rule may ask for somewhat more than an agent's own speed.
pub const VELOCITY_MAX: i64 = 20_000_000;

/// Largest radius of an agent, a projectile or a pickup.
pub const SIZE_MAX: i64 = 1_000_000;

/// Largest instant or duration, in milliseconds.
pub const TIME_MAX: i64 = 1_000_000_000_000_000;

/// Largest time step of one tick, in milliseconds.
pub const DT_MAX: i64 = 10_000;

/// The magnitude of `a`.
pub open spec fn abs(a: int) -> int {
    if a >= 0 {
        a
    } else {
        -a
    }
}

/// The smaller of `a` and `b`.
pub open spec fn min(a: int, b: int) -> int {
    if a <= b {
        a
    } else {
        b
    }
}

/// The larger of `a` and `b`.
pub open spec fn max(a: int, b: int) -> int {
    if a >= b {
        a
    } else {
        b
    }
}

/// `v` forced into `lo..=hi`; the lower bound wins when the interval is empty.
pub open spec fn clamp(v: int, lo: int, hi: int) -> int {
    if v < lo {
        lo
    } else if v > hi {
        hi
    } else {
        v
    }
}

/// Division that rounds toward zero, for a positive divisor.
pub open spec fn trunc_div(a: int, b: int) -> int {
    if a >= 0 {
        a / b
    } else {
        -((-a) / b)
    }
}

/// `v * num / den`, rounded toward zero.
pub open spec fn scaled(v: int, num: int, den: int) -> int {
    trunc_div(v * num, den)
}

/// `v` held inside the range of `i32`.
pub open spec fn sat_i32(v: int) -> int {
    clamp(v, i32::MIN as int, i32::MAX as int)
}

/// `r` is the largest natural number whose square does not exceed `n`.
pub open spec fn is_root(r: nat, n: nat) -> bool {
    r * r <= n < (r + 1) * (r + 1)
}

/// The square root of `n`, rounded down.
pub open spec fn isqrt(n: nat) -> nat {
    choose|r: nat| is_root(r, n)
}

/// Squared length of the vector `(dx, dy)`.
pub open spec fn norm_sq(dx: int, dy: int) -> nat {
    (dx * dx + dy * dy) as nat
}

/// Length of the vector `(dx, dy)`, rounded down.
pub open spec fn norm(dx: int, dy: int) -> nat {
    isqrt(norm_sq(dx, dy))
}

/// Every natural number has a rounded-down square root.
proof fn lemma_root_exists(n: nat) -> (r: nat)
    ensures
        is_root(r, n),
    decreases n,
{
    if n == 0 {
        assert(0nat * 0nat <= 0 < (0nat + 1) * (0nat + 1)) by (nonlinear_arith);
        0
    } else {
        let below = lemma_root_exists((n - 1) as nat);
        let b = below as int;
        let up = (b + 1) * (b + 1);
        assert(b * b <= n - 1 < up);
        if up <= n {
            assert((b + 2) * (b + 2) > up) by (nonlinear_arith)
                requires
                    up == (b + 1) * (b + 1),
                    b >= 0,
            ;
            assert(((b + 1) + 1) * ((b + 1) + 1) == (b + 2) * (b + 2));
            assert(is_root((below + 1) as nat, n));
            below + 1
        } else {
            assert(is_root(below, n));
            below
        }
    }
}

/// The rounded-down square root of `n` is a root of `n`.
pub proof fn lemma_isqrt_bounds(n: nat)
    ensures
        isqrt(n) * isqrt(n) <= n < (isqrt(n) + 1) * (isqrt(n) + 1),
{
    let r = lemma_root_exists(n);
    assert(is_root(isqrt(n), n));
}

/// No number has two rounded-down square roots.
pub proof fn lemma_isqrt_unique(n: nat, r: nat)
    requires
        r * r <= n < (r + 1) * (r + 1),
    ensures
        r == isqrt(n),
{
    lemma_isqrt_bounds(n);
    let s = isqrt(n);
    if r < s {
        assert((r + 1) * (r + 1) <= s * s) by (nonlinear_arith)
            requires
                r + 1 <= s,
        ;
    } else if s < r {
        assert((s + 1) * (s + 1) <= r * r) by (nonlinear_arith)
            requires
                s + 1 <= r,
        ;
    }
}

/// A root below `bound` for every argument below `bound` squared.
pub proof fn lemma_isqrt_below(n: nat, bound: nat)
    requires
        n < bound * bound,
    ensures
        isqrt(n) < bound,
{
    lemma_isqrt_bounds(n);
    let s = isqrt(n);
    if s >= bound {
        assert(bound * bound <= s * s) by (nonlinear_arith)
            requires
                bound <= s,
        ;
    }
}

/// A root of at least `bound` for every argument of at least `bound` squared.
pub proof fn lemma_isqrt_at_least(n: nat, bound: nat)
    requires
        n >= bound * bound,
    ensures
        isqrt(n) >= bound,
{
    lemma_isqrt_bounds(n);
    let s = isqrt(n);
    if s < bound {
        assert((s + 1) * (s + 1) <= bound * bound) by (nonlinear_arith)
            requires
                s + 1 <= bound,
        ;
    }
}

/// The length of a vector is at least the magnitude of each component.
pub proof fn lemma_norm_dominates(dx: int, dy: int)
    ensures
        norm(dx, dy) >= abs(dx),
        norm(dx, dy) >= abs(dy),
        norm(dx, dy) == 0 <==> (dx == 0 && dy == 0),
{
    let ax = abs(dx) as nat;
    let ay = abs(dy) as nat;
    assert(ax * ax == dx * dx) by (nonlinear_arith)
        requires
            ax == dx || ax == -dx,
    ;
    assert(ay * ay == dy * dy) by (nonlinear_arith)
        requires
            ay == dy || ay == -dy,
    ;
    assert(ax * ax >= 0 && ay * ay >= 0) by (nonlinear_arith);
    lemma_isqrt_at_least(norm_sq(dx, dy), ax);
    lemma_isqrt_at_least(norm_sq(dx, dy), ay);
    if dx == 0 && dy == 0 {
        assert(norm_sq(dx, dy) == 0);
        lemma_isqrt_below(0, 1);
    }
}

/// Scaling by a ratio of magnitude at most one never lengthens, and keeps the sign.
pub proof fn lemma_scaled_shrinks(v: int, num: int, den: int)
    requires
        den > 0,
        abs(num) <= den,
    ensures
        abs(scaled(v, num, den)) <= abs(v),
        v * num >= 0 ==> scaled(v, num, den) >= 0,
        v * num <= 0 ==> scaled(v, num, den) <= 0,
{
    let p = v * num;
    let a = abs(v);
    assert(abs(p) <= a * den) by (nonlinear_arith)
        requires
            p == v * num,
            a == abs(v),
            abs(num) <= den,
            den > 0,
    ;
    lemma_trunc_div_bound(p, den, a);
}

/// A quotient is bounded by `c` when the dividend is bounded by `c * b`.
pub proof fn lemma_trunc_div_bound(a: int, b: int, c: int)
    requires
        b > 0,
        c >= 0,
        abs(a) <= c * b,
    ensures
        abs(trunc_div(a, b)) <= c,
        a >= 0 ==> trunc_div(a, b) >= 0,
        a <= 0 ==> trunc_div(a, b) <= 0,
{
    let m = abs(a);
    assert(0 <= m / b <= c) by (nonlinear_arith)
        requires
            0 <= m <= c * b,
            b > 0,
    ;
}

/// Scaling a value of magnitude at most `den` by `num / den` stays within `num`.
pub proof fn lemma_scaled_within(v: int, num: int, den: int)
    requires
        den > 0,
        abs(v) <= den,
    ensures
        abs(scaled(v, num, den)) <= abs(num),
{
    let p = v * num;
    let a = abs(num);
    assert(abs(p) <= a * den) by (nonlinear_arith)
        requires
            p == v * num,
            a == abs(num),
            abs(v) <= den,
            den > 0,
    ;
    lemma_trunc_div_bound(p, den, a);
}

/// Computes `v * num / den` rounded toward zero, through a 128-bit product.
pub fn mul_div(v: i64, num: i64, den: i64) -> (r: i64)
    requires
        den > 0,
        i64::MIN <= scaled(v as int, num as int, den as int) <= i64::MAX,
    ensures
        r == scaled(v as int, num as int, den as int),
{
    assert(-0x4000_0000_0000_0000_0000_0000_0000_0000 <= v * num
        <= 0x4000_0000_0000_0000_0000_0000_0000_0000) by (nonlinear_arith)
        requires
            -0x8000_0000_0000_0000 <= v <= 0x8000_0000_0000_0000,
            -0x8000_0000_0000_0000 <= num <= 0x8000_0000_0000_0000,
    ;
    let wide: i128 = (v as i128) * (num as i128);
    let q: i128 = wide / (den as i128);
    q as i64
}

/// Computes the integer square root by bisection.
pub fn int_sqrt(n: u64) -> (r: u64)
    ensures
        r == isqrt(n as nat),
        r < 0x1_0000_0000,
{
    let mut lo: u64 = 0;
    let mut hi: u64 = 0x1_0000_0000;
    proof {
        assert(0x1_0000_0000u64 * 0x1_0000_0000u64 > n) by (nonlinear_arith)
            requires
                n <= 0xffff_ffff_ffff_ffff,
        ;
    }
    while hi - lo > 1
        invariant
            lo < hi <= 0x1_0000_0000,
            lo * lo <= n,
            hi * hi > n,
        decreases hi - lo,
    {
        let mid: u64 = lo + (hi - lo) / 2;
        assert(mid * mid <= 0xffff_ffff * 0xffff_ffff) by (nonlinear_arith)
            requires
                0 <= mid <= 0xffff_ffff,
        ;
        if mid * mid <= n {
            lo = mid;
        } else {
            hi = mid;
        }
    }
    proof {
        assert(hi == lo + 1);
        lemma_isqrt_unique(n as nat, lo as nat);
    }
    lo
}

/// Largest magnitude of the difference of two coordinates.
pub const OFFSET_MAX: i64 = 2_000_000_000;

/// Computes the length of the vector `(dx, dy)`, rounded down.
pub fn vector_length(dx: i64, dy: i64) -> (r: i64)
    requires
        abs(dx as int) <= OFFSET_MAX,
        abs(dy as int) <= OFFSET_MAX,
    ensures
        r == norm(dx as int, dy as int),
        0 <= r <= 3_000_000_000,
{
    let n = vector_length_sq(dx, dy);
    let r = int_sqrt(n);
    proof {
        assert(3_000_000_001nat * 3_000_000_001nat > 8_000_000_000_000_000_000) by (nonlinear_arith);
        lemma_isqrt_below(n as nat, 3_000_000_001);
    }
    r as i64
}

/// Computes the squared length of the vector `(dx, dy)`.
pub fn vector_length_sq(dx: i64, dy: i64) -> (n: u64)
    requires
        abs(dx as int) <= OFFSET_MAX,
        abs(dy as int) <= OFFSET_MAX,
    ensures
        n == norm_sq(dx as int, dy as int),
        n <= 8_000_000_000_000_000_000,
{
    assert(0 <= dx * dx <= 4_000_000_000_000_000_000) by (nonlinear_arith)
        requires
            -2_000_000_000 <= dx <= 2_000_000_000,
    ;
    assert(0 <= dy * dy <= 4_000_000_000_000_000_000) by (nonlinear_arith)
        requires
            -2_000_000_000 <= dy <= 2_000_000_000,
    ;
    let xx: i64 = dx * dx;
    let yy: i64 = dy * dy;
    (xx as u64) + (yy as u64)
}

/// Computes the length of the vector `(dx, dy)`, rounded up.
pub fn vector_length_up(dx: i64, dy: i64) -> (r: i64)
    requires
        abs(dx as int) <= OFFSET_MAX,
        abs(dy as int) <= OFFSET_MAX,
    ensures
        r == norm_up(dx as int, dy as int),
        0 <= r <= 3_000_000_001,
{
    let n = vector_length_sq(dx, dy);
    let r = int_sqrt(n);
    proof {
        assert(3_000_000_001nat * 3_000_000_001nat > 8_000_000_000_000_000_000) by (nonlinear_arith);
        lemma_isqrt_below(n as nat, 3_000_000_001);
    }
    assert(r * r <= 0xffff_ffff * 0xffff_ffff) by (nonlinear_arith)
        requires
            0 <= r <= 0xffff_ffff,
    ;
    if r * r == n {
        r as i64
    } else {
        (r + 1) as i64
    }
}

/// Against a whole number the rounded lengths compare as the true length does: the
/// length rounded up exceeds it exactly when the true length does, and the length
/// rounded down falls short of it exactly when the true length does.
pub proof fn lemma_rounded_lengths_compare(dx: int, dy: int, a: int)
    requires
        a >= 0,
    ensures
        norm_up(dx, dy) > a <==> dx * dx + dy * dy > a * a,
        norm(dx, dy) < a <==> dx * dx + dy * dy < a * a,
{
    let n = norm_sq(dx, dy);
    assert(dx * dx + dy * dy >= 0) by (nonlinear_arith);
    lemma_isqrt_bounds(n);
    let r = norm(dx, dy) as int;
    let root = isqrt(n);
    assert(r * r == root * root);
    assert((r + 1) * (r + 1) == (root + 1) * (root + 1));
    if r >= a {
        assert(r * r >= a * a) by (nonlinear_arith)
            requires
                r >= a,
                a >= 0,
        ;
    } else {
        assert((r + 1) * (r + 1) <= a * a) by (nonlinear_arith)
            requires
                r + 1 <= a,
                r >= 0,
        ;
    }
    if r > a {
        assert(r * r >= (a + 1) * (a + 1)) by (nonlinear_arith)
            requires
                r >= a + 1,
                a >= 0,
        ;
        assert((a + 1) * (a + 1) > a * a) by (nonlinear_arith)
            requires
                a >= 0,
        ;
    }
    if r < a && r * r != n {
        assert((r + 1) * (r + 1) <= a * a) by (nonlinear_arith)
            requires
                r + 1 <= a,
                r >= 0,
        ;
    }
}

/// Largest length that a vector may be brought to.
pub const LENGTH_MAX: i64 = 2_000_000_000;

/// The factor by which a vector is enlarged before its length is taken, so that the
/// length is at least a million and rounding it costs no more than a millionth: a
/// million for a vector within a thousand of the origin, a thousand for one within a
/// million, and one beyond.
pub open spec fn grain(dx: int, dy: int) -> int {
    if abs(dx) <= 1000 && abs(dy) <= 1000 {
        1_000_000
    } else if abs(dx) <= 1_000_000 && abs(dy) <= 1_000_000 {
        1000
    } else {
        1
    }
}

/// Length of the vector `(dx, dy)`, rounded up.
pub open spec fn norm_up(dx: int, dy: int) -> int {
    let r = norm(dx, dy) as int;
    if r * r == norm_sq(dx, dy) {
        r
    } else {
        r + 1
    }
}

/// The vector along `(dx, dy)`, which is not zero, of the given length: each component
/// is the share of the length that the component has of the vector's own length,
/// rounded toward zero. The own length is taken after the vector is enlarged by its
/// grain, and rounded up, so that the result is never longer than asked for.
pub open spec fn aligned(dx: int, dy: int, length: int) -> (int, int) {
    let g = grain(dx, dy);
    let d = norm_up(dx * g, dy * g);
    (scaled(dx * g, length, d), scaled(dy * g, length, d))
}

/// The length rounded up is positive for every vector but zero, at least the magnitude
/// of each component, and its square at least the squared length.
pub proof fn lemma_norm_up_covers(dx: int, dy: int)
    ensures
        norm_up(dx, dy) >= abs(dx),
        norm_up(dx, dy) >= abs(dy),
        norm_up(dx, dy) * norm_up(dx, dy) >= dx * dx + dy * dy,
        dx != 0 || dy != 0 ==> norm_up(dx, dy) > 0,
        dy == 0 ==> norm_up(dx, dy) == abs(dx),
        dx == 0 ==> norm_up(dx, dy) == abs(dy),
{
    lemma_norm_dominates(dx, dy);
    let n = norm_sq(dx, dy);
    lemma_isqrt_bounds(n);
    let r = norm(dx, dy) as int;
    assert(dx * dx + dy * dy >= 0) by (nonlinear_arith);
    assert(n == dx * dx + dy * dy);
    let root = isqrt(n);
    assert(r * r == root * root);
    assert((r + 1) * (r + 1) == (root + 1) * (root + 1));
    if dy == 0 {
        let a = abs(dx) as nat;
        assert(a * a == dx * dx + dy * dy) by (nonlinear_arith)
            requires
                a == dx || a == -dx,
                dy == 0,
        ;
        assert((a + 1) * (a + 1) > a * a) by (nonlinear_arith);
        lemma_isqrt_unique(n, a);
    }
    if dx == 0 {
        let b = abs(dy) as nat;
        assert(b * b == dx * dx + dy * dy) by (nonlinear_arith)
            requires
                b == dy || b == -dy,
                dx == 0,
        ;
        assert((b + 1) * (b + 1) > b * b) by (nonlinear_arith);
        lemma_isqrt_unique(n, b);
    }
}

/// A vector brought to a length is no longer than that length, in each component and
/// as a whole; each component points the way it did; and a vector along one axis is
/// brought to the length exactly.
pub proof fn lemma_aligned_within(dx: int, dy: int, length: int)
    requires
        dx != 0 || dy != 0,
        length >= 0,
    ensures
        abs(aligned(dx, dy, length).0) <= length,
        abs(aligned(dx, dy, length).1) <= length,
        aligned(dx, dy, length).0 * aligned(dx, dy, length).0 + aligned(dx, dy, length).1
            * aligned(dx, dy, length).1 <= length * length,
        dx >= 0 ==> aligned(dx, dy, length).0 >= 0,
        dx <= 0 ==> aligned(dx, dy, length).0 <= 0,
        dy >= 0 ==> aligned(dx, dy, length).1 >= 0,
        dy <= 0 ==> aligned(dx, dy, length).1 <= 0,
        dy == 0 && dx > 0 ==> aligned(dx, dy, length) == (length, 0int),
        dy == 0 && dx < 0 ==> aligned(dx, dy, length) == (-length, 0int),
        dx == 0 && dy > 0 ==> aligned(dx, dy, length) == (0int, length),
        dx == 0 && dy < 0 ==> aligned(dx, dy, length) == (0int, -length),
{
    let g = grain(dx, dy);
    let a = dx * g;
    let b = dy * g;
    let d = norm_up(a, b);
    lemma_norm_up_covers(a, b);
    let x = scaled(a, length, d);
    let y = scaled(b, length, d);
    lemma_share(a, length, d);
    lemma_share(b, length, d);
    let p = abs(x);
    let q = abs(y);
    let aa = abs(a);
    let bb = abs(b);
    assert((p * d) * (p * d) <= (aa * length) * (aa * length)) by (nonlinear_arith)
        requires
            0 <= p * d <= aa * length,
    ;
    assert((q * d) * (q * d) <= (bb * length) * (bb * length)) by (nonlinear_arith)
        requires
            0 <= q * d <= bb * length,
    ;
    assert((p * p + q * q) * (d * d) == (p * d) * (p * d) + (q * d) * (q * d))
        by (nonlinear_arith);
    assert((aa * length) * (aa * length) + (bb * length) * (bb * length) == (aa * aa + bb * bb)
        * (length * length)) by (nonlinear_arith);
    assert(aa * aa + bb * bb == a * a + b * b) by (nonlinear_arith)
        requires
            aa == a || aa == -a,
            bb == b || bb == -b,
    ;
    assert((aa * aa + bb * bb) * (length * length) <= (d * d) * (length * length))
        by (nonlinear_arith)
        requires
            aa * aa + bb * bb <= d * d,
    ;
    assert(p * p + q * q <= length * length) by (nonlinear_arith)
        requires
            (p * p + q * q) * (d * d) <= (d * d) * (length * length),
            d > 0,
    ;
    assert(x * x + y * y == p * p + q * q) by (nonlinear_arith)
        requires
            p == x || p == -x,
            q == y || q == -y,
    ;
    if dy == 0 {
        assert(b == 0);
        assert(d == aa);
        lemma_whole_share(a, length);
        assert(0 * length == 0);
    }
    if dx == 0 {
        assert(a == 0);
        assert(d == bb);
        lemma_whole_share(b, length);
        assert(0 * length == 0);
    }
}

/// A component of a vector gets at most its share of a length, and keeps its sign.
pub proof fn lemma_share(a: int, length: int, d: int)
    requires
        d > 0,
        abs(a) <= d,
        length >= 0,
    ensures
        abs(scaled(a, length, d)) <= length,
        abs(scaled(a, length, d)) * d <= abs(a) * length,
        a >= 0 ==> scaled(a, length, d) >= 0,
        a <= 0 ==> scaled(a, length, d) <= 0,
{
    let m = abs(a) * length;
    assert(a >= 0 ==> a * length == m) by (nonlinear_arith)
        requires
            m == abs(a) * length,
    ;
    assert(a <= 0 ==> -(a * length) == m) by (nonlinear_arith)
        requires
            m == abs(a) * length,
    ;
    assert(0 <= m <= length * d) by (nonlinear_arith)
        requires
            m == abs(a) * length,
            abs(a) <= d,
            length >= 0,
    ;
    assert(0 <= (m / d) * d <= m && m / d <= length) by (nonlinear_arith)
        requires
            0 <= m <= length * d,
            d > 0,
    ;
}

/// The only component of a vector along an axis gets the whole length.
pub proof fn lemma_whole_share(a: int, length: int)
    requires
        a != 0,
        length >= 0,
    ensures
        a > 0 ==> scaled(a, length, abs(a)) == length,
        a < 0 ==> scaled(a, length, abs(a)) == -length,
{
    let d = abs(a);
    assert((d * length) / d == length) by (nonlinear_arith)
        requires
            d > 0,
            length >= 0,
    ;
    assert(a > 0 ==> a * length == d * length);
    assert(a < 0 ==> -(a * length) == d * length) by (nonlinear_arith)
        requires
            a < 0 ==> d == -a,
    ;
    assert(a > 0 ==> a * length >= 0) by (nonlinear_arith)
        requires
            length >= 0,
    ;
    assert(a < 0 ==> a * length <= 0) by (nonlinear_arith)
        requires
            length >= 0,
    ;
}

/// Brings the vector `(dx, dy)`, which is not zero, to the given length.
pub fn align(dx: i64, dy: i64, length: i64) -> (v: (i64, i64))
    requires
        abs(dx as int) <= OFFSET_MAX,
        abs(dy as int) <= OFFSET_MAX,
        dx != 0 || dy != 0,
        0 <= length <= LENGTH_MAX,
    ensures
        (v.0 as int, v.1 as int) == aligned(dx as int, dy as int, length as int),
        abs(v.0 as int) <= length,
        abs(v.1 as int) <= length,
{
    let g: i64 = if -1000 <= dx && dx <= 1000 && -1000 <= dy && dy <= 1000 {
        1_000_000
    } else if -1_000_000 <= dx && dx <= 1_000_000 && -1_000_000 <= dy && dy <= 1_000_000 {
        1000
    } else {
        1
    };
    let a = dx * g;
    let b = dy * g;
    let n = vector_length_sq(a, b);
    let r = int_sqrt(n);
    assert(r * r <= 0xffff_ffff * 0xffff_ffff) by (nonlinear_arith)
        requires
            0 <= r <= 0xffff_ffff,
    ;
    let d: i64 = if r * r == n {
        r as i64
    } else {
        (r + 1) as i64
    };
    proof {
        lemma_norm_up_covers(a as int, b as int);
        lemma_share(a as int, length as int, d as int);
        lemma_share(b as int, length as int, d as int);
    }
    (mul_div(a, length, d), mul_div(b, length, d))
}

/// Restricts `v` to `lo..=hi`.
pub fn clamp_to(v: i64, lo: i64, hi: i64) -> (r: i64)
    ensures
        r == clamp(v as int, lo as int, hi as int),
{
    if v < lo {
        lo
    } else if v > hi {
        hi
    } else {
        v
    }
}

/// Narrows a sum or difference of two `i32` values to `i32`, saturating at the ends.
pub fn saturate_i32(v: i64) -> (r: i32)
    ensures
        r == sat_i32(v as int),
{
    if v < i32::MIN as i64 {
        i32::MIN
    } else if v > i32::MAX as i64 {
        i32::MAX
    } else {
        v as i32
    }
}

/// Magnitude of a value whose negation exists.
pub fn magnitude(v: i64) -> (r: i64)
    requires
        v > i64::MIN,
    ensures
        r == abs(v as int),
{
    if v >= 0 {
        v
    } else {
        -v
    }
}

} // verus!
