//! Field-space vectors in fixed point: one unit is a thousandth of a pixel.
use vstd::prelude::*;

verus! {

/// Fixed-point units per pixel.
pub const UNIT: i64 = 1000;

/// A point or displacement in field space, in thousandths of a pixel.
#[derive(Clone, Copy, Debug, PartialEq, Eq, Structural)]
pub struct Vec2 {
    pub x: i64,
    pub y: i64,
}

/// Every component lies within `[-m, m]`.
pub open spec fn bounded(v: Vec2, m: int) -> bool {
    -m <= v.x <= m && -m <= v.y <= m
}

pub open spec fn vadd(a: Vec2, b: Vec2) -> Vec2 {
    Vec2 { x: (a.x + b.x) as i64, y: (a.y + b.y) as i64 }
}

pub open spec fn vsub(a: Vec2, b: Vec2) -> Vec2 {
    Vec2 { x: (a.x - b.x) as i64, y: (a.y - b.y) as i64 }
}

/// Squared Euclidean length.
pub open spec fn len_sq(v: Vec2) -> int {
    v.x * v.x + v.y * v.y
}

/// Squared distance between two points.
pub open spec fn dist_sq(a: Vec2, b: Vec2) -> int {
    (a.x - b.x) * (a.x - b.x) + (a.y - b.y) * (a.y - b.y)
}

/// `r` is the integer square root of `n`.
pub open spec fn is_root(n: int, r: int) -> bool {
    0 <= r && r * r <= n < (r + 1) * (r + 1)
}

/// Integer square root, rounded down.
pub open spec fn root(n: int) -> int {
    choose|r: int| is_root(n, r)
}

/// Euclidean length, rounded down.
pub open spec fn length(v: Vec2) -> int {
    root(len_sq(v))
}

/// Division rounding toward zero, as machine integer division does.
pub open spec fn div0(a: int, b: int) -> int {
    if a >= 0 {
        a / b
    } else {
        -((-a) / b)
    }
}

/// `v` rescaled to length `k` (zero stays zero).
pub open spec fn scale_to(v: Vec2, k: int) -> Vec2 {
    if length(v) == 0 {
        Vec2 { x: 0, y: 0 }
    } else {
        Vec2 { x: div0(v.x * k, length(v)) as i64, y: div0(v.y * k, length(v)) as i64 }
    }
}

/// `v` shortened to length `m` where it is longer.
pub open spec fn with_max_length(v: Vec2, m: int) -> Vec2 {
    if len_sq(v) > m * m {
        scale_to(v, m)
    } else {
        v
    }
}

/// Each component of `r` lies between zero and the matching component of `v`.
pub open spec fn shrinks(v: Vec2, r: Vec2) -> bool {
    &&& (0 <= v.x ==> 0 <= r.x <= v.x)
    &&& (v.x <= 0 ==> v.x <= r.x <= 0)
    &&& (0 <= v.y ==> 0 <= r.y <= v.y)
    &&& (v.y <= 0 ==> v.y <= r.y <= 0)
}

/// Midpoint of two points, each coordinate rounded toward zero.
pub open spec fn midpoint(a: Vec2, b: Vec2) -> Vec2 {
    Vec2 { x: div0(a.x + b.x, 2) as i64, y: div0(a.y + b.y, 2) as i64 }
}

pub proof fn lemma_root_unique(n: int, a: int, b: int)
    requires
        is_root(n, a),
        is_root(n, b),
    ensures
        a == b,
{
    if a < b {
        assert((a + 1) * (a + 1) <= b * b) by (nonlinear_arith)
            requires
                0 <= a,
                a + 1 <= b,
        ;
    } else if b < a {
        assert((b + 1) * (b + 1) <= a * a) by (nonlinear_arith)
            requires
                0 <= b,
                b + 1 <= a,
        ;
    }
}

/// The root of `n` is at least as large as any coordinate whose square fits under `n`.
pub proof fn lemma_root_ge(n: int, c: int)
    requires
        c * c <= n,
        n >= 0,
        is_root(n, root(n)),
    ensures
        c <= root(n),
        -c <= root(n),
{
    let r = root(n);
    if r < c {
        assert((r + 1) * (r + 1) <= c * c) by (nonlinear_arith)
            requires
                0 <= r,
                r + 1 <= c,
        ;
    }
    if r < -c {
        assert((r + 1) * (r + 1) <= c * c) by (nonlinear_arith)
            requires
                0 <= r,
                r + 1 <= -c,
        ;
    }
}

pub proof fn lemma_square_bound(a: int, m: int)
    requires
        -m <= a <= m,
    ensures
        0 <= a * a <= m * m,
{
    assert(0 <= a * a <= m * m) by (nonlinear_arith)
        requires
            -m <= a <= m,
    ;
}

pub proof fn lemma_mul_bound(a: int, b: int, ma: int, mb: int)
    requires
        -ma <= a <= ma,
        0 <= b <= mb,
    ensures
        -(ma * mb) <= a * b <= ma * mb,
{
    assert(-(ma * mb) <= a * b <= ma * mb) by (nonlinear_arith)
        requires
            -ma <= a <= ma,
            0 <= b <= mb,
    ;
}

/// Integer square root of `n`, rounded down.
pub fn isqrt(n: i64) -> (r: i64)
    requires
        0 <= n <= 0x1000_0000_0000_0000,
    ensures
        is_root(n as int, r as int),
        r == root(n as int),
        0 <= r <= 0x4000_0000,
{
    let mut lo: i64 = 0;
    let mut hi: i64 = 0x4000_0001;
    assert(hi * hi > n) by (nonlinear_arith)
        requires
            hi == 0x4000_0001,
            n <= 0x1000_0000_0000_0000,
    ;
    while hi - lo > 1
        invariant
            0 <= lo < hi <= 0x4000_0001,
            lo * lo <= n,
            n < hi * hi,
        decreases hi - lo,
    {
        let mid = lo + (hi - lo) / 2;
        assert(mid * mid <= 0x4000_0001 * 0x4000_0001) by (nonlinear_arith)
            requires
                0 <= mid <= 0x4000_0001,
        ;
        if mid * mid <= n {
            lo = mid;
        } else {
            hi = mid;
        }
    }
    proof {
        assert(is_root(n as int, lo as int));
        let c = root(n as int);
        assert(is_root(n as int, c));
        lemma_root_unique(n as int, lo as int, c);
    }
    lo
}

/// Division rounding toward zero.
pub fn div_toward_zero(a: i64, b: i64) -> (r: i64)
    requires
        b > 0,
        a > i64::MIN,
    ensures
        r == div0(a as int, b as int),
        a >= 0 ==> 0 <= r <= a,
        a < 0 ==> a <= r <= 0,
{
    if a >= 0 {
        a / b
    } else {
        -((-a) / b)
    }
}

impl Vec2 {
    pub fn new(x: i64, y: i64) -> (r: Vec2)
        ensures
            r.x == x,
            r.y == y,
    {
        Vec2 { x, y }
    }

    pub fn zero() -> (r: Vec2)
        ensures
            r.x == 0,
            r.y == 0,
    {
        Vec2 { x: 0, y: 0 }
    }

    pub fn plus(self, o: Vec2) -> (r: Vec2)
        requires
            bounded(self, 0x2000_0000_0000_0000),
            bounded(o, 0x2000_0000_0000_0000),
        ensures
            r == vadd(self, o),
            r.x == self.x + o.x,
            r.y == self.y + o.y,
    {
        Vec2 { x: self.x + o.x, y: self.y + o.y }
    }

    pub fn minus(self, o: Vec2) -> (r: Vec2)
        requires
            bounded(self, 0x2000_0000_0000_0000),
            bounded(o, 0x2000_0000_0000_0000),
        ensures
            r == vsub(self, o),
            r.x == self.x - o.x,
            r.y == self.y - o.y,
    {
        Vec2 { x: self.x - o.x, y: self.y - o.y }
    }

    /// Squared length.
    pub fn square_length(self) -> (r: i64)
        requires
            bounded(self, 0x4000_0000),
        ensures
            r == len_sq(self),
            0 <= r <= 0x8000_0000_0000_0000,
    {
        proof {
            lemma_square_bound(self.x as int, 0x4000_0000);
            lemma_square_bound(self.y as int, 0x4000_0000);
        }
        self.x * self.x + self.y * self.y
    }

    /// Length, rounded down.
    pub fn length(self) -> (r: i64)
        requires
            bounded(self, 0x2000_0000),
        ensures
            r == length(self),
            is_root(len_sq(self), r as int),
            0 <= r <= 0x4000_0000,
            -r <= self.x <= r,
            -r <= self.y <= r,
            r <= crate::field::abs(self.x as int) + crate::field::abs(self.y as int),
    {
        let s = self.square_length();
        proof {
            lemma_square_bound(self.x as int, 0x2000_0000);
            lemma_square_bound(self.y as int, 0x2000_0000);
        }
        let r = isqrt(s);
        proof {
            lemma_root_ge(s as int, self.x as int);
            lemma_root_ge(s as int, self.y as int);
            let ax = crate::field::abs(self.x as int);
            let ay = crate::field::abs(self.y as int);
            assert(ax * ax == self.x * self.x) by (nonlinear_arith)
                requires
                    ax == crate::field::abs(self.x as int),
            ;
            assert(ay * ay == self.y * self.y) by (nonlinear_arith)
                requires
                    ay == crate::field::abs(self.y as int),
            ;
            if r > ax + ay {
                assert((r as int) * (r as int) >= (ax + ay + 1) * (ax + ay + 1)) by (nonlinear_arith)
                    requires
                        r >= ax + ay + 1,
                        ax >= 0,
                        ay >= 0,
                ;
                assert((ax + ay + 1) * (ax + ay + 1) > ax * ax + ay * ay) by (nonlinear_arith)
                    requires
                        ax >= 0,
                        ay >= 0,
                ;
            }
        }
        r
    }

    /// This vector rescaled to length `k`; the zero vector stays zero.
    pub fn scale_to(self, k: i64) -> (r: Vec2)
        requires
            bounded(self, 0x2000_0000),
            0 <= k <= 0x1000_0000,
        ensures
            r == scale_to(self, k as int),
            bounded(r, k as int),
            len_sq(self) > k * k ==> shrinks(self, r),
    {
        let len = self.length();
        if len == 0 {
            Vec2 { x: 0, y: 0 }
        } else {
            proof {
                if len_sq(self) > k * k {
                    assert(len >= k) by (nonlinear_arith)
                        requires
                            (len + 1) * (len + 1) > len_sq(self),
                            len_sq(self) > k * k,
                            len >= 0,
                            k >= 0,
                    ;
                    lemma_div_shrinks(self.x as int, k as int, len as int);
                    lemma_div_shrinks(self.y as int, k as int, len as int);
                }
                lemma_mul_bound(self.x as int, k as int, 0x2000_0000, 0x1000_0000);
                lemma_mul_bound(self.y as int, k as int, 0x2000_0000, 0x1000_0000);
                lemma_div_below(self.x as int, k as int, len as int);
                lemma_div_below(self.y as int, k as int, len as int);
            }
            let x = div_toward_zero(self.x * k, len);
            let y = div_toward_zero(self.y * k, len);
            Vec2 { x, y }
        }
    }

    /// This vector shortened to length `m` where it is longer.
    pub fn with_max_length(self, m: i64) -> (r: Vec2)
        requires
            bounded(self, 0x2000_0000),
            0 <= m <= 0x1000_0000,
        ensures
            r == with_max_length(self, m as int),
            bounded(r, m as int) || r == self,
            len_sq(self) > m * m ==> bounded(r, m as int),
            shrinks(self, r),
    {
        let s = self.square_length();
        proof {
            lemma_square_bound(m as int, 0x1000_0000);
        }
        if s > m * m {
            self.scale_to(m)
        } else {
            self
        }
    }
}

/// Scaling by `k / len` with `k <= len` keeps a coordinate between zero and itself.
pub proof fn lemma_div_shrinks(c: int, k: int, len: int)
    requires
        0 <= k <= len,
        len > 0,
    ensures
        0 <= c ==> 0 <= div0(c * k, len) <= c,
        c <= 0 ==> c <= div0(c * k, len) <= 0,
{
    if c >= 0 {
        assert(0 <= (c * k) / len <= c) by (nonlinear_arith)
            requires
                0 <= k <= len,
                len > 0,
                c >= 0,
        ;
    } else {
        assert(0 <= ((-c) * k) / len <= -c) by (nonlinear_arith)
            requires
                0 <= k <= len,
                len > 0,
                c < 0,
        ;
        assert(-(c * k) == (-c) * k) by (nonlinear_arith);
    }
}

/// A coordinate no larger than the length, scaled by `k` and divided by the length, is at most `k`.
pub proof fn lemma_div_below(c: int, k: int, len: int)
    requires
        -len <= c <= len,
        len > 0,
        k >= 0,
    ensures
        -k <= div0(c * k, len) <= k,
{
    if c >= 0 {
        assert(c * k <= len * k) by (nonlinear_arith)
            requires
                0 <= c <= len,
                k >= 0,
        ;
        assert(0 <= c * k) by (nonlinear_arith)
            requires
                0 <= c,
                k >= 0,
        ;
        assert((c * k) / len <= (len * k) / len) by (nonlinear_arith)
            requires
                0 <= c * k <= len * k,
                len > 0,
        ;
        assert((len * k) / len == k) by (nonlinear_arith)
            requires
                len > 0,
        ;
        assert(0 <= (c * k) / len) by (nonlinear_arith)
            requires
                0 <= c * k,
                len > 0,
        ;
    } else {
        assert((-c) * k <= len * k) by (nonlinear_arith)
            requires
                0 <= -c <= len,
                k >= 0,
        ;
        assert(0 <= (-c) * k) by (nonlinear_arith)
            requires
                0 <= -c,
                k >= 0,
        ;
        assert(((-c) * k) / len <= (len * k) / len) by (nonlinear_arith)
            requires
                0 <= (-c) * k <= len * k,
                len > 0,
        ;
        assert((len * k) / len == k) by (nonlinear_arith)
            requires
                len > 0,
        ;
        assert(0 <= ((-c) * k) / len) by (nonlinear_arith)
            requires
                0 <= (-c) * k,
                len > 0,
        ;
        assert(-(c * k) == (-c) * k) by (nonlinear_arith);
    }
}

} // verus!
