//! Fixed-point plane vectors.
//!
//! Every length is counted in thousandths of a pixel and every vector has
//! integer components, so each operation here has an exact meaning. The one
//! operation that real vectors do with a square root, setting a vector's length
//! while keeping its direction, rounds each component towards zero.
use vstd::prelude::*;

verus! {

/// Largest magnitude of a component that `Vec2::scaled` accepts.
pub const VEC_LIMIT: i64 = 4_000_000_000;

/// Largest length that `Vec2::scaled` can give a vector.
pub const MAG_LIMIT: i64 = 4_000_000_000;

/// A point or a displacement in the plane.
#[derive(Clone, Copy, Debug, PartialEq, Eq, Structural)]
pub struct Vec2 {
    pub x: i64,
    pub y: i64,
}

pub open spec fn norm_sq(v: Vec2) -> int {
    v.x * v.x + v.y * v.y
}

pub open spec fn dot(a: Vec2, b: Vec2) -> int {
    a.x * b.x + a.y * b.y
}

pub open spec fn dist_sq(a: Vec2, b: Vec2) -> int {
    (a.x - b.x) * (a.x - b.x) + (a.y - b.y) * (a.y - b.y)
}

pub open spec fn within(v: Vec2, lim: int) -> bool {
    -lim <= v.x <= lim && -lim <= v.y <= lim
}

pub open spec fn zero() -> Vec2 {
    Vec2 { x: 0, y: 0 }
}

pub open spec fn abs(a: int) -> int {
    if a < 0 {
        -a
    } else {
        a
    }
}

/// `r` is the square root of `q`, rounded down.
pub open spec fn is_floor_sqrt(q: int, r: int) -> bool {
    0 <= r && r * r <= q && q < (r + 1) * (r + 1)
}

pub open spec fn floor_sqrt(q: int) -> int {
    choose|r: int| is_floor_sqrt(q, r)
}

/// The component `c` of a vector whose squared length is `n`, once the vector
/// is given length `m`: `c * m / sqrt(n)`, rounded towards zero.
pub open spec fn scaled_component(c: int, m: int, n: int) -> int {
    let k = floor_sqrt((c * c * m * m) / n);
    if c < 0 {
        -k
    } else {
        k
    }
}

/// `v` with its length set to `m`; the zero vector stays zero.
pub open spec fn scaled_vec(v: Vec2, m: int) -> Vec2 {
    let n = norm_sq(v);
    if n == 0 {
        zero()
    } else {
        Vec2 {
            x: scaled_component(v.x as int, m, n) as i64,
            y: scaled_component(v.y as int, m, n) as i64,
        }
    }
}

/// What `scaled_vec` gives: no longer than `m`, short of `m` by less than one
/// unit in each component, and never pointing against `v` in any component.
pub open spec fn is_scaled_copy(r: Vec2, v: Vec2, m: int) -> bool {
    &&& norm_sq(r) <= m * m
    &&& (abs(r.x as int) + 1) * (abs(r.x as int) + 1) + (abs(r.y as int) + 1) * (abs(r.y as int)
        + 1) > m * m
    &&& r.x * v.x >= 0 && r.y * v.y >= 0
    &&& (v.x == 0 ==> r.x == 0) && (v.y == 0 ==> r.y == 0)
    &&& -m <= r.x <= m && -m <= r.y <= m
    &&& r.x * r.x * norm_sq(v) <= v.x * v.x * m * m
    &&& r.y * r.y * norm_sq(v) <= v.y * v.y * m * m
}

pub proof fn lemma_floor_sqrt_unique(q: int, r: int, s: int)
    requires
        is_floor_sqrt(q, r),
        is_floor_sqrt(q, s),
    ensures
        r == s,
{
    if r < s {
        assert((r + 1) * (r + 1) <= s * s) by (nonlinear_arith)
            requires
                0 <= r,
                r + 1 <= s,
        ;
    } else if s < r {
        assert((s + 1) * (s + 1) <= r * r) by (nonlinear_arith)
            requires
                0 <= s,
                s + 1 <= r,
        ;
    }
}

pub proof fn lemma_floor_sqrt_is(q: int, r: int)
    requires
        is_floor_sqrt(q, r),
    ensures
        floor_sqrt(q) == r,
{
    assert(exists|s: int| is_floor_sqrt(q, s));
    lemma_floor_sqrt_unique(q, floor_sqrt(q), r);
}

pub proof fn lemma_floor_sqrt_exists(q: int)
    requires
        q >= 0,
    ensures
        is_floor_sqrt(q, floor_sqrt(q)),
    decreases q,
{
    if q == 0 {
        lemma_floor_sqrt_is(0, 0);
    } else {
        lemma_floor_sqrt_exists(q - 1);
        let p = floor_sqrt(q - 1);
        if (p + 1) * (p + 1) <= q {
            assert((p + 2) * (p + 2) > q) by (nonlinear_arith)
                requires
                    q - 1 < (p + 1) * (p + 1),
                    p >= 0,
            ;
            lemma_floor_sqrt_is(q, p + 1);
        } else {
            lemma_floor_sqrt_is(q, p);
        }
    }
}

/// The facts about one component of `scaled_vec` that the vector lemma combines.
proof fn lemma_scaled_component(c: int, m: int, n: int)
    requires
        n > 0,
        m >= 0,
        c * c <= n,
    ensures
        ({
            let k = abs(scaled_component(c, m, n));
            &&& k * k * n <= c * c * m * m
            &&& c * c * m * m < (k + 1) * (k + 1) * n
            &&& 0 <= k <= m
            &&& (c == 0 ==> k == 0)
            &&& scaled_component(c, m, n) * c >= 0
        }),
{
    let a = c * c * m * m;
    assert(a >= 0) by (nonlinear_arith)
        requires
            a == c * c * m * m,
    ;
    let q = a / n;
    vstd::arithmetic::div_mod::lemma_fundamental_div_mod(a, n);
    assert(0 <= a % n < n);
    assert(q >= 0) by (nonlinear_arith)
        requires
            a >= 0,
            n > 0,
            q == a / n,
    ;
    lemma_floor_sqrt_exists(q);
    let k = floor_sqrt(q);
    assert(abs(scaled_component(c, m, n)) == k);
    assert(k * k * n <= a) by (nonlinear_arith)
        requires
            k * k <= q,
            n > 0,
            a == n * q + a % n,
            a % n >= 0,
    ;
    assert(a < (k + 1) * (k + 1) * n) by (nonlinear_arith)
        requires
            q < (k + 1) * (k + 1),
            n > 0,
            a == n * q + a % n,
            a % n < n,
    ;
    assert(k <= m) by (nonlinear_arith)
        requires
            k * k * n <= c * c * m * m,
            c * c <= n,
            n > 0,
            k >= 0,
            m >= 0,
    ;
    if c == 0 {
        assert(a == 0) by (nonlinear_arith)
            requires
                a == c * c * m * m,
                c == 0,
        ;
        assert(q == 0);
        assert(k == 0) by (nonlinear_arith)
            requires
                k * k <= q,
                q == 0,
                k >= 0,
        ;
    }
    assert(scaled_component(c, m, n) * c >= 0) by (nonlinear_arith)
        requires
            k >= 0,
            scaled_component(c, m, n) == (if c < 0 {
                -k
            } else {
                k
            }),
    ;
}

/// `scaled_vec` keeps the direction and sets the length, up to rounding.
pub proof fn lemma_scaled_vec(v: Vec2, m: int)
    requires
        norm_sq(v) > 0,
        0 <= m <= MAG_LIMIT,
    ensures
        is_scaled_copy(scaled_vec(v, m), v, m),
{
    let n = norm_sq(v);
    assert(v.x * v.x <= n && v.y * v.y <= n) by (nonlinear_arith)
        requires
            n == v.x * v.x + v.y * v.y,
    ;
    lemma_scaled_component(v.x as int, m, n);
    lemma_scaled_component(v.y as int, m, n);
    let kx = abs(scaled_component(v.x as int, m, n));
    let ky = abs(scaled_component(v.y as int, m, n));
    let r = scaled_vec(v, m);
    assert(abs(r.x as int) == kx && abs(r.y as int) == ky);
    assert(r.x * r.x == kx * kx && r.y * r.y == ky * ky) by (nonlinear_arith)
        requires
            abs(r.x as int) == kx,
            abs(r.y as int) == ky,
    ;
    assert(norm_sq(r) == kx * kx + ky * ky) by (nonlinear_arith)
        requires
            abs(r.x as int) == kx,
            abs(r.y as int) == ky,
            norm_sq(r) == r.x * r.x + r.y * r.y,
    ;
    assert(kx * kx + ky * ky <= m * m) by (nonlinear_arith)
        requires
            kx * kx * n <= v.x * v.x * m * m,
            ky * ky * n <= v.y * v.y * m * m,
            n == v.x * v.x + v.y * v.y,
            n > 0,
    ;
    assert((kx + 1) * (kx + 1) + (ky + 1) * (ky + 1) > m * m) by (nonlinear_arith)
        requires
            v.x * v.x * m * m < (kx + 1) * (kx + 1) * n,
            v.y * v.y * m * m < (ky + 1) * (ky + 1) * n,
            n == v.x * v.x + v.y * v.y,
            n > 0,
    ;
}

/// A vector with length zero is the zero vector.
pub proof fn lemma_norm_sq_zero(v: Vec2)
    ensures
        norm_sq(v) >= 0,
        norm_sq(v) == 0 <==> v == zero(),
{
    assert(v.x * v.x >= 0 && v.y * v.y >= 0) by (nonlinear_arith);
    if v.x != 0 {
        assert(v.x * v.x > 0) by (nonlinear_arith)
            requires
                v.x != 0,
        ;
    }
    if v.y != 0 {
        assert(v.y * v.y > 0) by (nonlinear_arith)
            requires
                v.y != 0,
        ;
    }
}

/// The square root of `q`, rounded down.
pub fn isqrt(q: u128) -> (r: u64)
    ensures
        r as int == floor_sqrt(q as int),
        is_floor_sqrt(q as int, r as int),
{
    let mut lo: u128 = 0;
    let mut hi: u128 = 0xffff_ffff_ffff_ffff;
    if hi * hi <= q {
        assert(q < (hi + 1) * (hi + 1));
        proof {
            lemma_floor_sqrt_is(q as int, hi as int);
        }
        return 0xffff_ffff_ffff_ffff;
    }
    while lo + 1 < hi
        invariant
            lo < hi <= 0xffff_ffff_ffff_ffffu128,
            lo * lo <= q,
            q < hi * hi,
        decreases hi - lo,
    {
        let mid = lo + (hi - lo) / 2;
        assert(mid * mid <= 0xffff_ffff_ffff_ffffu128 * 0xffff_ffff_ffff_ffffu128) by (nonlinear_arith)
            requires
                0 <= mid <= 0xffff_ffff_ffff_ffffu128,
        ;
        if mid * mid <= q {
            lo = mid;
        } else {
            hi = mid;
        }
    }
    proof {
        lemma_floor_sqrt_is(q as int, lo as int);
    }
    lo as u64
}

fn square(c: i64) -> (r: u128)
    requires
        -VEC_LIMIT <= c <= VEC_LIMIT,
    ensures
        r == c * c,
        r <= VEC_LIMIT * VEC_LIMIT,
{
    let a: u128 = if c < 0 {
        (-c) as u128
    } else {
        c as u128
    };
    assert(a * a == c * c) by (nonlinear_arith)
        requires
            a == abs(c as int),
    ;
    assert(a * a <= VEC_LIMIT * VEC_LIMIT) by (nonlinear_arith)
        requires
            0 <= a <= VEC_LIMIT,
    ;
    a * a
}

fn scale_component(c: i64, m: i64, n: u128) -> (r: i64)
    requires
        -VEC_LIMIT <= c <= VEC_LIMIT,
        0 <= m <= MAG_LIMIT,
        n > 0,
        c * c <= n,
    ensures
        r == scaled_component(c as int, m as int, n as int),
{
    let cc = square(c);
    let mm = square(m);
    assert(cc * mm <= VEC_LIMIT * VEC_LIMIT * (MAG_LIMIT * MAG_LIMIT)) by (nonlinear_arith)
        requires
            0 <= cc <= VEC_LIMIT * VEC_LIMIT,
            0 <= mm <= MAG_LIMIT * MAG_LIMIT,
    ;
    let num = cc * mm;
    assert(num == c * c * m * m) by (nonlinear_arith)
        requires
            num == cc * mm,
            cc == c * c,
            mm == m * m,
    ;
    let k = isqrt(num / n);
    proof {
        lemma_scaled_component(c as int, m as int, n as int);
    }
    if c < 0 {
        -(k as i64)
    } else {
        k as i64
    }
}

impl Vec2 {
    pub fn new(x: i64, y: i64) -> (r: Vec2)
        ensures
            r == (Vec2 { x, y }),
    {
        Vec2 { x, y }
    }

    pub fn zero() -> (r: Vec2)
        ensures
            r == zero(),
    {
        Vec2 { x: 0, y: 0 }
    }

    pub fn is_zero(&self) -> (r: bool)
        ensures
            r == (*self == zero()),
    {
        self.x == 0 && self.y == 0
    }

    pub fn plus(self, o: Vec2) -> (r: Vec2)
        requires
            within(self, i64::MAX / 2),
            within(o, i64::MAX / 2),
        ensures
            r.x == self.x + o.x,
            r.y == self.y + o.y,
    {
        Vec2 { x: self.x + o.x, y: self.y + o.y }
    }

    pub fn minus(self, o: Vec2) -> (r: Vec2)
        requires
            within(self, i64::MAX / 2),
            within(o, i64::MAX / 2),
        ensures
            r.x == self.x - o.x,
            r.y == self.y - o.y,
    {
        Vec2 { x: self.x - o.x, y: self.y - o.y }
    }

    /// The squared length, which is exact where the length is not.
    pub fn length_sq(self) -> (r: u128)
        requires
            within(self, VEC_LIMIT as int),
        ensures
            r == norm_sq(self),
            r <= 2 * VEC_LIMIT * VEC_LIMIT,
    {
        square(self.x) + square(self.y)
    }

    /// The length, rounded down.
    pub fn length(self) -> (r: i64)
        requires
            within(self, VEC_LIMIT as int),
        ensures
            r == floor_sqrt(norm_sq(self)),
            0 <= r <= 2 * VEC_LIMIT,
    {
        let n = self.length_sq();
        let r = isqrt(n);
        assert(r <= 2 * VEC_LIMIT) by (nonlinear_arith)
            requires
                r * r <= n,
                n <= 2 * VEC_LIMIT * VEC_LIMIT,
                r >= 0,
        ;
        r as i64
    }

    /// This vector with its length set to `m`, each component rounded towards
    /// zero; the zero vector stays zero.
    pub fn scaled(self, m: i64) -> (r: Vec2)
        requires
            within(self, VEC_LIMIT as int),
            0 <= m <= MAG_LIMIT,
        ensures
            r == scaled_vec(self, m as int),
            norm_sq(self) > 0 ==> is_scaled_copy(r, self, m as int),
            norm_sq(self) == 0 ==> r == zero(),
            within(r, m as int),
            norm_sq(r) <= m * m,
    {
        let n = self.length_sq();
        if n == 0 {
            assert(0 <= m * m) by (nonlinear_arith);
            return Vec2 { x: 0, y: 0 };
        }
        assert(self.x * self.x <= n && self.y * self.y <= n) by (nonlinear_arith)
            requires
                n == self.x * self.x + self.y * self.y,
        ;
        proof {
            lemma_scaled_vec(self, m as int);
        }
        Vec2 { x: scale_component(self.x, m, n), y: scale_component(self.y, m, n) }
    }
}

} // verus!
