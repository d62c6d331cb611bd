//! Fixed-point vector math: the 3-component milli-unit vector used for
//! positions, velocities and collider offsets, and an exact integer
//! square root for direction scaling.

use vstd::prelude::*;

verus! {

/// A 3-component vector in fixed-point milli-units.
#[derive(Clone, Copy, Debug, PartialEq, Eq, Structural)]
pub struct Vec3 {
    pub x: i64,
    pub y: i64,
    pub z: i64,
}

impl Vec3 {
    /// Every component within `lim` in magnitude.
    pub open spec fn in_bounds(self, lim: int) -> bool {
        &&& -lim <= self.x <= lim
        &&& -lim <= self.y <= lim
        &&& -lim <= self.z <= lim
    }

}

/// A mathematical-integer vector, the specification-level shadow of
/// `Vec3`: collision contracts are stated over it, free of overflow
/// concerns.
pub struct IVec3 {
    pub x: int,
    pub y: int,
    pub z: int,
}

impl Vec3 {
    /// The mathematical value of this vector.
    pub open spec fn iv(self) -> IVec3 {
        IVec3 { x: self.x as int, y: self.y as int, z: self.z as int }
    }
}

pub open spec fn ivsub(u: IVec3, v: IVec3) -> IVec3 {
    IVec3 { x: u.x - v.x, y: u.y - v.y, z: u.z - v.z }
}

pub open spec fn ivdot(u: IVec3, v: IVec3) -> int {
    u.x * v.x + u.y * v.y + u.z * v.z
}

/// The floor of the square root of a nonnegative integer.
pub open spec fn spec_isqrt(n: int) -> int {
    choose|r: int| 0 <= r && #[trigger] (r * r) <= n && n < (r + 1) * (r + 1)
}

/// Floor of the square root: `r` is the greatest integer with `r * r <= n`.
pub fn isqrt(n: u64) -> (r: u64)
    ensures
        r * r <= n < (r + 1) * (r + 1),
        r == spec_isqrt(n as int),
{
    if n == 0 {
        proof {
            lemma_isqrt_unique(0, 0);
        }
        return 0;
    }
    let mut lo: u64 = 0;
    let mut hi: u64 = 4294967296;
    assert(hi * hi > n);
    while lo + 1 < hi
        invariant
            lo < hi <= 4294967296,
            lo * lo <= n,
            n < hi * hi,
        decreases hi - lo,
    {
        let mid = lo + (hi - lo) / 2;
        assert(lo < mid < hi);
        assert(mid * mid < 18446744073709551616) by (nonlinear_arith)
            requires
                0 < mid < 4294967296,
        ;
        if mid * mid <= n {
            lo = mid;
        } else {
            hi = mid;
        }
    }
    proof {
        lemma_isqrt_unique(lo as int, n as int);
    }
    lo
}

/// Any two nonnegative integers bracketing `n` the same way are equal,
/// so the square-root witness is unique.
proof fn lemma_isqrt_unique(r: int, n: int)
    requires
        0 <= r,
        r * r <= n < (r + 1) * (r + 1),
    ensures
        spec_isqrt(n) == r,
{
    assert(exists|q: int| 0 <= q && #[trigger] (q * q) <= n && n < (q + 1) * (q + 1)) by {
        assert(0 <= r && r * r <= n && n < (r + 1) * (r + 1));
    }
    let q = choose|q: int| 0 <= q && #[trigger] (q * q) <= n && n < (q + 1) * (q + 1);
    assert(q == r) by (nonlinear_arith)
        requires
            0 <= r,
            r * r <= n < (r + 1) * (r + 1),
            0 <= q,
            q * q <= n < (q + 1) * (q + 1),
    ;
}

} // verus!
