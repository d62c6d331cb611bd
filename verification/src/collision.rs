//! Collision and raycast queries: narrow-phase shape tests (sphere,
//! axis-aligned cuboid) against all live colliders, with category
//! filtering enforced at the call site. Shapes are placed in world space
//! at the owning transform's position plus the collider's local offset;
//! rotation is ignored for hitbox placement.
//!
//! All tests are exact integer arithmetic on milli-unit coordinates:
//! the sphere test is the standard segment-to-center quadratic, the
//! cuboid test is the slab method carried out in fraction arithmetic
//! with positive denominators, and hits along a ray are ordered by the
//! clamped parameter of closest approach to the collider's center
//! (all such parameters share the ray's own denominator, so comparing
//! numerators compares parameters). Queries are read-only snapshots; no
//! entity is ever deleted mid-query, since deletions are deferred to the
//! end of the tick.

use vstd::prelude::*;
use crate::components::{Collider, ColliderShape, Transform};
use crate::math::{ivdot, ivsub, IVec3, Vec3};
use crate::world::{Entity, World};
use crate::COORD_LIMIT;

verus! {

/// World-space center of a collider owned by transform `t`.
pub open spec fn collider_center(t: Transform, col: Collider) -> IVec3 {
    IVec3 {
        x: t.position.x + col.hitbox.offset.x,
        y: t.position.y + col.hitbox.offset.y,
        z: t.position.z + col.hitbox.offset.z,
    }
}

/// The segment from `a` to `b` passes within `r` of `c`: the quadratic
/// `|a + t(b-a) - c|^2 <= r^2` has a solution with `t` in `[0,1]`,
/// decided by the sign of the closest-approach parameter and the
/// discriminant, all in exact integers.
pub open spec fn seg_hits_sphere(a: IVec3, b: IVec3, c: IVec3, r: int) -> bool {
    let d = ivsub(b, a);
    let f = ivsub(a, c);
    let dd = ivdot(d, d);
    let fd = ivdot(f, d);
    let ff = ivdot(f, f);
    if fd >= 0 {
        ff <= r * r
    } else if -fd >= dd {
        ivdot(ivsub(b, c), ivsub(b, c)) <= r * r
    } else {
        fd * fd >= dd * (ff - r * r)
    }
}

/// `an/ad <= bn/bd` for positive denominators, by cross-multiplication.
pub open spec fn frac_le(an: int, ad: int, bn: int, bd: int) -> bool {
    an * bd <= bn * ad
}

/// The larger of two fractions with positive denominators.
pub open spec fn frac_max(an: int, ad: int, bn: int, bd: int) -> (int, int) {
    if frac_le(an, ad, bn, bd) {
        (bn, bd)
    } else {
        (an, ad)
    }
}

/// The smaller of two fractions with positive denominators.
pub open spec fn frac_min(an: int, ad: int, bn: int, bd: int) -> (int, int) {
    if frac_le(an, ad, bn, bd) {
        (an, ad)
    } else {
        (bn, bd)
    }
}

/// Entry numerator of one slab: the parameter at which the segment
/// enters `[lov, hiv]` along this axis, over denominator `|d|`.
pub open spec fn slab_entry(av: int, d: int, lov: int, hiv: int) -> int {
    if d > 0 {
        lov - av
    } else {
        av - hiv
    }
}

/// Exit numerator of one slab, over denominator `|d|`.
pub open spec fn slab_exit(av: int, d: int, lov: int, hiv: int) -> int {
    if d > 0 {
        hiv - av
    } else {
        av - lov
    }
}

/// The segment from `a` to `b` meets the axis-aligned box `[lo, hi]`:
/// the slab method, folding each axis's entry into a running maximum and
/// each exit into a running minimum (both fractions over positive
/// denominators, starting from the segment bounds 0 and 1), and testing
/// that the entry does not pass the exit. An axis the segment does not
/// advance along must contain the segment outright.
pub open spec fn seg_hits_aabb(a: IVec3, b: IVec3, lo: IVec3, hi: IVec3) -> bool {
    let dx = b.x - a.x;
    let dy = b.y - a.y;
    let dz = b.z - a.z;
    if dx == 0 && (a.x < lo.x || a.x > hi.x) {
        false
    } else if dy == 0 && (a.y < lo.y || a.y > hi.y) {
        false
    } else if dz == 0 && (a.z < lo.z || a.z > hi.z) {
        false
    } else {
        let e0 = (0, 1);
        let x0 = (1, 1);
        let e1 = if dx != 0 {
            frac_max(e0.0, e0.1, slab_entry(a.x, dx, lo.x, hi.x), if dx > 0 {
                dx
            } else {
                -dx
            })
        } else {
            e0
        };
        let x1 = if dx != 0 {
            frac_min(x0.0, x0.1, slab_exit(a.x, dx, lo.x, hi.x), if dx > 0 {
                dx
            } else {
                -dx
            })
        } else {
            x0
        };
        let e2 = if dy != 0 {
            frac_max(e1.0, e1.1, slab_entry(a.y, dy, lo.y, hi.y), if dy > 0 {
                dy
            } else {
                -dy
            })
        } else {
            e1
        };
        let x2 = if dy != 0 {
            frac_min(x1.0, x1.1, slab_exit(a.y, dy, lo.y, hi.y), if dy > 0 {
                dy
            } else {
                -dy
            })
        } else {
            x1
        };
        let e3 = if dz != 0 {
            frac_max(e2.0, e2.1, slab_entry(a.z, dz, lo.z, hi.z), if dz > 0 {
                dz
            } else {
                -dz
            })
        } else {
            e2
        };
        let x3 = if dz != 0 {
            frac_min(x2.0, x2.1, slab_exit(a.z, dz, lo.z, hi.z), if dz > 0 {
                dz
            } else {
                -dz
            })
        } else {
            x2
        };
        frac_le(e3.0, e3.1, x3.0, x3.1)
    }
}

/// The segment from `a` to `b` meets the collider owned by `t`.
pub open spec fn collider_hit(a: IVec3, b: IVec3, t: Transform, col: Collider) -> bool {
    let c = collider_center(t, col);
    match col.hitbox.shape {
        ColliderShape::Sphere(r) => seg_hits_sphere(a, b, c, r as int),
        ColliderShape::Cuboid(h) => seg_hits_aabb(
            a,
            b,
            IVec3 { x: c.x - h.x, y: c.y - h.y, z: c.z - h.z },
            IVec3 { x: c.x + h.x, y: c.y + h.y, z: c.z + h.z },
        ),
    }
}

/// The ordering parameter of a collider along the ray from `a` to `b`:
/// the parameter of closest approach of the segment to the collider's
/// center, clamped to the segment, as a numerator over the shared
/// denominator `|b - a|^2`. A hit is "strictly beyond the origin" when
/// this numerator is positive.
pub open spec fn ray_param_num(a: IVec3, b: IVec3, c: IVec3) -> int {
    let d = ivsub(b, a);
    let f = ivsub(a, c);
    let fd = ivdot(f, d);
    let dd = ivdot(d, d);
    if -fd <= 0 {
        0
    } else if -fd >= dd {
        dd
    } else {
        -fd
    }
}

/// The collider's category is admitted by the requested set (an empty
/// request admits every category).
pub open spec fn cat_ok(c: u32, cats: Seq<u32>) -> bool {
    cats.len() == 0 || cats.contains(c)
}

/// Slot `j` of `w` holds a live collider the ray from `a` to `b` hits,
/// strictly beyond the origin, within the requested categories.
pub open spec fn ray_candidate(w: World, cats: Seq<u32>, a: IVec3, b: IVec3, j: int) -> bool {
    &&& 0 <= j < w.slots@.len()
    &&& w.slots@[j].alive
    &&& w.slots@[j].transform is Some
    &&& w.slots@[j].collider is Some
    &&& cat_ok(w.slots@[j].collider->Some_0.category, cats)
    &&& collider_hit(a, b, w.slots@[j].transform->Some_0, w.slots@[j].collider->Some_0)
    &&& ray_param_num(
        a,
        b,
        collider_center(w.slots@[j].transform->Some_0, w.slots@[j].collider->Some_0),
    ) > 0
}

/// Two colliders may interact: each one's category is present in the
/// other's mask (the symmetric check both sides must pass).
pub open spec fn spec_colliders_interact(a: Collider, b: Collider) -> bool {
    a.category & b.mask != 0 && b.category & a.mask != 0
}

/// Symmetric category/mask admission test for a collider pair.
pub fn colliders_interact(a: &Collider, b: &Collider) -> (r: bool)
    ensures
        r == spec_colliders_interact(*a, *b),
{
    (a.category & b.mask != 0) && (b.category & a.mask != 0)
}

fn seg_hits_sphere_exec(a: Vec3, b: Vec3, c: Vec3, r: i64) -> (res: bool)
    requires
        a.in_bounds(2 * COORD_LIMIT as int),
        b.in_bounds(2 * COORD_LIMIT as int),
        c.in_bounds(2 * COORD_LIMIT as int),
        0 <= r <= COORD_LIMIT,
    ensures
        res == seg_hits_sphere(a.iv(), b.iv(), c.iv(), r as int),
{
    let dx: i128 = b.x as i128 - a.x as i128;
    let dy: i128 = b.y as i128 - a.y as i128;
    let dz: i128 = b.z as i128 - a.z as i128;
    let fx: i128 = a.x as i128 - c.x as i128;
    let fy: i128 = a.y as i128 - c.y as i128;
    let fz: i128 = a.z as i128 - c.z as i128;
    proof {
        assert(-0x40000000 <= dx <= 0x40000000 && -0x40000000 <= dy <= 0x40000000 && -0x40000000
            <= dz <= 0x40000000);
        assert(-0x40000000 <= fx <= 0x40000000 && -0x40000000 <= fy <= 0x40000000 && -0x40000000
            <= fz <= 0x40000000);
        assert({
            &&& -0x1000000000000000 <= dx * dx <= 0x1000000000000000
            &&& -0x1000000000000000 <= dy * dy <= 0x1000000000000000
            &&& -0x1000000000000000 <= dz * dz <= 0x1000000000000000
            &&& -0x1000000000000000 <= fx * dx <= 0x1000000000000000
            &&& -0x1000000000000000 <= fy * dy <= 0x1000000000000000
            &&& -0x1000000000000000 <= fz * dz <= 0x1000000000000000
            &&& -0x1000000000000000 <= fx * fx <= 0x1000000000000000
            &&& -0x1000000000000000 <= fy * fy <= 0x1000000000000000
            &&& -0x1000000000000000 <= fz * fz <= 0x1000000000000000
            &&& -0x1000000000000000 <= r as i128 * r as i128 <= 0x1000000000000000
        }) by (nonlinear_arith)
            requires
                -0x40000000 <= dx <= 0x40000000,
                -0x40000000 <= dy <= 0x40000000,
                -0x40000000 <= dz <= 0x40000000,
                -0x40000000 <= fx <= 0x40000000,
                -0x40000000 <= fy <= 0x40000000,
                -0x40000000 <= fz <= 0x40000000,
                0 <= r <= COORD_LIMIT,
        ;
    }
    let dd: i128 = dx * dx + dy * dy + dz * dz;
    let fd: i128 = fx * dx + fy * dy + fz * dz;
    let ff: i128 = fx * fx + fy * fy + fz * fz;
    let rr: i128 = r as i128 * r as i128;
    if fd >= 0 {
        ff <= rr
    } else if -fd >= dd {
        let gx: i128 = b.x as i128 - c.x as i128;
        let gy: i128 = b.y as i128 - c.y as i128;
        let gz: i128 = b.z as i128 - c.z as i128;
        proof {
            assert({
                &&& -0x1000000000000000 <= gx * gx <= 0x1000000000000000
                &&& -0x1000000000000000 <= gy * gy <= 0x1000000000000000
                &&& -0x1000000000000000 <= gz * gz <= 0x1000000000000000
            }) by (nonlinear_arith)
                requires
                    -0x40000000 <= gx <= 0x40000000,
                    -0x40000000 <= gy <= 0x40000000,
                    -0x40000000 <= gz <= 0x40000000,
            ;
        }
        let gg: i128 = gx * gx + gy * gy + gz * gz;
        gg <= rr
    } else {
        proof {
            assert({
                &&& -0x40000000000000000000000000000000 <= fd * fd
                    <= 0x40000000000000000000000000000000
                &&& -0x40000000000000000000000000000000 <= dd * (ff - rr)
                    <= 0x40000000000000000000000000000000
            }) by (nonlinear_arith)
                requires
                    -0x4000000000000000 <= fd <= 0x4000000000000000,
                    0 <= dd <= 0x4000000000000000,
                    -0x8000000000000000 <= ff - rr <= 0x8000000000000000,
            ;
        }
        fd * fd >= dd * (ff - rr)
    }
}

fn frac_le_exec(an: i128, ad: i128, bn: i128, bd: i128) -> (r: bool)
    requires
        -0x100000000 <= an <= 0x100000000,
        0 < ad <= 0x100000000,
        -0x100000000 <= bn <= 0x100000000,
        0 < bd <= 0x100000000,
    ensures
        r == frac_le(an as int, ad as int, bn as int, bd as int),
{
    proof {
        assert({
            &&& -0x10000000000000000 <= an * bd <= 0x10000000000000000
            &&& -0x10000000000000000 <= bn * ad <= 0x10000000000000000
        }) by (nonlinear_arith)
            requires
                -0x100000000 <= an <= 0x100000000,
                0 < ad <= 0x100000000,
                -0x100000000 <= bn <= 0x100000000,
                0 < bd <= 0x100000000,
        ;
    }
    an * bd <= bn * ad
}

fn seg_hits_aabb_exec(a: Vec3, b: Vec3, lo: Vec3, hi: Vec3) -> (res: bool)
    requires
        a.in_bounds(2 * COORD_LIMIT as int),
        b.in_bounds(2 * COORD_LIMIT as int),
        lo.in_bounds(4 * COORD_LIMIT as int),
        hi.in_bounds(4 * COORD_LIMIT as int),
    ensures
        res == seg_hits_aabb(a.iv(), b.iv(), lo.iv(), hi.iv()),
{
    let dx: i128 = b.x as i128 - a.x as i128;
    let dy: i128 = b.y as i128 - a.y as i128;
    let dz: i128 = b.z as i128 - a.z as i128;
    if dx == 0 && (a.x < lo.x || a.x > hi.x) {
        return false;
    }
    if dy == 0 && (a.y < lo.y || a.y > hi.y) {
        return false;
    }
    if dz == 0 && (a.z < lo.z || a.z > hi.z) {
        return false;
    }
    let mut en: i128 = 0;
    let mut ed: i128 = 1;
    let mut xn: i128 = 1;
    let mut xd: i128 = 1;
    let ghost e0 = (0int, 1int);
    let ghost x0 = (1int, 1int);
    if dx != 0 {
        let den: i128 = if dx > 0 {
            dx
        } else {
            -dx
        };
        let n1: i128 = if dx > 0 {
            lo.x as i128 - a.x as i128
        } else {
            a.x as i128 - hi.x as i128
        };
        let n2: i128 = if dx > 0 {
            hi.x as i128 - a.x as i128
        } else {
            a.x as i128 - lo.x as i128
        };
        if frac_le_exec(en, ed, n1, den) {
            en = n1;
            ed = den;
        }
        if !frac_le_exec(xn, xd, n2, den) {
            xn = n2;
            xd = den;
        }
    }
    let ghost e1 = if a.iv().x != b.iv().x {
        frac_max(e0.0, e0.1, slab_entry(a.iv().x, b.iv().x - a.iv().x, lo.iv().x, hi.iv().x), if b.iv().x - a.iv().x > 0 {
            b.iv().x - a.iv().x
        } else {
            a.iv().x - b.iv().x
        })
    } else {
        e0
    };
    let ghost x1 = if a.iv().x != b.iv().x {
        frac_min(x0.0, x0.1, slab_exit(a.iv().x, b.iv().x - a.iv().x, lo.iv().x, hi.iv().x), if b.iv().x - a.iv().x > 0 {
            b.iv().x - a.iv().x
        } else {
            a.iv().x - b.iv().x
        })
    } else {
        x0
    };
    proof {
        assert(en == e1.0 && ed == e1.1 && xn == x1.0 && xd == x1.1);
    }
    if dy != 0 {
        let den: i128 = if dy > 0 {
            dy
        } else {
            -dy
        };
        let n1: i128 = if dy > 0 {
            lo.y as i128 - a.y as i128
        } else {
            a.y as i128 - hi.y as i128
        };
        let n2: i128 = if dy > 0 {
            hi.y as i128 - a.y as i128
        } else {
            a.y as i128 - lo.y as i128
        };
        if frac_le_exec(en, ed, n1, den) {
            en = n1;
            ed = den;
        }
        if !frac_le_exec(xn, xd, n2, den) {
            xn = n2;
            xd = den;
        }
    }
    let ghost e2 = if a.iv().y != b.iv().y {
        frac_max(e1.0, e1.1, slab_entry(a.iv().y, b.iv().y - a.iv().y, lo.iv().y, hi.iv().y), if b.iv().y - a.iv().y > 0 {
            b.iv().y - a.iv().y
        } else {
            a.iv().y - b.iv().y
        })
    } else {
        e1
    };
    let ghost x2 = if a.iv().y != b.iv().y {
        frac_min(x1.0, x1.1, slab_exit(a.iv().y, b.iv().y - a.iv().y, lo.iv().y, hi.iv().y), if b.iv().y - a.iv().y > 0 {
            b.iv().y - a.iv().y
        } else {
            a.iv().y - b.iv().y
        })
    } else {
        x1
    };
    proof {
        assert(en == e2.0 && ed == e2.1 && xn == x2.0 && xd == x2.1);
    }
    if dz != 0 {
        let den: i128 = if dz > 0 {
            dz
        } else {
            -dz
        };
        let n1: i128 = if dz > 0 {
            lo.z as i128 - a.z as i128
        } else {
            a.z as i128 - hi.z as i128
        };
        let n2: i128 = if dz > 0 {
            hi.z as i128 - a.z as i128
        } else {
            a.z as i128 - lo.z as i128
        };
        if frac_le_exec(en, ed, n1, den) {
            en = n1;
            ed = den;
        }
        if !frac_le_exec(xn, xd, n2, den) {
            xn = n2;
            xd = den;
        }
    }
    let ghost e3 = if a.iv().z != b.iv().z {
        frac_max(e2.0, e2.1, slab_entry(a.iv().z, b.iv().z - a.iv().z, lo.iv().z, hi.iv().z), if b.iv().z - a.iv().z > 0 {
            b.iv().z - a.iv().z
        } else {
            a.iv().z - b.iv().z
        })
    } else {
        e2
    };
    let ghost x3 = if a.iv().z != b.iv().z {
        frac_min(x2.0, x2.1, slab_exit(a.iv().z, b.iv().z - a.iv().z, lo.iv().z, hi.iv().z), if b.iv().z - a.iv().z > 0 {
            b.iv().z - a.iv().z
        } else {
            a.iv().z - b.iv().z
        })
    } else {
        x2
    };
    proof {
        assert(en == e3.0 && ed == e3.1 && xn == x3.0 && xd == x3.1);
    }
    frac_le_exec(en, ed, xn, xd)
}

/// World-space center of a collider, in executable form.
fn collider_center_exec(t: &Transform, col: &Collider) -> (c: Vec3)
    requires
        t.wf(),
        col.wf(),
    ensures
        c.iv() == collider_center(*t, *col),
        c.in_bounds(2 * COORD_LIMIT as int),
{
    Vec3 {
        x: t.position.x + col.hitbox.offset.x,
        y: t.position.y + col.hitbox.offset.y,
        z: t.position.z + col.hitbox.offset.z,
    }
}

/// Narrow-phase test of one collider against the segment.
fn collider_hit_exec(origin: Vec3, target: Vec3, t: &Transform, col: &Collider) -> (r: bool)
    requires
        t.wf(),
        col.wf(),
        origin.in_bounds(2 * COORD_LIMIT as int),
        target.in_bounds(2 * COORD_LIMIT as int),
    ensures
        r == collider_hit(origin.iv(), target.iv(), *t, *col),
{
    let c = collider_center_exec(t, col);
    match col.hitbox.shape {
        ColliderShape::Sphere(rad) => seg_hits_sphere_exec(origin, target, c, rad),
        ColliderShape::Cuboid(h) => {
            let lo = Vec3 { x: c.x - h.x, y: c.y - h.y, z: c.z - h.z };
            let hi = Vec3 { x: c.x + h.x, y: c.y + h.y, z: c.z + h.z };
            seg_hits_aabb_exec(origin, target, lo, hi)
        },
    }
}

/// The ordering numerator of a collider center along the ray.
fn ray_param_exec(origin: Vec3, target: Vec3, c: Vec3) -> (p: i128)
    requires
        origin.in_bounds(2 * COORD_LIMIT as int),
        target.in_bounds(2 * COORD_LIMIT as int),
        c.in_bounds(2 * COORD_LIMIT as int),
    ensures
        p == ray_param_num(origin.iv(), target.iv(), c.iv()),
{
    let dx: i128 = target.x as i128 - origin.x as i128;
    let dy: i128 = target.y as i128 - origin.y as i128;
    let dz: i128 = target.z as i128 - origin.z as i128;
    let fx: i128 = origin.x as i128 - c.x as i128;
    let fy: i128 = origin.y as i128 - c.y as i128;
    let fz: i128 = origin.z as i128 - c.z as i128;
    proof {
        assert({
            &&& -0x1000000000000000 <= fx * dx <= 0x1000000000000000
            &&& -0x1000000000000000 <= fy * dy <= 0x1000000000000000
            &&& -0x1000000000000000 <= fz * dz <= 0x1000000000000000
            &&& -0x1000000000000000 <= dx * dx <= 0x1000000000000000
            &&& -0x1000000000000000 <= dy * dy <= 0x1000000000000000
            &&& -0x1000000000000000 <= dz * dz <= 0x1000000000000000
        }) by (nonlinear_arith)
            requires
                -0x40000000 <= dx <= 0x40000000,
                -0x40000000 <= dy <= 0x40000000,
                -0x40000000 <= dz <= 0x40000000,
                -0x40000000 <= fx <= 0x40000000,
                -0x40000000 <= fy <= 0x40000000,
                -0x40000000 <= fz <= 0x40000000,
        ;
    }
    let fd: i128 = fx * dx + fy * dy + fz * dz;
    let dd: i128 = dx * dx + dy * dy + dz * dz;
    if -fd <= 0 {
        0
    } else if -fd >= dd {
        dd
    } else {
        -fd
    }
}

fn contains_u32(v: &Vec<u32>, c: u32) -> (r: bool)
    ensures
        r == v@.contains(c),
{
    let n = v.len();
    let mut i: usize = 0;
    while i < n
        invariant
            i <= n == v@.len(),
            forall|m: int| 0 <= m < i ==> v@[m] != c,
        decreases n - i,
    {
        if v[i] == c {
            return true;
        }
        i += 1;
    }
    false
}

/// Ordering numerator of the collider in slot `j` along the ray.
pub open spec fn param_at(w: World, a: IVec3, b: IVec3, j: int) -> int {
    ray_param_num(
        a,
        b,
        collider_center(w.slots@[j].transform->Some_0, w.slots@[j].collider->Some_0),
    )
}

/// `v` clamped into `[lo, hi]`.
pub open spec fn iclamp(v: int, lo: int, hi: int) -> int {
    if v < lo {
        lo
    } else if v > hi {
        hi
    } else {
        v
    }
}

/// Squared distance from point `p` to the box `[lo, hi]`.
pub open spec fn point_box_dist2(p: IVec3, lo: IVec3, hi: IVec3) -> int {
    let qx = p.x - iclamp(p.x, lo.x, hi.x);
    let qy = p.y - iclamp(p.y, lo.y, hi.y);
    let qz = p.z - iclamp(p.z, lo.z, hi.z);
    qx * qx + qy * qy + qz * qz
}

/// The query sphere at `c` with radius `rad` overlaps the collider.
pub open spec fn area_hit(c: IVec3, rad: int, t: Transform, col: Collider) -> bool {
    let ctr = collider_center(t, col);
    match col.hitbox.shape {
        ColliderShape::Sphere(r) => ivdot(ivsub(c, ctr), ivsub(c, ctr)) <= (rad + r) * (rad + r),
        ColliderShape::Cuboid(h) => point_box_dist2(
            c,
            IVec3 { x: ctr.x - h.x, y: ctr.y - h.y, z: ctr.z - h.z },
            IVec3 { x: ctr.x + h.x, y: ctr.y + h.y, z: ctr.z + h.z },
        ) <= rad * rad,
    }
}

/// Slot `j` of `w` holds a live collider overlapping the query sphere,
/// within the requested categories.
pub open spec fn area_candidate(w: World, cats: Seq<u32>, c: IVec3, rad: int, j: int) -> bool {
    &&& 0 <= j < w.slots@.len()
    &&& w.slots@[j].alive
    &&& w.slots@[j].transform is Some
    &&& w.slots@[j].collider is Some
    &&& cat_ok(w.slots@[j].collider->Some_0.category, cats)
    &&& area_hit(c, rad, w.slots@[j].transform->Some_0, w.slots@[j].collider->Some_0)
}

/// The entities an area query returns: every candidate among the first
/// `upto` slots, in slot order.
pub open spec fn area_list(w: World, cats: Seq<u32>, c: IVec3, rad: int, upto: int) -> Seq<Entity>
    decreases upto,
{
    if upto <= 0 {
        Seq::empty()
    } else {
        area_list(w, cats, c, rad, upto - 1) + if area_candidate(w, cats, c, rad, upto - 1) {
            seq![Entity { idx: (upto - 1) as usize, gen: w.slots@[upto - 1].gen }]
        } else {
            Seq::empty()
        }
    }
}

fn area_hit_exec(c: Vec3, rad: i64, t: &Transform, col: &Collider) -> (r: bool)
    requires
        t.wf(),
        col.wf(),
        c.in_bounds(COORD_LIMIT as int),
        0 <= rad <= COORD_LIMIT,
    ensures
        r == area_hit(c.iv(), rad as int, *t, *col),
{
    let ctr = collider_center_exec(t, col);
    match col.hitbox.shape {
        ColliderShape::Sphere(sr) => {
            let ux: i128 = c.x as i128 - ctr.x as i128;
            let uy: i128 = c.y as i128 - ctr.y as i128;
            let uz: i128 = c.z as i128 - ctr.z as i128;
            let rs: i128 = rad as i128 + sr as i128;
            proof {
                assert({
                    &&& -0x1000000000000000 <= ux * ux <= 0x1000000000000000
                    &&& -0x1000000000000000 <= uy * uy <= 0x1000000000000000
                    &&& -0x1000000000000000 <= uz * uz <= 0x1000000000000000
                    &&& -0x1000000000000000 <= rs * rs <= 0x1000000000000000
                }) by (nonlinear_arith)
                    requires
                        -0x40000000 <= ux <= 0x40000000,
                        -0x40000000 <= uy <= 0x40000000,
                        -0x40000000 <= uz <= 0x40000000,
                        -0x40000000 <= rs <= 0x40000000,
                ;
            }
            ux * ux + uy * uy + uz * uz <= rs * rs
        },
        ColliderShape::Cuboid(h) => {
            let lox: i128 = ctr.x as i128 - h.x as i128;
            let loy: i128 = ctr.y as i128 - h.y as i128;
            let loz: i128 = ctr.z as i128 - h.z as i128;
            let hix: i128 = ctr.x as i128 + h.x as i128;
            let hiy: i128 = ctr.y as i128 + h.y as i128;
            let hiz: i128 = ctr.z as i128 + h.z as i128;
            let px: i128 = c.x as i128;
            let py: i128 = c.y as i128;
            let pz: i128 = c.z as i128;
            let qx: i128 = px - if px < lox {
                lox
            } else if px > hix {
                hix
            } else {
                px
            };
            let qy: i128 = py - if py < loy {
                loy
            } else if py > hiy {
                hiy
            } else {
                py
            };
            let qz: i128 = pz - if pz < loz {
                loz
            } else if pz > hiz {
                hiz
            } else {
                pz
            };
            proof {
                assert({
                    &&& -0x10000000000000000 <= qx * qx <= 0x10000000000000000
                    &&& -0x10000000000000000 <= qy * qy <= 0x10000000000000000
                    &&& -0x10000000000000000 <= qz * qz <= 0x10000000000000000
                    &&& -0x10000000000000000 <= rad as i128 * rad as i128 <= 0x10000000000000000
                }) by (nonlinear_arith)
                    requires
                        -0x100000000 <= qx <= 0x100000000,
                        -0x100000000 <= qy <= 0x100000000,
                        -0x100000000 <= qz <= 0x100000000,
                        0 <= rad as i128 <= 0x10000000,
                ;
            }
            qx * qx + qy * qy + qz * qz <= rad as i128 * rad as i128
        },
    }
}

impl World {
    /// Nearest-hit ray query: among all live colliders whose category is
    /// admitted (an empty list admits all), whose shape the segment from
    /// `origin` to `target` meets, and whose ordering parameter along
    /// the ray is strictly beyond the origin, the one nearest to the
    /// origin (ties broken toward the lowest slot index); `None` when no
    /// collider qualifies.
    pub fn raycast(&self, categories: &Vec<u32>, origin: Vec3, target: Vec3) -> (r: Option<
        Entity,
    >)
        requires
            self.wf(),
            origin.in_bounds(2 * COORD_LIMIT as int),
            target.in_bounds(2 * COORD_LIMIT as int),
        ensures
            match r {
                Some(e) => {
                    &&& ray_candidate(*self, categories@, origin.iv(), target.iv(), e.idx as int)
                    &&& self.spec_alive(e)
                    &&& forall|j: int|
                        ray_candidate(*self, categories@, origin.iv(), target.iv(), j)
                            ==> param_at(*self, origin.iv(), target.iv(), e.idx as int) < param_at(
                            *self,
                            origin.iv(),
                            target.iv(),
                            j,
                        ) || (param_at(*self, origin.iv(), target.iv(), e.idx as int) == param_at(
                            *self,
                            origin.iv(),
                            target.iv(),
                            j,
                        ) && e.idx <= j)
                },
                None => forall|j: int|
                    !ray_candidate(*self, categories@, origin.iv(), target.iv(), j),
            },
    {
        let ghost a = origin.iv();
        let ghost b = target.iv();
        let ghost cats = categories@;
        let n = self.slots.len();
        let mut best: Option<Entity> = None;
        let mut best_p: i128 = 0;
        let mut i: usize = 0;
        while i < n
            invariant
                self.wf(),
                i <= n == self.slots@.len(),
                a == origin.iv(),
                b == target.iv(),
                cats == categories@,
                origin.in_bounds(2 * COORD_LIMIT as int),
                target.in_bounds(2 * COORD_LIMIT as int),
                match best {
                    None => forall|j: int| 0 <= j < i ==> !ray_candidate(*self, cats, a, b, j),
                    Some(e) => {
                        &&& e.idx < i
                        &&& ray_candidate(*self, cats, a, b, e.idx as int)
                        &&& self.spec_alive(e)
                        &&& best_p == param_at(*self, a, b, e.idx as int)
                        &&& forall|j: int|
                            0 <= j < i && ray_candidate(*self, cats, a, b, j) ==> best_p < param_at(
                                *self,
                                a,
                                b,
                                j,
                            ) || (best_p == param_at(*self, a, b, j) && e.idx <= j)
                    },
                },
            decreases n - i,
        {
            let s = self.slots[i];
            if s.alive && s.transform.is_some() && s.collider.is_some() {
                let t = s.transform.unwrap();
                let col = s.collider.unwrap();
                let catok = categories.len() == 0 || contains_u32(categories, col.category);
                if catok && collider_hit_exec(origin, target, &t, &col) {
                    let c = collider_center_exec(&t, &col);
                    let p = ray_param_exec(origin, target, c);
                    if p > 0 {
                        let better = match best {
                            None => true,
                            Some(_) => p < best_p,
                        };
                        if better {
                            best = Some(Entity { idx: i, gen: s.gen });
                            best_p = p;
                        }
                    }
                }
            }
            i += 1;
        }
        best
    }

    /// Area query: all live colliders overlapping the sphere of radius
    /// `radius` at `center`, filtered by the requested categories (an
    /// empty list admits all), in slot order.
    pub fn query_area(&self, categories: &Vec<u32>, center: Vec3, radius: i64) -> (r: Vec<Entity>)
        requires
            self.wf(),
            center.in_bounds(COORD_LIMIT as int),
            0 <= radius <= COORD_LIMIT,
        ensures
            r@ == area_list(
                *self,
                categories@,
                center.iv(),
                radius as int,
                self.slots@.len() as int,
            ),
    {
        let ghost c = center.iv();
        let ghost cats = categories@;
        let n = self.slots.len();
        let mut out: Vec<Entity> = Vec::new();
        let mut i: usize = 0;
        while i < n
            invariant
                self.wf(),
                i <= n == self.slots@.len(),
                c == center.iv(),
                cats == categories@,
                center.in_bounds(COORD_LIMIT as int),
                0 <= radius <= COORD_LIMIT,
                out@ == area_list(*self, cats, c, radius as int, i as int),
            decreases n - i,
        {
            let s = self.slots[i];
            if s.alive && s.transform.is_some() && s.collider.is_some() {
                let t = s.transform.unwrap();
                let col = s.collider.unwrap();
                let catok = categories.len() == 0 || contains_u32(categories, col.category);
                if catok && area_hit_exec(center, radius, &t, &col) {
                    out.push(Entity { idx: i, gen: s.gen });
                    proof {
                        assert(out@ =~= area_list(*self, cats, c, radius as int, i + 1));
                    }
                } else {
                    proof {
                        assert(out@ =~= area_list(*self, cats, c, radius as int, i + 1));
                    }
                }
            } else {
                proof {
                    assert(out@ =~= area_list(*self, cats, c, radius as int, i + 1));
                }
            }
            i += 1;
        }
        out
    }
}

} // verus!
