use crate::rank::{below, is_number, less, of_bits, rank_of};
use crate::vec::Vec3;
use vstd::prelude::*;

verus! {

/// The two parameters at which the line of a ray meets a sphere.
///
/// Parameters are held as ranks (see `rank`): which root counts depends on
/// their order alone.
#[derive(Clone, Copy, Debug, PartialEq, Eq, Structural)]
pub struct Roots {
    /// The smaller root, where the ray enters.
    pub near: i64,
    /// The larger root, where the ray leaves.
    pub far: i64,
}

/// Whether `t` lies in the window `(t_min, t_max]`, open below and closed
/// above.
pub open spec fn in_window(t: i64, t_min: i64, t_max: i64) -> bool {
    t_min < t && t <= t_max
}

impl Roots {
    /// The smaller root comes first.
    pub open spec fn wf(self) -> bool {
        self.near <= self.far
    }

    /// The root that an intersection test over `(t_min, t_max]` accepts: the
    /// smaller one if the window holds it, else the larger one if the window
    /// holds that, else none.
    pub open spec fn accepted(self, t_min: i64, t_max: i64) -> Option<i64> {
        if in_window(self.near, t_min, t_max) {
            Some(self.near)
        } else if in_window(self.far, t_min, t_max) {
            Some(self.far)
        } else {
            None
        }
    }

    /// The two roots in order.
    pub open spec fn sorted(a: i64, b: i64) -> Roots {
        if a <= b {
            Roots { near: a, far: b }
        } else {
            Roots { near: b, far: a }
        }
    }

    /// Orders two roots, given in either order.
    pub fn new(a: i64, b: i64) -> (r: Roots)
        ensures
            r == Self::sorted(a, b),
            r.wf(),
    {
        if a <= b {
            Roots { near: a, far: b }
        } else {
            Roots { near: b, far: a }
        }
    }

    /// The roots of a ray's line with a sphere, from the binary64 patterns
    /// of the discriminant and of the two solutions of the quadratic. A
    /// negative discriminant means that the line passes the sphere by, and
    /// a solution that is no number is no root.
    pub fn of_bits(discriminant: u64, a: u64, b: u64) -> (r: Option<Roots>)
        ensures
            r is Some <==> !below(discriminant, 0) && is_number(a) && is_number(b),
            r matches Some(roots) ==> roots.wf() && roots == Self::sorted(
                rank_of(a) as i64,
                rank_of(b) as i64,
            ),
    {
        if less(discriminant, 0) {
            return None;
        }
        match (of_bits(a), of_bits(b)) {
            (Some(rank_a), Some(rank_b)) => Some(Roots::new(rank_a, rank_b)),
            _ => None,
        }
    }

    /// Tests the roots against the window `(t_min, t_max]`, the smaller root
    /// first.
    pub fn hit(&self, t_min: i64, t_max: i64) -> (r: Option<i64>)
        ensures
            r == self.accepted(t_min, t_max),
            r matches Some(t) ==> in_window(t, t_min, t_max),
    {
        if t_min < self.near && self.near <= t_max {
            Some(self.near)
        } else if t_min < self.far && self.far <= t_max {
            Some(self.far)
        } else {
            None
        }
    }
}

/// A window that holds one of the two roots always gives a hit, and the
/// hit is the smallest root that the window holds.
pub proof fn lemma_accepted_is_nearest(roots: Roots, t_min: i64, t_max: i64)
    requires
        roots.wf(),
        in_window(roots.near, t_min, t_max) || in_window(roots.far, t_min, t_max),
    ensures
        roots.accepted(t_min, t_max) matches Some(t) && in_window(t, t_min, t_max) && (t
            == roots.near || t == roots.far) && (in_window(roots.near, t_min, t_max) ==> t
            <= roots.near) && (in_window(roots.far, t_min, t_max) ==> t <= roots.far),
{
}

/// A window that holds neither root gives no hit.
pub proof fn lemma_outside_window_misses(roots: Roots, t_min: i64, t_max: i64)
    requires
        !in_window(roots.near, t_min, t_max),
        !in_window(roots.far, t_min, t_max),
    ensures
        roots.accepted(t_min, t_max) is None,
{
}

/// The side from which a ray meets a surface, and the surface normal turned
/// against the ray.
#[derive(Clone, Copy, Debug, PartialEq, Eq, Structural)]
pub struct Facing {
    /// The ray comes from outside: the outward normal opposes it.
    pub front_face: bool,
    /// The outward normal where the ray comes from outside, else its
    /// opposite.
    pub normal: Vec3,
}

/// Turns the normal of a hit against the ray. `dot` is the binary64
/// pattern of the dot product of the ray's direction with the outward
/// normal: the ray meets the front face where that is below zero.
pub fn facing(outward_normal: Vec3, dot: u64) -> (r: Facing)
    ensures
        r.front_face == below(dot, 0),
        r.front_face ==> r.normal == outward_normal,
        !r.front_face ==> r.normal == outward_normal.opposite(),
{
    if less(dot, 0) {
        Facing { front_face: true, normal: outward_normal }
    } else {
        Facing { front_face: false, normal: outward_normal.neg() }
    }
}

} // verus!
