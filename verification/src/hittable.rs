use crate::sphere::{in_window, Roots};
use vstd::prelude::*;

verus! {

/// The nearest intersection of a ray with a scene.
#[derive(Clone, Copy, Debug, PartialEq, Eq, Structural)]
pub struct Hit {
    /// The rank of the ray parameter at which the surface is met.
    pub t: i64,
    /// The place in the scene of the object that was hit. The object's
    /// material is looked up under it: a hit borrows, it never copies.
    pub index: usize,
}

impl Hit {
    pub fn new(t: i64, index: usize) -> (r: Hit)
        ensures
            r.t == t,
            r.index == index,
    {
        Hit { t, index }
    }
}

/// A scene as one ray sees it: for each object, in the scene's order, the
/// roots at which the ray's line meets it, or `None` where the line passes
/// the object by.
pub struct Hittables {
    pub list: Vec<Option<Roots>>,
}

impl Hittables {
    /// Every pair of roots is ordered.
    pub open spec fn wf(&self) -> bool {
        forall|i: int|
            0 <= i < self.list@.len() ==> match #[trigger] self.list@[i] {
                Some(roots) => roots.wf(),
                None => true,
            }
    }

    /// The parameter at which object `i` alone would be hit within
    /// `(t_min, t_max]`.
    pub open spec fn candidate(&self, i: int, t_min: i64, t_max: i64) -> Option<i64> {
        match self.list@[i] {
            Some(roots) => roots.accepted(t_min, t_max),
            None => None,
        }
    }

    /// No object is hit within `(t_min, t_max]`.
    pub open spec fn all_miss(&self, t_min: i64, t_max: i64) -> bool {
        forall|i: int|
            0 <= i < self.list@.len() ==> (#[trigger] self.candidate(i, t_min, t_max)) is None
    }

    /// `hit` is the nearest intersection within `(t_min, t_max]`: its object
    /// is hit at `hit.t`, no object is hit earlier, and no later object in
    /// the list is hit at the same parameter.
    pub open spec fn nearest(&self, hit: Hit, t_min: i64, t_max: i64) -> bool {
        &&& hit.index < self.list@.len()
        &&& self.candidate(hit.index as int, t_min, t_max) == Some(hit.t)
        &&& forall|j: int|
            0 <= j < self.list@.len() ==> match #[trigger] self.candidate(j, t_min, t_max) {
                Some(t) => hit.t <= t && (j > hit.index ==> hit.t < t),
                None => true,
            }
    }

    pub fn new() -> (r: Hittables)
        ensures
            r.list@.len() == 0,
            r.wf(),
    {
        Hittables { list: Vec::new() }
    }

    /// Scans the objects in order, each against the window that the hits so
    /// far have left open, and returns the nearest hit within
    /// `(t_min, t_max]`, or `None` where every object is missed.
    pub fn hit(&self, t_min: i64, t_max: i64) -> (r: Option<Hit>)
        requires
            self.wf(),
        ensures
            match r {
                Some(hit) => self.nearest(hit, t_min, t_max) && in_window(hit.t, t_min, t_max),
                None => self.all_miss(t_min, t_max),
            },
    {
        let mut closest: i64 = t_max;
        let mut current: Option<Hit> = None;
        let mut i: usize = 0;
        while i < self.list.len()
            invariant
                self.wf(),
                i <= self.list@.len(),
                match current {
                    Some(hit) => {
                        &&& closest == hit.t
                        &&& in_window(hit.t, t_min, t_max)
                        &&& hit.index < i
                        &&& self.candidate(hit.index as int, t_min, t_max) == Some(hit.t)
                        &&& forall|j: int|
                            0 <= j < i ==> match #[trigger] self.candidate(j, t_min, t_max) {
                                Some(t) => hit.t <= t && (j > hit.index ==> hit.t < t),
                                None => true,
                            }
                    },
                    None => {
                        &&& closest == t_max
                        &&& forall|j: int|
                            0 <= j < i ==> (#[trigger] self.candidate(j, t_min, t_max)) is None
                    },
                },
            decreases self.list@.len() - i,
        {
            match &self.list[i] {
                Some(roots) => {
                    match roots.hit(t_min, closest) {
                        Some(t) => {
                            closest = t;
                            current = Some(Hit::new(t, i));
                        },
                        None => {},
                    }
                },
                None => {},
            }
            i = i + 1;
        }
        current
    }
}

/// The parameter of the nearest hit depends on which objects the scene
/// holds, not on their order.
pub proof fn lemma_nearest_order_irrelevant(
    a: Hittables,
    b: Hittables,
    hit_a: Hit,
    hit_b: Hit,
    t_min: i64,
    t_max: i64,
)
    requires
        a.list@.to_multiset() == b.list@.to_multiset(),
        a.nearest(hit_a, t_min, t_max),
        b.nearest(hit_b, t_min, t_max),
    ensures
        hit_a.t == hit_b.t,
{
    a.list@.to_multiset_ensures();
    b.list@.to_multiset_ensures();
    let in_a = a.list@[hit_a.index as int];
    assert(a.list@.contains(in_a));
    assert(a.list@.to_multiset().count(in_a) > 0);
    assert(b.list@.to_multiset().count(in_a) > 0);
    assert(b.list@.contains(in_a));
    let j = choose|j: int| 0 <= j < b.list@.len() && b.list@[j] == in_a;
    assert(b.candidate(j, t_min, t_max) == Some(hit_a.t));
    let in_b = b.list@[hit_b.index as int];
    assert(b.list@.contains(in_b));
    assert(b.list@.to_multiset().count(in_b) > 0);
    assert(a.list@.to_multiset().count(in_b) > 0);
    assert(a.list@.contains(in_b));
    let k = choose|k: int| 0 <= k < a.list@.len() && a.list@[k] == in_b;
    assert(a.candidate(k, t_min, t_max) == Some(hit_b.t));
}

/// Whether a ray misses the whole scene does not depend on the order of
/// the objects either.
pub proof fn lemma_miss_order_irrelevant(a: Hittables, b: Hittables, t_min: i64, t_max: i64)
    requires
        a.list@.to_multiset() == b.list@.to_multiset(),
        a.all_miss(t_min, t_max),
    ensures
        b.all_miss(t_min, t_max),
{
    a.list@.to_multiset_ensures();
    b.list@.to_multiset_ensures();
    assert forall|i: int| 0 <= i < b.list@.len() implies (#[trigger] b.candidate(
        i,
        t_min,
        t_max,
    )) is None by {
        let in_b = b.list@[i];
        assert(b.list@.contains(in_b));
        assert(b.list@.to_multiset().count(in_b) > 0);
        assert(a.list@.to_multiset().count(in_b) > 0);
        assert(a.list@.contains(in_b));
        let k = choose|k: int| 0 <= k < a.list@.len() && a.list@[k] == in_b;
        assert(a.candidate(k, t_min, t_max) is None);
    }
}

} // verus!
