//! A scene: a list of spheres, struck where the nearest one is.

use vstd::prelude::*;
use crate::scalar::Scalar;
use crate::hittable::HitRecord;
use crate::sphere::{Solved, Sphere};

verus! {

/// The objects of a scene, in the order they were added.
#[derive(Clone, Debug)]
pub struct HittableList {
    objects: Vec<Sphere>,
}

impl View for HittableList {
    type V = Seq<Sphere>;

    closed spec fn view(&self) -> Seq<Sphere> {
        self.objects@
    }
}

/// The upper end of the interval that is left once `best` was found: the
/// parameter of `best`, or `t_max` while nothing was hit.
pub open spec fn closest_so_far(best: Option<HitRecord>, t_max: Scalar) -> Scalar {
    match best {
        Some(rec) => rec.t,
        None => t_max,
    }
}

/// The hit that a scan of the first `n` objects ends with. Each object is
/// asked for a hit between `t_min` and the closest hit so far, and a hit it
/// reports takes the place of that one.
pub open spec fn scan(
    objects: Seq<Sphere>,
    solved: Seq<Solved>,
    t_min: Scalar,
    t_max: Scalar,
    n: nat,
) -> Option<HitRecord>
    decreases n,
{
    if n == 0 {
        None
    } else {
        let before = scan(objects, solved, t_min, t_max, (n - 1) as nat);
        let found = objects[n - 1].spec_hit(solved[n - 1], t_min, closest_so_far(before, t_max));
        if found is Some {
            found
        } else {
            before
        }
    }
}

/// The least of the hits that the first `n` objects report when each is asked
/// alone for a hit within `[t_min, t_max]`; of two with equal parameters, that
/// of the later object.
pub open spec fn linear_minimum(
    objects: Seq<Sphere>,
    solved: Seq<Solved>,
    t_min: Scalar,
    t_max: Scalar,
    n: nat,
) -> Option<HitRecord>
    decreases n,
{
    if n == 0 {
        None
    } else {
        let before = linear_minimum(objects, solved, t_min, t_max, (n - 1) as nat);
        let found = objects[n - 1].spec_hit(solved[n - 1], t_min, t_max);
        match (before, found) {
            (_, None) => before,
            (None, Some(_)) => found,
            (Some(b), Some(f)) => if f.t.le(b.t) {
                found
            } else {
                before
            },
        }
    }
}

impl HittableList {
    /// The empty scene.
    pub fn zeros() -> (list: Self)
        ensures
            list@ == Seq::<Sphere>::empty(),
    {
        HittableList { objects: Vec::new() }
    }

    /// The scene of one object.
    pub fn new(object: Sphere) -> (list: Self)
        ensures
            list@ == seq![object],
    {
        let mut objects = Vec::new();
        objects.push(object);
        HittableList { objects }
    }

    /// Removes every object.
    pub fn clear(&mut self)
        ensures
            final(self)@ == Seq::<Sphere>::empty(),
    {
        self.objects.clear();
    }

    /// Adds `object` behind the others.
    pub fn add(&mut self, object: Sphere)
        ensures
            final(self)@ == old(self)@.push(object),
    {
        self.objects.push(object);
    }

    /// The objects, in the order they were added.
    pub fn objects(&self) -> (objects: &Vec<Sphere>)
        ensures
            objects@ == self@,
    {
        &self.objects
    }

    /// The nearest hit of a ray on the scene within `[t_min, t_max]`.
    /// `solved` holds, for each object in order, the solved quadratic of the
    /// ray and that object. The result is that of the scan over all objects
    /// with a shrinking interval, and the parameter of a hit is a number
    /// within the interval; `scan_is_linear_minimum` and `hit_is_nearest` say
    /// that this is the nearest hit of all.
    pub fn hit(&self, solved: &Vec<Solved>, t_min: Scalar, t_max: Scalar) -> (res: Option<
        HitRecord,
    >)
        requires
            solved@.len() == self@.len(),
        ensures
            res == scan(self@, solved@, t_min, t_max, self@.len()),
            res matches Some(rec) ==> t_min.le(rec.t) && rec.t.le(t_max),
    {
        let mut res: Option<HitRecord> = None;
        let mut closest = t_max;
        let mut i: usize = 0;
        while i < self.objects.len()
            invariant
                i <= self.objects@.len(),
                solved@.len() == self.objects@.len(),
                res == scan(self.objects@, solved@, t_min, t_max, i as nat),
                closest == closest_so_far(res, t_max),
                res matches Some(rec) ==> t_min.le(rec.t) && rec.t.le(t_max),
            decreases self.objects@.len() - i,
        {
            if let Some(temp_rec) = self.objects[i].hit(&solved[i], t_min, closest) {
                closest = temp_rec.t;
                res = Some(temp_rec);
            }
            i += 1;
        }
        res
    }
}

/// Whether none of the first `n` solved quadratics has its far root below
/// its near one.
pub open spec fn all_ordered(solved: Seq<Solved>, n: nat) -> bool {
    forall|i: int| 0 <= i < n ==> (#[trigger] solved[i]).ordered()
}

/// The hit that a scan ends with lies within the interval it was asked for:
/// its parameter is a number, at least `t_min` and at most `t_max`.
pub proof fn scan_lies_within_interval(
    objects: Seq<Sphere>,
    solved: Seq<Solved>,
    t_min: Scalar,
    t_max: Scalar,
    n: nat,
)
    ensures
        scan(objects, solved, t_min, t_max, n) matches Some(rec) ==> {
            &&& !rec.t.is_nan()
            &&& t_min.le(rec.t)
            &&& rec.t.le(t_max)
        },
    decreases n,
{
    if n > 0 {
        scan_lies_within_interval(objects, solved, t_min, t_max, (n - 1) as nat);
    }
}

/// The scan with a shrinking interval finds what a linear minimum over the
/// objects' own hits finds: where no quadratic has its far root below its
/// near one, the two are the same record.
pub proof fn scan_is_linear_minimum(
    objects: Seq<Sphere>,
    solved: Seq<Solved>,
    t_min: Scalar,
    t_max: Scalar,
    n: nat,
)
    requires
        n <= objects.len(),
        n <= solved.len(),
        all_ordered(solved, n),
    ensures
        scan(objects, solved, t_min, t_max, n) == linear_minimum(objects, solved, t_min, t_max, n),
    decreases n,
{
    if n > 0 {
        scan_is_linear_minimum(objects, solved, t_min, t_max, (n - 1) as nat);
        scan_lies_within_interval(objects, solved, t_min, t_max, (n - 1) as nat);
    }
}

/// The scan returns the nearest hit of all: where no quadratic has its far
/// root below its near one, the result is the hit that one of the objects
/// reports within `[t_min, t_max]`, no object reports a hit with a smaller
/// parameter, and there is no result only if no object reports a hit.
pub proof fn hit_is_nearest(
    objects: Seq<Sphere>,
    solved: Seq<Solved>,
    t_min: Scalar,
    t_max: Scalar,
    n: nat,
)
    requires
        n <= objects.len(),
        n <= solved.len(),
        all_ordered(solved, n),
    ensures
        match scan(objects, solved, t_min, t_max, n) {
            Some(rec) => {
                &&& exists|i: int|
                    0 <= i < n && #[trigger] objects[i].spec_hit(solved[i], t_min, t_max) == Some(
                        rec,
                    )
                &&& forall|i: int|
                    0 <= i < n ==> (#[trigger] objects[i].spec_hit(solved[i], t_min, t_max)
                        matches Some(other) ==> rec.t.le(other.t))
            },
            None => forall|i: int|
                0 <= i < n ==> #[trigger] objects[i].spec_hit(solved[i], t_min, t_max) is None,
        },
    decreases n,
{
    scan_is_linear_minimum(objects, solved, t_min, t_max, n);
    if n > 0 {
        let m = (n - 1) as nat;
        hit_is_nearest(objects, solved, t_min, t_max, m);
        scan_is_linear_minimum(objects, solved, t_min, t_max, m);
    }
}

} // verus!
