//! The record of a hit, and the search of a scene for the nearest one.
use crate::scalar::{lemma_neg, lemma_same_value, Scalar, ZERO_BITS};
use crate::shape::{lemma_select_smallest, lemma_select_under_bound, strictly_between, Roots};
use crate::vec3::{Point, Vec3};
use vstd::prelude::*;

verus! {

/// Where and how a ray met a surface.
#[derive(Clone, Copy, Debug)]
pub struct HitRecord {
    pub intersection: Point,
    /// The ray's parameter at the intersection.
    pub t: Scalar,
    /// The surface normal, turned against the ray.
    pub normal: Vec3,
    /// The ray came from outside the surface.
    pub out_facing: bool,
    /// The place of the surface's material among the scene's materials.
    pub material: usize,
}

impl HitRecord {
    /// Turns the normal against the ray. `facing` is the dot product of the
    /// ray's direction with `outside_normal`, the normal that points out of
    /// the surface: where it is above zero the ray runs inside the surface,
    /// and the record takes the opposite normal.
    pub fn set_outside_normal(&mut self, facing: Scalar, outside_normal: Vec3)
        ensures
            final(self).out_facing == !facing.gt_spec(Scalar { bits: ZERO_BITS }),
            final(self).normal == if facing.gt_spec(Scalar { bits: ZERO_BITS }) {
                outside_normal.neg_spec()
            } else {
                outside_normal
            },
            final(self).intersection == old(self).intersection,
            final(self).t == old(self).t,
            final(self).material == old(self).material,
    {
        if facing.gt(Scalar::zero()) {
            self.out_facing = false;
            self.normal = outside_normal.neg();
        } else {
            self.out_facing = true;
            self.normal = outside_normal;
        }
    }
}

/// A scene as one ray meets it: for each shape, in the scene's order, the
/// roots of the ray's quadratic.
pub type HittableList = Vec<Roots>;

/// The nearest hit found in a scene: which shape, and at which parameter.
#[derive(Clone, Copy, Debug)]
pub struct Nearest {
    pub index: usize,
    pub t: Scalar,
}

/// The upper bound for the next shape: the nearest hit so far, or the
/// caller's bound where there is none yet.
pub open spec fn bound_after(found: Option<Nearest>, tmax: Scalar) -> Scalar {
    match found {
        Some(n) => n.t,
        None => tmax,
    }
}

/// The search: the shapes are tried in order, each against the interval that
/// ends at the nearest hit found before it.
pub open spec fn scan(shapes: Seq<Roots>, tmin: Scalar, tmax: Scalar) -> Option<Nearest>
    decreases shapes.len(),
{
    if shapes.len() == 0 {
        None
    } else {
        let before = scan(shapes.drop_last(), tmin, tmax);
        match shapes.last().select_spec(tmin, bound_after(before, tmax)) {
            Some(t) => Some(Nearest { index: (shapes.len() - 1) as usize, t }),
            None => before,
        }
    }
}

/// The nearest hit of a ray among the shapes of a scene, within the open
/// interval from `tmin` to `tmax`. Each entry of `shapes` holds the roots of
/// the ray's quadratic for one shape.
pub fn hit(shapes: &HittableList, tmin: Scalar, tmax: Scalar) -> (r: Option<Nearest>)
    ensures
        r == scan(shapes@, tmin, tmax),
        r matches Some(n) ==> n.index < shapes@.len() && strictly_between(n.t, tmin, tmax),
        all_well_formed(shapes@) ==> nearest_of(shapes@, tmin, tmax, r),
{
    let mut closest_so_far = tmax;
    let mut hit_record: Option<Nearest> = None;
    let mut i: usize = 0;
    while i < shapes.len()
        invariant
            i <= shapes.len(),
            hit_record == scan(shapes@.take(i as int), tmin, tmax),
            closest_so_far == bound_after(hit_record, tmax),
            hit_record matches Some(n) ==> n.index < i && strictly_between(n.t, tmin, tmax),
        decreases shapes.len() - i,
    {
        proof {
            assert(shapes@.take(i + 1).drop_last() =~= shapes@.take(i as int));
        }
        match shapes[i].select(tmin, closest_so_far) {
            Some(t) => {
                closest_so_far = t;
                hit_record = Some(Nearest { index: i, t });
            },
            None => {},
        }
        i += 1;
    }
    proof {
        assert(shapes@.take(i as int) =~= shapes@);
        if all_well_formed(shapes@) {
            lemma_scan_nearest(shapes@, tmin, tmax);
        }
    }
    hit_record
}

/// Every shape's roots are in order.
pub open spec fn all_well_formed(shapes: Seq<Roots>) -> bool {
    forall|i: int| 0 <= i < shapes.len() ==> (#[trigger] shapes[i]).well_formed()
}

/// The parameter at which shape `i` alone would be hit within the caller's
/// interval is no smaller than `t`.
pub open spec fn no_nearer(shapes: Seq<Roots>, i: int, tmin: Scalar, tmax: Scalar, t: Scalar) -> bool {
    match shapes[i].select_spec(tmin, tmax) {
        Some(other) => t.le_spec(other),
        None => true,
    }
}

/// `found` is the nearest hit of the scene. Where it is none, no shape alone
/// is hit within the interval. Where it is one, that shape alone is hit at
/// that parameter, which lies strictly inside the interval, no shape is hit
/// nearer, and every shape before it is hit farther or not at all.
pub open spec fn nearest_of(
    shapes: Seq<Roots>,
    tmin: Scalar,
    tmax: Scalar,
    found: Option<Nearest>,
) -> bool {
    match found {
        None => forall|i: int|
            0 <= i < shapes.len() ==> (#[trigger] shapes[i]).select_spec(tmin, tmax) is None,
        Some(n) => {
            &&& n.index < shapes.len()
            &&& shapes[n.index as int].select_spec(tmin, tmax) == Some(n.t)
            &&& strictly_between(n.t, tmin, tmax)
            &&& forall|i: int|
                0 <= i < shapes.len() ==> #[trigger] no_nearer(shapes, i, tmin, tmax, n.t)
            &&& forall|i: int|
                0 <= i < n.index ==> match (#[trigger] shapes[i]).select_spec(tmin, tmax) {
                    Some(other) => n.t.lt_spec(other),
                    None => true,
                }
        },
    }
}

/// The search returns the nearest hit, where each shape's roots are in
/// order.
pub proof fn lemma_scan_nearest(shapes: Seq<Roots>, tmin: Scalar, tmax: Scalar)
    requires
        all_well_formed(shapes),
        shapes.len() <= usize::MAX,
    ensures
        nearest_of(shapes, tmin, tmax, scan(shapes, tmin, tmax)),
    decreases shapes.len(),
{
    if shapes.len() > 0 {
        let front = shapes.drop_last();
        let last = shapes.last();
        let before = scan(front, tmin, tmax);
        let bound = bound_after(before, tmax);
        assert(all_well_formed(front)) by {
            assert forall|i: int| 0 <= i < front.len() implies (#[trigger] front[i]).well_formed() by {
                assert(front[i] == shapes[i]);
            }
        }
        lemma_scan_nearest(front, tmin, tmax);
        assert(last.well_formed());
        lemma_select_smallest(last, tmin, tmax);
        lemma_select_under_bound(last, tmin, bound, tmax);
        assert forall|i: int| 0 <= i < front.len() implies front[i] == shapes[i] by {}
        match scan(shapes, tmin, tmax) {
            None => {
                assert forall|i: int| 0 <= i < shapes.len() implies (#[trigger] shapes[i]).select_spec(
                    tmin,
                    tmax,
                ) is None by {
                    if i < front.len() {
                        assert(front[i].select_spec(tmin, tmax) is None);
                    }
                }
            },
            Some(n) => {
                assert forall|i: int| 0 <= i < shapes.len() implies #[trigger] no_nearer(
                    shapes,
                    i,
                    tmin,
                    tmax,
                    n.t,
                ) by {
                    if i < front.len() {
                        match before {
                            Some(m) => {
                                assert(no_nearer(front, i, tmin, tmax, m.t));
                            },
                            None => {
                                assert(front[i].select_spec(tmin, tmax) is None);
                            },
                        }
                    }
                }
                assert forall|i: int| 0 <= i < n.index implies match (#[trigger] shapes[i]).select_spec(
                    tmin,
                    tmax,
                ) {
                    Some(other) => n.t.lt_spec(other),
                    None => true,
                } by {
                    match before {
                        Some(m) => {
                            if i < m.index {
                                assert(front[i] == shapes[i]);
                            } else {
                                assert(no_nearer(front, i, tmin, tmax, m.t));
                            }
                        },
                        None => {
                            assert(front[i].select_spec(tmin, tmax) is None);
                        },
                    }
                }
            },
        }
    }
}

/// A shape whose roots are no numbers changes nothing: behind whatever hit
/// was found before it, the search goes on as if the shape were not there.
pub proof fn lemma_no_direction_keeps_hit(shapes: Seq<Roots>, roots: Roots, tmin: Scalar, tmax: Scalar)
    requires
        roots.near.is_nan(),
        roots.far.is_nan(),
    ensures
        scan(shapes.push(roots), tmin, tmax) == scan(shapes, tmin, tmax),
{
    assert(shapes.push(roots).drop_last() =~= shapes);
}

/// Each shape of `a` is among the shapes of `b`.
#[verifier::opaque]
pub open spec fn each_among(a: Seq<Roots>, b: Seq<Roots>) -> bool {
    forall|i: int| 0 <= i < a.len() ==> exists|j: int| 0 <= j < b.len() && b[j] == #[trigger] a[i]
}

/// A scene that holds every shape of another is hit wherever the other is,
/// and no farther.
pub proof fn lemma_more_shapes_no_farther(a: Seq<Roots>, b: Seq<Roots>, tmin: Scalar, tmax: Scalar)
    requires
        all_well_formed(a),
        all_well_formed(b),
        a.len() <= usize::MAX,
        b.len() <= usize::MAX,
        each_among(a, b),
    ensures
        scan(a, tmin, tmax) matches Some(n) ==> scan(b, tmin, tmax) matches Some(m) && m.t.le_spec(
            n.t,
        ),
{
    reveal(each_among);
    lemma_scan_nearest(a, tmin, tmax);
    lemma_scan_nearest(b, tmin, tmax);
    if let Some(n) = scan(a, tmin, tmax) {
        let shape = a[n.index as int];
        let j = choose|j: int| 0 <= j < b.len() && b[j] == shape;
        assert(b[j].select_spec(tmin, tmax) == Some(n.t));
        if let Some(m) = scan(b, tmin, tmax) {
            assert(no_nearer(b, j, tmin, tmax, m.t));
        }
    }
}

/// The order of the shapes does not change the nearest hit. Two scenes made
/// of the same shapes, in whatever order, are hit or missed together, and
/// where they are hit, at the same number. Unless that number is zero, which
/// has two patterns, the two parameters agree bit for bit.
pub proof fn lemma_order_independent(a: Seq<Roots>, b: Seq<Roots>, tmin: Scalar, tmax: Scalar)
    requires
        all_well_formed(a),
        all_well_formed(b),
        a.len() <= usize::MAX,
        b.len() <= usize::MAX,
        each_among(a, b),
        each_among(b, a),
    ensures
        scan(a, tmin, tmax) is None <==> scan(b, tmin, tmax) is None,
        scan(a, tmin, tmax) matches Some(n) ==> scan(b, tmin, tmax) matches Some(m) && {
            &&& !n.t.is_nan() && !m.t.is_nan()
            &&& n.t.value() == m.t.value()
            &&& n.t.value() != 0 ==> n.t == m.t
        },
{
    lemma_more_shapes_no_farther(a, b, tmin, tmax);
    lemma_more_shapes_no_farther(b, a, tmin, tmax);
    lemma_scan_nearest(a, tmin, tmax);
    lemma_scan_nearest(b, tmin, tmax);
    if let Some(n) = scan(a, tmin, tmax) {
        if let Some(m) = scan(b, tmin, tmax) {
            if n.t.value() != 0 {
                lemma_same_value(n.t, m.t);
            }
        }
    }
}

/// Two shapes can be tried in either order: the nearest hit is the same.
pub proof fn lemma_swap_two(x: Roots, y: Roots, tmin: Scalar, tmax: Scalar)
    requires
        x.well_formed(),
        y.well_formed(),
    ensures
        scan(seq![x, y], tmin, tmax) is None <==> scan(seq![y, x], tmin, tmax) is None,
        scan(seq![x, y], tmin, tmax) matches Some(n) ==> scan(seq![y, x], tmin, tmax) matches Some(
            m,
        ) && {
            &&& !n.t.is_nan() && !m.t.is_nan()
            &&& n.t.value() == m.t.value()
            &&& n.t.value() != 0 ==> n.t == m.t
        },
{
    let a = seq![x, y];
    let b = seq![y, x];
    assert(each_among(a, b) && each_among(b, a)) by {
        reveal(each_among);
        assert(a[0] == b[1] && a[1] == b[0]);
    }
    lemma_order_independent(a, b, tmin, tmax);
}

/// The recorded normal never runs with the ray. The dot product of the ray's
/// direction with the recorded normal is `facing` where the outward normal
/// was kept, and the opposite of `facing` where it was turned: neither is
/// above zero.
pub proof fn lemma_normal_opposes_ray(facing: Scalar)
    ensures
        !(if facing.gt_spec(Scalar { bits: ZERO_BITS }) {
            facing.neg_spec()
        } else {
            facing
        }).gt_spec(Scalar { bits: ZERO_BITS }),
{
    lemma_neg(facing);
}

} // verus!
