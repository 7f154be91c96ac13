//! What a ray meets: spheres, a rectangle of checkerboard, and the choice
//! among them. Every candidate surface offers the distance at which the ray
//! meets it, if it does; the nearest candidate below the far limit wins, and
//! of two candidates at the same distance the earlier one.
//!
//! Directions are taken to have length one. The library does not test this:
//! with a longer or shorter direction the distances are measured in units of
//! its length.

use vstd::prelude::*;
use vstd::std_specs::ops::{AddSpec, DivSpec, MulSpec, NegSpec, SubSpec};
use std::ops::{Add, Div, Mul, Neg, Sub};
use crate::geometry::{dot, Vec3, Vec3i};
use crate::order::{comparable, greater, less, strict_weak_order};
use crate::shading::Material;

verus! {

/// The distance under which the next candidate must stay after the
/// candidates in `distances` have been seen.
pub open spec fn bound_after<T: PartialOrd>(distances: Seq<Option<T>>, limit: T) -> T {
    match nearest_of(distances, limit) {
        Some(k) => distances[k].unwrap(),
        None => limit,
    }
}

/// The candidate that wins among `distances`: going through them in order, a
/// candidate takes the lead when it is there and strictly closer than the
/// one that leads, or than `limit` while none does.
pub open spec fn nearest_of<T: PartialOrd>(distances: Seq<Option<T>>, limit: T) -> Option<int>
    decreases distances.len(),
{
    if distances.len() == 0 {
        None
    } else {
        let seen = distances.drop_last();
        let lead = nearest_of(seen, limit);
        let bound = match lead {
            Some(k) => seen[k].unwrap(),
            None => limit,
        };
        match distances.last() {
            Some(d) => if less(d, bound) {
                Some(distances.len() - 1)
            } else {
                lead
            },
            None => lead,
        }
    }
}

/// The winner, where there is one, is a candidate that is there.
pub proof fn lemma_nearest_is_candidate<T: PartialOrd>(distances: Seq<Option<T>>, limit: T)
    ensures
        nearest_of(distances, limit) matches Some(k) ==> 0 <= k < distances.len()
            && distances[k].is_some(),
    decreases distances.len(),
{
    if distances.len() > 0 {
        lemma_nearest_is_candidate(distances.drop_last(), limit);
    }
}

/// Where `less` is a strict weak order, the winner is the first of the nearest
/// candidates below the limit: no candidate is closer than it, every
/// candidate before it is strictly farther, and it is closer than the limit.
/// There is no winner exactly when no candidate is closer than the limit.
pub proof fn lemma_nearest_is_first_minimum<T: PartialOrd>(distances: Seq<Option<T>>, limit: T)
    requires
        strict_weak_order::<T>(),
    ensures
        match nearest_of(distances, limit) {
            Some(k) => {
                &&& 0 <= k < distances.len()
                &&& distances[k].is_some()
                &&& less(distances[k].unwrap(), limit)
                &&& forall|j: int|
                    0 <= j < distances.len() && (#[trigger] distances[j]).is_some() ==> !less(
                        distances[j].unwrap(),
                        distances[k].unwrap(),
                    )
                &&& forall|j: int|
                    0 <= j < k && (#[trigger] distances[j]).is_some() ==> less(
                        distances[k].unwrap(),
                        distances[j].unwrap(),
                    )
            },
            None => forall|j: int|
                0 <= j < distances.len() && (#[trigger] distances[j]).is_some() ==> !less(
                    distances[j].unwrap(),
                    limit,
                ),
        },
    decreases distances.len(),
{
    if distances.len() > 0 {
        let seen = distances.drop_last();
        lemma_nearest_is_first_minimum(seen, limit);
        let lead = nearest_of(seen, limit);
        let n = distances.len() - 1;
        assert forall|j: int| 0 <= j < n implies seen[j] == distances[j] by {}
        match distances.last() {
            Some(d) => {
                match lead {
                    Some(k) => {
                        let b = seen[k].unwrap();
                        if less(d, b) {
                            assert(less(d, limit));
                            assert forall|j: int|
                                0 <= j < distances.len() && (
                                #[trigger] distances[j]).is_some() implies !less(
                                distances[j].unwrap(),
                                d,
                            ) by {
                                if j < n {
                                    let y = distances[j].unwrap();
                                    assert(seen[j].is_some());
                                    assert(!less(y, b));
                                    if less(y, d) {
                                        assert(less(y, b));
                                    }
                                }
                            }
                            assert forall|j: int|
                                0 <= j < n && (#[trigger] distances[j]).is_some() implies less(
                                d,
                                distances[j].unwrap(),
                            ) by {
                                let y = distances[j].unwrap();
                                assert(seen[j].is_some());
                                assert(!less(y, b));
                            }
                        } else {
                            assert forall|j: int|
                                0 <= j < distances.len() && (
                                #[trigger] distances[j]).is_some() implies !less(
                                distances[j].unwrap(),
                                b,
                            ) by {
                                if j < n {
                                    assert(seen[j].is_some());
                                }
                            }
                            assert forall|j: int|
                                0 <= j < k && (#[trigger] distances[j]).is_some() implies less(
                                b,
                                distances[j].unwrap(),
                            ) by {
                                assert(seen[j].is_some());
                            }
                        }
                    },
                    None => {
                        if less(d, limit) {
                            assert forall|j: int|
                                0 <= j < distances.len() && (
                                #[trigger] distances[j]).is_some() implies !less(
                                distances[j].unwrap(),
                                d,
                            ) by {
                                if j < n {
                                    let y = distances[j].unwrap();
                                    assert(seen[j].is_some());
                                    assert(!less(y, limit));
                                    if less(y, d) {
                                        assert(less(y, limit));
                                    }
                                }
                            }
                            assert forall|j: int|
                                0 <= j < n && (#[trigger] distances[j]).is_some() implies less(
                                d,
                                distances[j].unwrap(),
                            ) by {
                                let y = distances[j].unwrap();
                                assert(seen[j].is_some());
                                assert(!less(y, limit));
                            }
                        } else {
                            assert forall|j: int|
                                0 <= j < distances.len() && (
                                #[trigger] distances[j]).is_some() implies !less(
                                distances[j].unwrap(),
                                limit,
                            ) by {
                                if j < n {
                                    assert(seen[j].is_some());
                                }
                            }
                        }
                    },
                }
            },
            None => {
                match lead {
                    Some(k) => {
                        assert forall|j: int|
                            0 <= j < k && (#[trigger] distances[j]).is_some() implies less(
                            distances[k].unwrap(),
                            distances[j].unwrap(),
                        ) by {
                            assert(seen[j].is_some());
                        }
                        assert forall|j: int|
                            0 <= j < distances.len() && (
                            #[trigger] distances[j]).is_some() implies !less(
                            distances[j].unwrap(),
                            distances[k].unwrap(),
                        ) by {
                            if j < n {
                                assert(seen[j].is_some());
                            }
                        }
                    },
                    None => {
                        assert forall|j: int|
                            0 <= j < distances.len() && (
                            #[trigger] distances[j]).is_some() implies !less(
                            distances[j].unwrap(),
                            limit,
                        ) by {
                            if j < n {
                                assert(seen[j].is_some());
                            }
                        }
                    },
                }
            },
        }
    }
}

/// Picks the candidate that a ray hits: the nearest of `distances` that is
/// closer than `limit`, the earliest of them if several are equally near.
pub fn nearest<T: PartialOrd + Copy>(distances: &[Option<T>], limit: T) -> (found: Option<usize>)
    ensures
        comparable::<T>() ==> match found {
            Some(k) => nearest_of(distances@, limit) == Some(k as int),
            None => nearest_of(distances@, limit).is_none(),
        },
{
    let mut found: Option<usize> = None;
    let mut bound: T = limit;
    let mut i: usize = 0;
    assert(distances@.take(0) =~= Seq::<Option<T>>::empty());
    while i < distances.len()
        invariant
            0 <= i <= distances@.len(),
            comparable::<T>() ==> bound == bound_after(distances@.take(i as int), limit),
            comparable::<T>() ==> match found {
                Some(k) => nearest_of(distances@.take(i as int), limit) == Some(k as int),
                None => nearest_of(distances@.take(i as int), limit).is_none(),
            },
        decreases distances@.len() - i,
    {
        proof {
            assert(distances@.take(i + 1).drop_last() =~= distances@.take(i as int));
            assert(distances@.take(i + 1).last() == distances@[i as int]);
            lemma_nearest_is_candidate(distances@.take(i as int), limit);
        }
        match distances[i] {
            Some(d) => {
                if d < bound {
                    found = Some(i);
                    bound = d;
                }
            },
            None => {},
        }
        i += 1;
    }
    assert(distances@.take(i as int) =~= distances@);
    found
}

/// A sphere in the scene.
#[derive(Clone, Copy, Debug)]
pub struct Sphere<T> {
    pub center: Vec3<T>,
    pub radius: T,
    pub material: Material<T>,
}

/// How a ray passes a sphere that it does not miss.
#[derive(Clone, Copy, Debug)]
pub struct Chord<T> {
    /// The distance along the ray to the point nearest to the centre.
    pub middle: T,
    /// The square of half the length of the chord that the sphere cuts from
    /// the line of the ray.
    pub half_squared: T,
}

impl<T: Copy + PartialOrd + Add<Output = T> + Sub<Output = T> + Mul<Output = T>> Sphere<T> {
    /// The vector from `orig` to the centre.
    pub open spec fn to_center(self, orig: Vec3<T>) -> Vec3<T> {
        self.center.sub_spec(orig)
    }

    /// The distance along the ray to the point nearest to the centre: the
    /// projection of the vector to the centre on `dir`.
    pub open spec fn middle(self, orig: Vec3<T>, dir: Vec3<T>) -> T {
        self.to_center(orig).spec_dot(dir)
    }

    /// The square of the distance from the centre to the line of the ray.
    pub open spec fn miss_squared(self, orig: Vec3<T>, dir: Vec3<T>) -> T {
        self.to_center(orig).spec_dot(self.to_center(orig)).sub_spec(
            self.middle(orig, dir).mul_spec(self.middle(orig, dir)),
        )
    }

    /// The square of the radius.
    pub open spec fn radius_squared(self) -> T {
        self.radius.mul_spec(self.radius)
    }

    /// Every scalar operation of `chord` is defined on these operands.
    pub open spec fn chord_req(self, orig: Vec3<T>, dir: Vec3<T>) -> bool {
        let l = self.to_center(orig);
        let tca = self.middle(orig, dir);
        &&& comparable::<T>()
        &&& T::obeys_sub_spec()
        &&& self.center.sub_req(orig)
        &&& l.dot_req(dir)
        &&& l.dot_req(l)
        &&& tca.mul_req(tca)
        &&& l.spec_dot(l).sub_req(tca.mul_spec(tca))
        &&& self.radius.mul_req(self.radius)
        &&& self.radius_squared().sub_req(self.miss_squared(orig, dir))
    }

    /// What `chord` returns: nothing where the line of the ray passes the
    /// centre at more than the radius, else the middle of the chord and the
    /// square of its half.
    pub open spec fn spec_chord(self, orig: Vec3<T>, dir: Vec3<T>) -> Option<Chord<T>> {
        if greater(self.miss_squared(orig, dir), self.radius_squared()) {
            None
        } else {
            Some(
                Chord {
                    middle: self.middle(orig, dir),
                    half_squared: self.radius_squared().sub_spec(self.miss_squared(orig, dir)),
                },
            )
        }
    }

    /// Projects the centre on the ray from `orig` along `dir`, which must
    /// have length one for the result to be a distance. Says whether the line
    /// of the ray cuts the sphere, and where.
    pub fn chord(&self, orig: Vec3<T>, dir: Vec3<T>) -> (cut: Option<Chord<T>>)
        requires
            self.chord_req(orig, dir),
        ensures
            cut == self.spec_chord(orig, dir),
    {
        let l: Vec3<T> = self.center - orig;
        let tca: T = l.dot_product(dir);
        let d2: T = l.dot_product(l) - tca * tca;
        let r2: T = self.radius * self.radius;
        if d2 > r2 {
            return None;
        }
        Some(Chord { middle: tca, half_squared: r2 - d2 })
    }
}

impl<T: Copy + PartialOrd + Add<Output = T> + Sub<Output = T>> Chord<T> {
    /// Both crossings of `first_crossing` can be computed.
    pub open spec fn crossing_req(self, half: T) -> bool {
        &&& comparable::<T>()
        &&& T::obeys_sub_spec()
        &&& T::obeys_add_spec()
        &&& self.middle.sub_req(half)
        &&& self.middle.add_req(half)
    }

    /// The nearer crossing unless it lies before `start`, then the farther
    /// one unless it lies before `start` too.
    pub open spec fn spec_first_crossing(self, half: T, start: T) -> Option<T> {
        let near = self.middle.sub_spec(half);
        let far = self.middle.add_spec(half);
        if !less(near, start) {
            Some(near)
        } else if !less(far, start) {
            Some(far)
        } else {
            None
        }
    }

    /// The distance at which a ray that starts at distance `start` first
    /// crosses the sphere. `half` is half the length of the chord, the square
    /// root of `half_squared`; the ray crosses the sphere at `middle - half`
    /// and at `middle + half`.
    pub fn first_crossing(&self, half: T, start: T) -> (distance: Option<T>)
        requires
            self.crossing_req(half),
        ensures
            distance == self.spec_first_crossing(half, start),
    {
        let mut t0: T = self.middle - half;
        let t1: T = self.middle + half;
        if t0 < start {
            t0 = t1;
        }
        if t0 < start {
            return None;
        }
        Some(t0)
    }
}

/// Over the integers: how the ray from `orig` along `dir` passes the sphere
/// around `center`.
pub open spec fn chord_of(center: Vec3<int>, radius: int, orig: Vec3<int>, dir: Vec3<int>) -> Option<
    Chord<int>,
> {
    let l = Vec3 { x: center.x - orig.x, y: center.y - orig.y, z: center.z - orig.z };
    let middle = dot(l, dir);
    let miss_squared = dot(l, l) - middle * middle;
    if miss_squared > radius * radius {
        None
    } else {
        Some(Chord { middle, half_squared: radius * radius - miss_squared })
    }
}

/// Over the integers: the first of the crossings `middle - half` and
/// `middle + half` that does not lie before `start`.
pub open spec fn first_crossing_of(middle: int, half: int, start: int) -> Option<int> {
    if middle - half >= start {
        Some(middle - half)
    } else if middle + half >= start {
        Some(middle + half)
    } else {
        None
    }
}

/// On `i64` operands that do not overflow, `chord` agrees with `chord_of`.
pub proof fn lemma_chord_i64(sphere: Sphere<i64>, orig: Vec3i, dir: Vec3i)
    requires
        sphere.chord_req(orig, dir),
    ensures
        match chord_of(sphere.center@, sphere.radius as int, orig@, dir@) {
            Some(c) => sphere.spec_chord(orig, dir).is_some() && sphere.spec_chord(
                orig,
                dir,
            ).unwrap().middle == c.middle && sphere.spec_chord(orig, dir).unwrap().half_squared
                == c.half_squared,
            None => sphere.spec_chord(orig, dir).is_none(),
        },
{
}

/// On `i64` operands that do not overflow, `first_crossing` agrees with
/// `first_crossing_of`.
pub proof fn lemma_first_crossing_i64(chord: Chord<i64>, half: i64, start: i64)
    requires
        chord.crossing_req(half),
    ensures
        match first_crossing_of(chord.middle as int, half as int, start as int) {
            Some(t) => chord.spec_first_crossing(half, start) == Some(t as i64)
                && i64::MIN <= t <= i64::MAX,
            None => chord.spec_first_crossing(half, start).is_none(),
        },
{
}

/// A ray that starts outside a sphere, at distance `d0` from its centre, and
/// runs through the centre crosses the sphere at `d0 - radius` and at
/// `d0 + radius`: the chord has its middle at `d0` and the radius as its
/// half, and the first crossing is the nearer one.
pub proof fn lemma_ray_through_center(
    center: Vec3<int>,
    radius: int,
    orig: Vec3<int>,
    dir: Vec3<int>,
    d0: int,
)
    requires
        dot(dir, dir) == 1,
        0 <= radius < d0,
        center.x == orig.x + d0 * dir.x,
        center.y == orig.y + d0 * dir.y,
        center.z == orig.z + d0 * dir.z,
    ensures
        chord_of(center, radius, orig, dir) == Some(
            Chord { middle: d0, half_squared: radius * radius },
        ),
        first_crossing_of(d0, radius, 0) == Some(d0 - radius),
        first_crossing_of(d0, radius, d0) == Some(d0 + radius),
{
    let l = Vec3 { x: center.x - orig.x, y: center.y - orig.y, z: center.z - orig.z };
    let nn = dot(dir, dir);
    assert(l.x * dir.x == d0 * (dir.x * dir.x)) by (nonlinear_arith)
        requires
            l.x == d0 * dir.x,
    ;
    assert(l.y * dir.y == d0 * (dir.y * dir.y)) by (nonlinear_arith)
        requires
            l.y == d0 * dir.y,
    ;
    assert(l.z * dir.z == d0 * (dir.z * dir.z)) by (nonlinear_arith)
        requires
            l.z == d0 * dir.z,
    ;
    assert(d0 * nn == d0 * (dir.x * dir.x) + d0 * (dir.y * dir.y) + d0 * (dir.z * dir.z))
        by (nonlinear_arith)
        requires
            nn == dir.x * dir.x + dir.y * dir.y + dir.z * dir.z,
    ;
    assert(dot(l, dir) == d0);
    assert(l.x * l.x == d0 * d0 * (dir.x * dir.x)) by (nonlinear_arith)
        requires
            l.x == d0 * dir.x,
    ;
    assert(l.y * l.y == d0 * d0 * (dir.y * dir.y)) by (nonlinear_arith)
        requires
            l.y == d0 * dir.y,
    ;
    assert(l.z * l.z == d0 * d0 * (dir.z * dir.z)) by (nonlinear_arith)
        requires
            l.z == d0 * dir.z,
    ;
    assert(d0 * d0 * nn == d0 * d0 * (dir.x * dir.x) + d0 * d0 * (dir.y * dir.y) + d0 * d0 * (
    dir.z * dir.z)) by (nonlinear_arith)
        requires
            nn == dir.x * dir.x + dir.y * dir.y + dir.z * dir.z,
    ;
    assert(dot(l, l) == d0 * d0);
    assert(radius * radius >= 0) by (nonlinear_arith);
}

/// A horizontal rectangle of checkerboard: the part of the plane `y = level`
/// with `x` within `half_width` of zero and `z` between `far` and `near`.
#[derive(Clone, Copy, Debug)]
pub struct Checkerboard<T> {
    pub level: T,
    pub half_width: T,
    pub near: T,
    pub far: T,
    /// A ray whose direction has a `y` of no greater size than this runs
    /// too nearly along the plane to be tested against it.
    pub parallel_limit: T,
}

/// Where a ray meets the checkerboard.
#[derive(Clone, Copy, Debug)]
pub struct PlaneHit<T> {
    pub distance: T,
    pub point: Vec3<T>,
}

impl<
    T: Copy + PartialOrd + Neg<Output = T> + Add<Output = T> + Sub<Output = T> + Mul<Output = T>
        + Div<Output = T>,
> Checkerboard<T> {
    /// Whether a ray of direction `dir` is steep enough to be tested.
    pub open spec fn steep(self, dir: Vec3<T>) -> bool {
        greater(dir.y, self.parallel_limit) || greater(dir.y.neg_spec(), self.parallel_limit)
    }

    /// The distance along the ray at which it meets the plane:
    /// `-(orig.y - level) / dir.y`.
    pub open spec fn reach(self, orig: Vec3<T>, dir: Vec3<T>) -> T {
        orig.y.sub_spec(self.level).neg_spec().div_spec(dir.y)
    }

    /// The point at which the ray meets the plane.
    pub open spec fn landing(self, orig: Vec3<T>, dir: Vec3<T>) -> Vec3<T> {
        orig.add_spec(dir.spec_scale(self.reach(orig, dir)))
    }

    /// Whether `point` lies within the rectangle.
    pub open spec fn covers(self, point: Vec3<T>) -> bool {
        &&& less(point.x, self.half_width)
        &&& less(point.x.neg_spec(), self.half_width)
        &&& less(point.z, self.near)
        &&& greater(point.z, self.far)
    }

    /// Every scalar operation of `hit` is defined on these operands.
    pub open spec fn hit_req(self, orig: Vec3<T>, dir: Vec3<T>) -> bool {
        &&& comparable::<T>()
        &&& T::obeys_neg_spec()
        &&& T::obeys_sub_spec()
        &&& T::obeys_div_spec()
        &&& T::obeys_mul_spec()
        &&& T::obeys_add_spec()
        &&& dir.y.neg_req()
        &&& self.steep(dir) ==> {
            &&& orig.y.sub_req(self.level)
            &&& orig.y.sub_spec(self.level).neg_req()
            &&& orig.y.sub_spec(self.level).neg_spec().div_req(dir.y)
            &&& dir.scale_req(self.reach(orig, dir))
            &&& orig.add_req(dir.spec_scale(self.reach(orig, dir)))
            &&& self.landing(orig, dir).x.neg_req()
        }
    }

    /// What `hit` returns: the place where the ray meets the plane, if the
    /// ray is steep, meets the plane at a distance greater than `zero`, and
    /// meets it within the rectangle.
    pub open spec fn spec_hit(self, orig: Vec3<T>, dir: Vec3<T>, zero: T) -> Option<PlaneHit<T>> {
        if self.steep(dir) && greater(self.reach(orig, dir), zero) && self.covers(
            self.landing(orig, dir),
        ) {
            Some(PlaneHit { distance: self.reach(orig, dir), point: self.landing(orig, dir) })
        } else {
            None
        }
    }

    /// Where the ray from `orig` along `dir` meets the checkerboard, if it
    /// does. `zero` is the scalar's 0.
    pub fn hit(&self, orig: Vec3<T>, dir: Vec3<T>, zero: T) -> (met: Option<PlaneHit<T>>)
        requires
            self.hit_req(orig, dir),
        ensures
            met == self.spec_hit(orig, dir, zero),
    {
        if dir.y > self.parallel_limit || dir.y.neg() > self.parallel_limit {
            let d: T = (orig.y - self.level).neg() / dir.y;
            let pt: Vec3<T> = orig + dir.scale(d);
            if d > zero && pt.x < self.half_width && pt.x.neg() < self.half_width && pt.z
                < self.near && pt.z > self.far {
                return Some(PlaneHit { distance: d, point: pt });
            }
        }
        None
    }
}

/// Which of its two colours a tile of the checkerboard has: tiles alternate
/// along both axes, so the sum of the tile's coordinates decides.
pub fn checker_is_odd(column: i64, row: i64) -> (odd: bool)
    ensures
        odd <==> (column + row) % 2 != 0,
{
    let a: bool = column % 2 != 0;
    let b: bool = row % 2 != 0;
    a != b
}

} // verus!
