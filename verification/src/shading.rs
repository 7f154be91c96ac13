//! The arithmetic of shading: mirror reflection, refraction by Snell's law,
//! the offset that keeps a secondary ray clear of the surface it leaves, and
//! the weighted sum that makes the final colour. Square roots are left to the
//! caller, who knows the scalar.

use vstd::prelude::*;
use vstd::std_specs::ops::{AddSpec, DivSpec, MulSpec, NegSpec, SubSpec};
use std::ops::{Add, Div, Mul, Neg, Sub};
use crate::geometry::{dot, Vec3, Vec3i};
use crate::order::{comparable, greater, less};

verus! {

/// The four independent weights with which the shading terms enter a colour.
/// They need not sum to one.
#[derive(Clone, Copy, Debug)]
pub struct Albedo<T> {
    pub diffuse: T,
    pub specular: T,
    pub reflection: T,
    pub refraction: T,
}

/// How a surface answers light.
#[derive(Clone, Copy, Debug)]
pub struct Material<T> {
    pub diffuse_color: Vec3<T>,
    pub albedo: Albedo<T>,
    pub specular_exponent: T,
    pub refractive_index: T,
}

/// Every scalar operation of `reflect` is defined on these operands.
pub open spec fn reflect_req<T: Copy + Add<Output = T> + Sub<Output = T> + Mul<Output = T>>(
    i: Vec3<T>,
    n: Vec3<T>,
) -> bool {
    &&& T::obeys_sub_spec()
    &&& i.dot_req(n)
    &&& n.x.add_req(n.x)
    &&& n.y.add_req(n.y)
    &&& n.z.add_req(n.z)
    &&& n.add_spec(n).scale_req(i.spec_dot(n))
    &&& i.sub_req(n.add_spec(n).spec_scale(i.spec_dot(n)))
}

/// The mirror image of direction `i` at a surface with normal `n`:
/// `i - (n + n) * (i . n)`.
pub open spec fn spec_reflect<T: Copy + Add<Output = T> + Sub<Output = T> + Mul<Output = T>>(
    i: Vec3<T>,
    n: Vec3<T>,
) -> Vec3<T> {
    i.sub_spec(n.add_spec(n).spec_scale(i.spec_dot(n)))
}

/// Reflects the direction `i` at a surface whose normal is `n`.
pub fn reflect<T: Copy + Add<Output = T> + Sub<Output = T> + Mul<Output = T>>(
    i: Vec3<T>,
    n: Vec3<T>,
) -> (mirrored: Vec3<T>)
    requires
        reflect_req(i, n),
    ensures
        mirrored == spec_reflect(i, n),
{
    let dot: T = i.dot_product(n);
    let twice: Vec3<T> = n + n;
    i - twice.scale(dot)
}

impl<T: Copy + Add<Output = T> + Mul<Output = T>> Material<T> {
    /// The diffuse term of a colour: the material's own colour, scaled by the
    /// gathered diffuse light and the diffuse weight.
    pub open spec fn diffuse_term(self, diffuse_light: T) -> Vec3<T> {
        self.diffuse_color.spec_scale(diffuse_light.mul_spec(self.albedo.diffuse))
    }

    /// The specular term of a colour: white, scaled by the gathered specular
    /// light and the specular weight.
    pub open spec fn specular_term(self, specular_light: T) -> Vec3<T> {
        let s = specular_light.mul_spec(self.albedo.specular);
        Vec3 { x: s, y: s, z: s }
    }

    /// The colour of a surface point: the diffuse term, plus the specular term,
    /// plus the reflected colour by the reflection weight, plus the refracted
    /// colour by the refraction weight, summed in this order. Nothing is
    /// clamped.
    pub open spec fn spec_blend(
        self,
        diffuse_light: T,
        specular_light: T,
        reflect_color: Vec3<T>,
        refract_color: Vec3<T>,
    ) -> Vec3<T> {
        self.diffuse_term(diffuse_light).add_spec(self.specular_term(specular_light)).add_spec(
            reflect_color.spec_scale(self.albedo.reflection),
        ).add_spec(refract_color.spec_scale(self.albedo.refraction))
    }

    /// Every scalar operation of `blend` is defined on these operands.
    pub open spec fn blend_req(
        self,
        diffuse_light: T,
        specular_light: T,
        reflect_color: Vec3<T>,
        refract_color: Vec3<T>,
    ) -> bool {
        let d = self.diffuse_term(diffuse_light);
        let s = self.specular_term(specular_light);
        let r = reflect_color.spec_scale(self.albedo.reflection);
        let t = refract_color.spec_scale(self.albedo.refraction);
        &&& T::obeys_mul_spec()
        &&& T::obeys_add_spec()
        &&& diffuse_light.mul_req(self.albedo.diffuse)
        &&& specular_light.mul_req(self.albedo.specular)
        &&& self.diffuse_color.scale_req(diffuse_light.mul_spec(self.albedo.diffuse))
        &&& reflect_color.scale_req(self.albedo.reflection)
        &&& refract_color.scale_req(self.albedo.refraction)
        &&& d.add_req(s)
        &&& d.add_spec(s).add_req(r)
        &&& d.add_spec(s).add_spec(r).add_req(t)
    }

    /// Composes the colour of a surface point from the light gathered at it
    /// and the colours that its reflected and refracted rays brought back.
    pub fn blend(
        self,
        diffuse_light: T,
        specular_light: T,
        reflect_color: Vec3<T>,
        refract_color: Vec3<T>,
    ) -> (color: Vec3<T>)
        requires
            self.blend_req(diffuse_light, specular_light, reflect_color, refract_color),
        ensures
            color == self.spec_blend(diffuse_light, specular_light, reflect_color, refract_color),
    {
        let diffuse: T = diffuse_light * self.albedo.diffuse;
        let specular: T = specular_light * self.albedo.specular;
        self.diffuse_color.scale(diffuse) + Vec3 { x: specular, y: specular, z: specular }
            + reflect_color.scale(self.albedo.reflection) + refract_color.scale(
            self.albedo.refraction,
        )
    }
}

/// Every scalar operation of `biased_origin` is defined on these operands.
pub open spec fn biased_origin_req<
    T: Copy + PartialOrd + Add<Output = T> + Sub<Output = T> + Mul<Output = T>,
>(point: Vec3<T>, normal: Vec3<T>, dir: Vec3<T>, bias: T) -> bool {
    &&& comparable::<T>()
    &&& T::obeys_sub_spec()
    &&& normal.scale_req(bias)
    &&& dir.dot_req(normal)
    &&& point.sub_req(normal.spec_scale(bias))
    &&& point.add_req(normal.spec_scale(bias))
}

/// The surface point moved by `bias` along the normal, to the side into
/// which `dir` points: against the normal where their dot product is below
/// `zero`, with the normal otherwise.
pub open spec fn spec_biased_origin<
    T: Copy + PartialOrd + Add<Output = T> + Sub<Output = T> + Mul<Output = T>,
>(point: Vec3<T>, normal: Vec3<T>, dir: Vec3<T>, bias: T, zero: T) -> Vec3<T> {
    if less(dir.spec_dot(normal), zero) {
        point.sub_spec(normal.spec_scale(bias))
    } else {
        point.add_spec(normal.spec_scale(bias))
    }
}

/// The origin of a secondary ray of direction `dir` that leaves the surface
/// at `point`. It is set off from the surface by `bias`, so that the ray does
/// not meet at once the surface it leaves. `zero` is the scalar's 0.
pub fn biased_origin<T: Copy + PartialOrd + Add<Output = T> + Sub<Output = T> + Mul<Output = T>>(
    point: Vec3<T>,
    normal: Vec3<T>,
    dir: Vec3<T>,
    bias: T,
    zero: T,
) -> (origin: Vec3<T>)
    requires
        biased_origin_req(point, normal, dir, bias),
    ensures
        origin == spec_biased_origin(point, normal, dir, bias, zero),
{
    let shift: Vec3<T> = normal.scale(bias);
    if dir.dot_product(normal) < zero {
        point - shift
    } else {
        point + shift
    }
}

/// How a ray bends when it passes a surface.
#[derive(Clone, Copy, Debug)]
pub struct Bend<T> {
    /// The refractive index on the side the ray comes from, over the index
    /// on the side it goes to.
    pub eta: T,
    /// The cosine of the angle between the ray and the normal, never
    /// negative.
    pub cosine: T,
    /// The normal, turned to the side the ray comes from.
    pub normal: Vec3<T>,
    /// One minus the squared sine of the angle on the far side; its square
    /// root is the cosine there.
    pub k: T,
}

/// `x` held between minus `one` and `one`. What compares with neither bound
/// becomes `one`.
pub open spec fn unit_clamped<T: Copy + PartialOrd + Neg<Output = T>>(x: T, one: T) -> T {
    let capped = if less(x, one) {
        x
    } else {
        one
    };
    if greater(capped, one.neg_spec()) {
        capped
    } else {
        one.neg_spec()
    }
}

/// The cosine of the angle of incidence, by the sign that tells the side:
/// minus the clamped dot product of direction and normal.
pub open spec fn incidence<
    T: Copy + PartialOrd + Neg<Output = T> + Add<Output = T> + Mul<Output = T>,
>(i: Vec3<T>, n: Vec3<T>, one: T) -> T {
    unit_clamped(i.spec_dot(n), one).neg_spec()
}

/// What `refraction` returns. A ray whose incidence is below `zero` leaves
/// the material: cosine and normal change sign, and the material's index
/// stands over that of the outside, which is `one`. `k` is
/// `one - eta * eta * (one - cosine * cosine)`; where it is below `zero`
/// no ray goes through.
pub open spec fn spec_refraction<
    T: Copy + PartialOrd + Neg<Output = T> + Add<Output = T> + Sub<Output = T> + Mul<Output = T>
        + Div<Output = T>,
>(i: Vec3<T>, n: Vec3<T>, refractive_index: T, zero: T, one: T) -> Option<Bend<T>> {
    let c = incidence(i, n, one);
    let leaving = less(c, zero);
    let cosine = if leaving {
        c.neg_spec()
    } else {
        c
    };
    let normal = if leaving {
        Vec3 { x: n.x.neg_spec(), y: n.y.neg_spec(), z: n.z.neg_spec() }
    } else {
        n
    };
    let eta = if leaving {
        refractive_index.div_spec(one)
    } else {
        one.div_spec(refractive_index)
    };
    let k = one.sub_spec(eta.mul_spec(eta).mul_spec(one.sub_spec(cosine.mul_spec(cosine))));
    if less(k, zero) {
        None
    } else {
        Some(Bend { eta, cosine, normal, k })
    }
}

/// Every scalar operation of `refraction` is defined on these operands.
pub open spec fn refraction_req<
    T: Copy + PartialOrd + Neg<Output = T> + Add<Output = T> + Sub<Output = T> + Mul<Output = T>
        + Div<Output = T>,
>(i: Vec3<T>, n: Vec3<T>, refractive_index: T, zero: T, one: T) -> bool {
    let c = incidence(i, n, one);
    let leaving = less(c, zero);
    let cosine = if leaving {
        c.neg_spec()
    } else {
        c
    };
    let eta = if leaving {
        refractive_index.div_spec(one)
    } else {
        one.div_spec(refractive_index)
    };
    &&& comparable::<T>()
    &&& T::obeys_neg_spec()
    &&& T::obeys_sub_spec()
    &&& T::obeys_div_spec()
    &&& i.dot_req(n)
    &&& one.neg_req()
    &&& unit_clamped(i.spec_dot(n), one).neg_req()
    &&& leaving ==> c.neg_req() && n.x.neg_req() && n.y.neg_req() && n.z.neg_req()
        && refractive_index.div_req(one)
    &&& !leaving ==> one.div_req(refractive_index)
    &&& eta.mul_req(eta)
    &&& cosine.mul_req(cosine)
    &&& one.sub_req(cosine.mul_spec(cosine))
    &&& eta.mul_spec(eta).mul_req(one.sub_spec(cosine.mul_spec(cosine)))
    &&& one.sub_req(eta.mul_spec(eta).mul_spec(one.sub_spec(cosine.mul_spec(cosine))))
}

/// Snell's law for a ray of direction `i` that meets a surface with normal
/// `n` and the given refractive index, seen from either side; the index of
/// the outside is `one`. `zero` and `one` are the scalar's 0 and 1. Returns
/// nothing where the ray is reflected totally.
pub fn refraction<
    T: Copy + PartialOrd + Neg<Output = T> + Add<Output = T> + Sub<Output = T> + Mul<Output = T>
        + Div<Output = T>,
>(i: Vec3<T>, n: Vec3<T>, refractive_index: T, zero: T, one: T) -> (bend: Option<Bend<T>>)
    requires
        refraction_req(i, n, refractive_index, zero, one),
    ensures
        bend == spec_refraction(i, n, refractive_index, zero, one),
{
    let along: T = i.dot_product(n);
    let low: T = one.neg();
    let capped: T = if along < one {
        along
    } else {
        one
    };
    let clamped: T = if capped > low {
        capped
    } else {
        low
    };
    let mut cosi: T = clamped.neg();
    let mut etai: T = one;
    let mut etat: T = refractive_index;
    let mut n0: Vec3<T> = n;
    if cosi < zero {
        cosi = cosi.neg();
        etai = refractive_index;
        etat = one;
        n0 = Vec3 { x: n.x.neg(), y: n.y.neg(), z: n.z.neg() };
    }
    let eta: T = etai / etat;
    let k: T = one - eta * eta * (one - cosi * cosi);
    if k < zero {
        None
    } else {
        Some(Bend { eta, cosine: cosi, normal: n0, k })
    }
}

impl<T: Copy + Add<Output = T> + Sub<Output = T> + Mul<Output = T>> Bend<T> {
    /// Every scalar operation of `direction` is defined on these operands.
    pub open spec fn direction_req(self, i: Vec3<T>, root: T) -> bool {
        &&& T::obeys_mul_spec()
        &&& T::obeys_sub_spec()
        &&& T::obeys_add_spec()
        &&& i.scale_req(self.eta)
        &&& self.eta.mul_req(self.cosine)
        &&& self.eta.mul_spec(self.cosine).sub_req(root)
        &&& self.normal.scale_req(self.eta.mul_spec(self.cosine).sub_spec(root))
        &&& i.spec_scale(self.eta).add_req(
            self.normal.spec_scale(self.eta.mul_spec(self.cosine).sub_spec(root)),
        )
    }

    /// The direction beyond the surface:
    /// `i * eta + normal * (eta * cosine - root)`.
    pub open spec fn spec_direction(self, i: Vec3<T>, root: T) -> Vec3<T> {
        i.spec_scale(self.eta).add_spec(
            self.normal.spec_scale(self.eta.mul_spec(self.cosine).sub_spec(root)),
        )
    }

    /// The direction in which a ray of direction `i` goes on beyond the
    /// surface. `root` is the square root of `k`.
    pub fn direction(&self, i: Vec3<T>, root: T) -> (bent: Vec3<T>)
        requires
            self.direction_req(i, root),
        ensures
            bent == self.spec_direction(i, root),
    {
        let along: T = self.eta * self.cosine - root;
        i.scale(self.eta) + self.normal.scale(along)
    }
}

/// Reflection over the integers: `i - 2 (i . n) n`.
pub open spec fn reflected(i: Vec3<int>, n: Vec3<int>) -> Vec3<int> {
    Vec3 {
        x: i.x - 2 * dot(i, n) * n.x,
        y: i.y - 2 * dot(i, n) * n.y,
        z: i.z - 2 * dot(i, n) * n.z,
    }
}

/// On `i64` vectors whose operations do not overflow, `reflect` computes the
/// reflection over the integers.
pub proof fn lemma_reflect_i64(i: Vec3i, n: Vec3i)
    requires
        reflect_req(i, n),
    ensures
        spec_reflect(i, n)@ == reflected(i@, n@),
{
    let d = dot(i@, n@);
    assert((n.x + n.x) * d == 2 * d * n.x) by (nonlinear_arith);
    assert((n.y + n.y) * d == 2 * d * n.y) by (nonlinear_arith);
    assert((n.z + n.z) * d == 2 * d * n.z) by (nonlinear_arith);
}

/// Reflecting twice at the same normal gives the direction back, provided the
/// normal has length one. In general the second reflection is off by
/// `4 (i . n) (n . n - 1) n`.
pub proof fn lemma_reflect_involutive(i: Vec3<int>, n: Vec3<int>)
    ensures
        reflected(reflected(i, n), n).x == i.x + 4 * dot(i, n) * (dot(n, n) - 1) * n.x,
        reflected(reflected(i, n), n).y == i.y + 4 * dot(i, n) * (dot(n, n) - 1) * n.y,
        reflected(reflected(i, n), n).z == i.z + 4 * dot(i, n) * (dot(n, n) - 1) * n.z,
        dot(n, n) == 1 ==> reflected(reflected(i, n), n) == i,
{
    let d = dot(i, n);
    let nn = dot(n, n);
    let r = reflected(i, n);
    assert(r.x * n.x == i.x * n.x - 2 * d * (n.x * n.x)) by (nonlinear_arith)
        requires
            r.x == i.x - 2 * d * n.x,
    ;
    assert(r.y * n.y == i.y * n.y - 2 * d * (n.y * n.y)) by (nonlinear_arith)
        requires
            r.y == i.y - 2 * d * n.y,
    ;
    assert(r.z * n.z == i.z * n.z - 2 * d * (n.z * n.z)) by (nonlinear_arith)
        requires
            r.z == i.z - 2 * d * n.z,
    ;
    assert(2 * d * nn == 2 * d * (n.x * n.x) + 2 * d * (n.y * n.y) + 2 * d * (n.z * n.z))
        by (nonlinear_arith)
        requires
            nn == n.x * n.x + n.y * n.y + n.z * n.z,
    ;
    assert(dot(r, n) == d - 2 * d * nn);
    let d2 = dot(r, n);
    assert(r.x - 2 * d2 * n.x == i.x + 4 * d * (nn - 1) * n.x) by (nonlinear_arith)
        requires
            r.x == i.x - 2 * d * n.x,
            d2 == d - 2 * d * nn,
    ;
    assert(r.y - 2 * d2 * n.y == i.y + 4 * d * (nn - 1) * n.y) by (nonlinear_arith)
        requires
            r.y == i.y - 2 * d * n.y,
            d2 == d - 2 * d * nn,
    ;
    assert(r.z - 2 * d2 * n.z == i.z + 4 * d * (nn - 1) * n.z) by (nonlinear_arith)
        requires
            r.z == i.z - 2 * d * n.z,
            d2 == d - 2 * d * nn,
    ;
    if nn == 1 {
        assert(4 * d * (nn - 1) * n.x == 0) by (nonlinear_arith)
            requires
                nn == 1,
        ;
        assert(4 * d * (nn - 1) * n.y == 0) by (nonlinear_arith)
            requires
                nn == 1,
        ;
        assert(4 * d * (nn - 1) * n.z == 0) by (nonlinear_arith)
            requires
                nn == 1,
        ;
    }
}

} // verus!
