//! Three-component vectors over an arbitrary scalar.
//!
//! The operators are generic: whatever the scalar promises of its own `+`, `-`
//! and `*` is carried over component by component. For machine integers that
//! promise is exact, and the laws at the end of this file are stated over the
//! mathematical integers that such vectors stand for.

use vstd::prelude::*;
use vstd::std_specs::ops::{AddSpec, AddSpecImpl, MulSpec, MulSpecImpl, SubSpec, SubSpecImpl};
use vstd::std_specs::cmp::{PartialEqSpec, PartialEqSpecImpl};
use std::ops::{Add, Index, Mul, Sub};

verus! {

/// A vector with components `x`, `y` and `z`.
#[derive(Clone, Copy, Debug)]
pub struct Vec3<T> {
    pub x: T,
    pub y: T,
    pub z: T,
}

/// Vectors of signed integers.
pub type Vec3i = Vec3<i64>;

impl<T: PartialEq> PartialEqSpecImpl for Vec3<T> {
    open spec fn obeys_eq_spec() -> bool {
        T::obeys_eq_spec()
    }

    open spec fn eq_spec(&self, other: &Vec3<T>) -> bool {
        &&& self.x.eq_spec(&other.x)
        &&& self.y.eq_spec(&other.y)
        &&& self.z.eq_spec(&other.z)
    }
}

impl<T: PartialEq> PartialEq for Vec3<T> {
    /// Two vectors are equal when all three components are.
    fn eq(&self, other: &Self) -> (same: bool) {
        self.x == other.x && self.y == other.y && self.z == other.z
    }
}

impl<T: Eq> Eq for Vec3<T> {

}

impl<T: Add<Output = T>> AddSpecImpl<Vec3<T>> for Vec3<T> {
    open spec fn obeys_add_spec() -> bool {
        T::obeys_add_spec()
    }

    open spec fn add_req(self, rhs: Vec3<T>) -> bool {
        &&& self.x.add_req(rhs.x)
        &&& self.y.add_req(rhs.y)
        &&& self.z.add_req(rhs.z)
    }

    open spec fn add_spec(self, rhs: Vec3<T>) -> Vec3<T> {
        Vec3 { x: self.x.add_spec(rhs.x), y: self.y.add_spec(rhs.y), z: self.z.add_spec(rhs.z) }
    }
}

impl<T: Add<Output = T>> Add<Vec3<T>> for Vec3<T> {
    type Output = Self;

    /// Component-wise sum.
    fn add(self, rhs: Self) -> (sum: Self) {
        Vec3 { x: self.x + rhs.x, y: self.y + rhs.y, z: self.z + rhs.z }
    }
}

impl<T: Sub<Output = T>> SubSpecImpl<Vec3<T>> for Vec3<T> {
    open spec fn obeys_sub_spec() -> bool {
        T::obeys_sub_spec()
    }

    open spec fn sub_req(self, rhs: Vec3<T>) -> bool {
        &&& self.x.sub_req(rhs.x)
        &&& self.y.sub_req(rhs.y)
        &&& self.z.sub_req(rhs.z)
    }

    open spec fn sub_spec(self, rhs: Vec3<T>) -> Vec3<T> {
        Vec3 { x: self.x.sub_spec(rhs.x), y: self.y.sub_spec(rhs.y), z: self.z.sub_spec(rhs.z) }
    }
}

impl<T: Sub<Output = T>> Sub<Vec3<T>> for Vec3<T> {
    type Output = Self;

    /// Component-wise difference.
    fn sub(self, rhs: Self) -> (difference: Self) {
        Vec3 { x: self.x - rhs.x, y: self.y - rhs.y, z: self.z - rhs.z }
    }
}

impl<T: Mul<Output = T>> MulSpecImpl<Vec3<T>> for Vec3<T> {
    open spec fn obeys_mul_spec() -> bool {
        T::obeys_mul_spec()
    }

    open spec fn mul_req(self, rhs: Vec3<T>) -> bool {
        &&& self.x.mul_req(rhs.x)
        &&& self.y.mul_req(rhs.y)
        &&& self.z.mul_req(rhs.z)
    }

    open spec fn mul_spec(self, rhs: Vec3<T>) -> Vec3<T> {
        Vec3 { x: self.x.mul_spec(rhs.x), y: self.y.mul_spec(rhs.y), z: self.z.mul_spec(rhs.z) }
    }
}

impl<T: Mul<Output = T>> Mul<Vec3<T>> for Vec3<T> {
    type Output = Self;

    /// Component-wise product.
    fn mul(self, rhs: Self) -> (product: Self) {
        Vec3 { x: self.x * rhs.x, y: self.y * rhs.y, z: self.z * rhs.z }
    }
}

impl<T: Copy + Mul<Output = T>> Vec3<T> {
    /// Each product of `scale` is defined on these operands.
    pub open spec fn scale_req(self, factor: T) -> bool {
        &&& self.x.mul_req(factor)
        &&& self.y.mul_req(factor)
        &&& self.z.mul_req(factor)
    }

    /// The vector with every component multiplied by `factor` on the right.
    pub open spec fn spec_scale(self, factor: T) -> Vec3<T> {
        Vec3 {
            x: self.x.mul_spec(factor),
            y: self.y.mul_spec(factor),
            z: self.z.mul_spec(factor),
        }
    }

    /// Multiplies every component by the scalar `factor`.
    pub fn scale(self, factor: T) -> (scaled: Vec3<T>)
        requires
            self.scale_req(factor),
        ensures
            T::obeys_mul_spec() ==> scaled == self.spec_scale(factor),
    {
        Vec3 { x: self.x * factor, y: self.y * factor, z: self.z * factor }
    }
}

impl<T> Vec3<T> {
    /// The component that index `xyz` selects: `x` for 0, `y` for 1 and `z`
    /// for every other index.
    pub open spec fn component(self, xyz: usize) -> T {
        if xyz == 0 {
            self.x
        } else if xyz == 1 {
            self.y
        } else {
            self.z
        }
    }
}

impl<T> vstd::std_specs::core::IndexSpecImpl<usize> for Vec3<T> {
    open spec fn index_req(&self, index: &usize) -> bool {
        true
    }
}

impl<T> Index<usize> for Vec3<T> {
    type Output = T;

    /// Indexed access to a component; an index past 1 yields `z`.
    fn index(&self, xyz: usize) -> (output: &T)
        ensures
            *output == self.component(xyz),
    {
        match xyz {
            0 => &self.x,
            1 => &self.y,
            _ => &self.z,
        }
    }
}

impl<T: Mul<Output = T> + Add<Output = T>> Vec3<T> {
    /// What `dot_product` returns for a scalar whose operators answer what
    /// `mul_spec` and `add_spec` say of them: `x*x' + y*y' + z*z'`, summed
    /// from the left.
    pub open spec fn spec_dot(self, other: Vec3<T>) -> T {
        self.x.mul_spec(other.x).add_spec(self.y.mul_spec(other.y)).add_spec(
            self.z.mul_spec(other.z),
        )
    }

    /// The scalar's `*` and `+` answer what `mul_spec` and `add_spec` say of
    /// them, and every operation of `dot_product` is defined on these
    /// operands: for machine integers, nothing overflows.
    pub open spec fn dot_req(self, other: Vec3<T>) -> bool {
        &&& T::obeys_mul_spec()
        &&& T::obeys_add_spec()
        &&& self.x.mul_req(other.x)
        &&& self.y.mul_req(other.y)
        &&& self.z.mul_req(other.z)
        &&& self.x.mul_spec(other.x).add_req(self.y.mul_spec(other.y))
        &&& self.x.mul_spec(other.x).add_spec(self.y.mul_spec(other.y)).add_req(
            self.z.mul_spec(other.z),
        )
    }

    /// The dot product of two vectors.
    pub fn dot_product(self, other: Vec3<T>) -> (f: T)
        requires
            self.dot_req(other),
        ensures
            f == self.spec_dot(other),
    {
        (self.x * other.x) + (self.y * other.y) + (self.z * other.z)
    }
}

impl View for Vec3<i64> {
    type V = Vec3<int>;

    /// The vector of mathematical integers that this vector stands for.
    open spec fn view(&self) -> Vec3<int> {
        Vec3 { x: self.x as int, y: self.y as int, z: self.z as int }
    }
}

/// Whether `v` is the value of some `i64`.
pub open spec fn fits_i64(v: int) -> bool {
    i64::MIN <= v <= i64::MAX
}

/// The dot product over the integers.
pub open spec fn dot(a: Vec3<int>, b: Vec3<int>) -> int {
    a.x * b.x + a.y * b.y + a.z * b.z
}

/// The square of the Euclidean length of `v`.
pub open spec fn norm_squared(v: Vec3<int>) -> int {
    v.x * v.x + v.y * v.y + v.z * v.z
}

/// No product and no partial sum of `dot(a, b)` leaves the range of `i64`.
pub open spec fn dot_fits(a: Vec3<int>, b: Vec3<int>) -> bool {
    &&& fits_i64(a.x * b.x)
    &&& fits_i64(a.y * b.y)
    &&& fits_i64(a.z * b.z)
    &&& fits_i64(a.x * b.x + a.y * b.y)
    &&& fits_i64(a.x * b.x + a.y * b.y + a.z * b.z)
}

/// On `i64` vectors `dot_product` may be called exactly when nothing
/// overflows, and it then returns the dot product over the integers.
pub proof fn lemma_dot_product_i64(a: Vec3i, b: Vec3i)
    ensures
        a.dot_req(b) <==> dot_fits(a@, b@),
        a.dot_req(b) ==> a.spec_dot(b) == dot(a@, b@),
{
}

/// The dot product does not depend on the order of its operands.
pub proof fn lemma_dot_symmetric(a: Vec3<int>, b: Vec3<int>)
    ensures
        dot(a, b) == dot(b, a),
{
    assert(a.x * b.x == b.x * a.x) by (nonlinear_arith);
    assert(a.y * b.y == b.y * a.y) by (nonlinear_arith);
    assert(a.z * b.z == b.z * a.z) by (nonlinear_arith);
}

/// The dot product of a vector with itself is the square of its length: it
/// is never negative, and it is zero for the zero vector alone.
pub proof fn lemma_dot_self(v: Vec3<int>)
    ensures
        dot(v, v) == norm_squared(v),
        dot(v, v) >= 0,
        dot(v, v) == 0 <==> (v.x == 0 && v.y == 0 && v.z == 0),
{
    assert(v.x * v.x >= 0 && (v.x * v.x == 0 <==> v.x == 0)) by (nonlinear_arith);
    assert(v.y * v.y >= 0 && (v.y * v.y == 0 <==> v.y == 0)) by (nonlinear_arith);
    assert(v.z * v.z >= 0 && (v.z * v.z == 0 <==> v.z == 0)) by (nonlinear_arith);
}

} // verus!
