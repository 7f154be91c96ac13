//! The environment map: the background image that a ray sees when it leaves
//! the scene. The map is a row-major grid, addressed by a longitude index
//! along a row and a latitude index across the rows. Indices that fall outside
//! the grid are clamped to its border, never wrapped.

use vstd::prelude::*;
use crate::geometry::Vec3;

verus! {

/// `input` bounded to the range from `min` to `max`.
pub open spec fn clamped(input: u32, min: u32, max: u32) -> u32 {
    if input < min {
        min
    } else if input > max {
        max
    } else {
        input
    }
}

/// Calls `num::clamp` on `u32` operands. The contract repeats what that
/// function documents and does: `min` for an input below `min`, `max` for one
/// above `max`, the input itself otherwise. Bounds in the wrong order, on
/// which it panics in debug builds, are excluded.
#[verifier::external_body]
fn clamp_index(input: u32, min: u32, max: u32) -> (bounded: u32)
    requires
        min <= max,
    ensures
        bounded == clamped(input, min, max),
{
    num::clamp(input, min, max)
}

/// A grid of colours, `width` texels in a row and `height` rows.
pub struct EnvironmentMap<T> {
    width: u32,
    height: u32,
    texels: Vec<Vec3<T>>,
}

impl<T> EnvironmentMap<T> {
    #[verifier::type_invariant]
    spec fn well_formed(self) -> bool {
        &&& self.width > 0
        &&& self.height > 0
        &&& self.texels@.len() == self.width * self.height
    }

    /// The number of texels in a row.
    pub closed spec fn spec_width(self) -> u32 {
        self.width
    }

    /// The number of rows.
    pub closed spec fn spec_height(self) -> u32 {
        self.height
    }

    /// The texels, row after row.
    pub closed spec fn texels(self) -> Seq<Vec3<T>> {
        self.texels@
    }

    /// Whether `count` texels fill a grid of `width` by `height`, neither of
    /// them zero.
    pub open spec fn fills(width: u32, height: u32, count: nat) -> bool {
        width > 0 && height > 0 && count == width * height
    }

    /// The place in the row-major sequence of the texel that the indices
    /// select once each is clamped to the grid.
    pub open spec fn offset(self, longitude: u32, latitude: u32) -> int {
        clamped(longitude, 0, (self.spec_width() - 1) as u32) + clamped(
            latitude,
            0,
            (self.spec_height() - 1) as u32,
        ) * self.spec_width()
    }

    /// Makes a map of `width` by `height` from texels given row after row.
    /// The texels must fill the grid exactly; otherwise there is no map.
    pub fn new(width: u32, height: u32, texels: Vec<Vec3<T>>) -> (map: Option<Self>)
        ensures
            map.is_some() <==> Self::fills(width, height, texels@.len()),
            map matches Some(m) ==> m.spec_width() == width && m.spec_height() == height
                && m.texels() == texels@,
    {
        if width == 0 || height == 0 {
            return None;
        }
        assert(width * height <= u64::MAX) by (nonlinear_arith)
            requires
                width <= u32::MAX,
                height <= u32::MAX,
        ;
        let cells: u64 = width as u64 * height as u64;
        if texels.len() as u64 != cells {
            return None;
        }
        Some(EnvironmentMap { width, height, texels })
    }

    /// The number of texels in a row.
    pub fn width(&self) -> (w: u32)
        ensures
            w == self.spec_width(),
    {
        self.width
    }

    /// The number of rows.
    pub fn height(&self) -> (h: u32)
        ensures
            h == self.spec_height(),
    {
        self.height
    }

    /// The texel at the given longitude and latitude indices, each clamped to
    /// the grid first. Since a map holds exactly `width * height` texels, the
    /// clamped indices always select one of them.
    pub fn lookup(&self, longitude: u32, latitude: u32) -> (texel: &Vec3<T>)
        ensures
            Self::fills(self.spec_width(), self.spec_height(), self.texels().len()),
            0 <= self.offset(longitude, latitude) < self.texels().len(),
            *texel == self.texels()[self.offset(longitude, latitude)],
    {
        proof {
            use_type_invariant(self);
        }
        let count: usize = self.texels.len();
        let a: u32 = clamp_index(longitude, 0, self.width - 1);
        let b: u32 = clamp_index(latitude, 0, self.height - 1);
        proof {
            lemma_row_major_bound(a as int, b as int, self.width as int, self.height as int);
            assert(a + b * self.width < count);
            assert(a + b * self.width == self.offset(longitude, latitude));
        }
        &self.texels[a as usize + b as usize * self.width as usize]
    }
}

/// In a grid of `width` by `height`, column `column` of row `row` lies at a
/// row-major offset below `width * height`, and the row's own start does too.
pub proof fn lemma_row_major_bound(column: int, row: int, width: int, height: int)
    requires
        0 <= column < width,
        0 <= row < height,
    ensures
        0 <= row * width <= column + row * width < width * height,
{
    assert(row * width <= (height - 1) * width) by (nonlinear_arith)
        requires
            0 <= row <= height - 1,
            width > 0,
    ;
    assert((height - 1) * width == width * height - width) by (nonlinear_arith);
    assert(row * width >= 0) by (nonlinear_arith)
        requires
            row >= 0,
            width > 0,
    ;
}

} // verus!
