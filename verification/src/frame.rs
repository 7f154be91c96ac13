//! The frame buffer: one colour for each pixel of the image, row after row.
//! Pixel `(i, j)`, column `i` of row `j`, lies at place `i + j * width`.

use vstd::prelude::*;
use vstd::std_specs::convert::FromSpec;
use vstd::std_specs::ops::DivSpec;
use std::ops::Div;
use crate::environment::lemma_row_major_bound;
use crate::geometry::Vec3;

verus! {

/// A grid of colours, `width` pixels in a row and `height` rows.
pub struct FrameBuffer<T> {
    width: u32,
    height: u32,
    cells: Vec<Vec3<T>>,
}

impl<T> FrameBuffer<T> {
    #[verifier::type_invariant]
    spec fn well_formed(self) -> bool {
        self.cells@.len() == self.width * self.height
    }

    /// The number of pixels in a row.
    pub closed spec fn spec_width(self) -> u32 {
        self.width
    }

    /// The number of rows.
    pub closed spec fn spec_height(self) -> u32 {
        self.height
    }

    /// The colours, row after row.
    pub closed spec fn cells(self) -> Seq<Vec3<T>> {
        self.cells@
    }

    /// The colour of pixel `(i, j)`.
    pub open spec fn pixel_at(self, i: u32, j: u32) -> Vec3<T> {
        self.cells()[i + j * self.spec_width()]
    }

    /// Makes a frame of `width` by `height` from colours given row after row.
    /// There must be exactly `width * height` of them; otherwise there is no
    /// frame.
    pub fn from_cells(width: u32, height: u32, cells: Vec<Vec3<T>>) -> (frame: Option<Self>)
        ensures
            frame.is_some() <==> cells@.len() == width * height,
            frame matches Some(f) ==> f.spec_width() == width && f.spec_height() == height
                && f.cells() == cells@,
    {
        assert(width * height <= u64::MAX) by (nonlinear_arith)
            requires
                width <= u32::MAX,
                height <= u32::MAX,
        ;
        let count: u64 = width as u64 * height as u64;
        if cells.len() as u64 != count {
            return None;
        }
        Some(FrameBuffer { width, height, cells })
    }

    /// Renders a frame of `width` by `height`: `shade` is asked once for each
    /// pixel, row after row, and what it answers for pixel `(i, j)` becomes
    /// the colour of that pixel. Nothing passes from one pixel to the next.
    pub fn render<F: Fn(u32, u32) -> Vec3<T>>(width: u32, height: u32, shade: F) -> (frame: Self)
        requires
            forall|i: u32, j: u32| i < width && j < height ==> call_requires(shade, (i, j)),
        ensures
            frame.spec_width() == width,
            frame.spec_height() == height,
            frame.cells().len() == width * height,
            forall|i: u32, j: u32|
                i < width && j < height ==> call_ensures(
                    shade,
                    (i, j),
                    #[trigger] frame.pixel_at(i, j),
                ),
    {
        let mut cells: Vec<Vec3<T>> = Vec::new();
        let mut j: u32 = 0;
        while j < height
            invariant
                0 <= j <= height,
                cells@.len() == j * width,
                forall|i: u32, j: u32| i < width && j < height ==> call_requires(shade, (i, j)),
                forall|k: int|
                    0 <= k < cells@.len() ==> call_ensures(
                        shade,
                        ((k % width as int) as u32, (k / width as int) as u32),
                        #[trigger] cells@[k],
                    ),
            decreases height - j,
        {
            let mut i: u32 = 0;
            while i < width
                invariant
                    0 <= i <= width,
                    j < height,
                    cells@.len() == j * width + i,
                    forall|i: u32, j: u32|
                        i < width && j < height ==> call_requires(shade, (i, j)),
                    forall|k: int|
                        0 <= k < cells@.len() ==> call_ensures(
                            shade,
                            ((k % width as int) as u32, (k / width as int) as u32),
                            #[trigger] cells@[k],
                        ),
                decreases width - i,
            {
                let color: Vec3<T> = shade(i, j);
                proof {
                    vstd::arithmetic::div_mod::lemma_fundamental_div_mod_converse(
                        j * width + i,
                        width as int,
                        j as int,
                        i as int,
                    );
                }
                cells.push(color);
                i += 1;
            }
            assert((j + 1) * width == j * width + width) by (nonlinear_arith);
            j += 1;
        }
        let frame = FrameBuffer { width, height, cells };
        proof {
            assert forall|i: u32, j: u32| i < width && j < height implies call_ensures(
                shade,
                (i, j),
                #[trigger] frame.pixel_at(i, j),
            ) by {
                lemma_row_major_bound(i as int, j as int, width as int, height as int);
                vstd::arithmetic::div_mod::lemma_fundamental_div_mod_converse(
                    j * width + i,
                    width as int,
                    j as int,
                    i as int,
                );
                assert(width * height == height * width) by (nonlinear_arith);
                let k = i + j * width;
                assert(frame.pixel_at(i, j) == frame.cells@[k]);
            }
        }
        frame
    }

    /// The number of pixels in a row.
    pub fn width(&self) -> (w: u32)
        ensures
            w == self.spec_width(),
    {
        self.width
    }

    /// The number of rows.
    pub fn height(&self) -> (h: u32)
        ensures
            h == self.spec_height(),
    {
        self.height
    }

    /// The colours, row after row.
    pub fn as_slice(&self) -> (colors: &[Vec3<T>])
        ensures
            colors@ == self.cells(),
            colors@.len() == self.spec_width() * self.spec_height(),
    {
        proof {
            use_type_invariant(self);
        }
        self.cells.as_slice()
    }

    /// The colour of pixel `(i, j)`.
    pub fn pixel(&self, i: u32, j: u32) -> (color: &Vec3<T>)
        requires
            i < self.spec_width(),
            j < self.spec_height(),
        ensures
            self.cells().len() == self.spec_width() * self.spec_height(),
            *color == self.pixel_at(i, j),
    {
        proof {
            use_type_invariant(self);
            lemma_row_major_bound(i as int, j as int, self.width as int, self.height as int);
        }
        let count: usize = self.cells.len();
        assert(i + j * self.width < count);
        &self.cells[i as usize + j as usize * self.width as usize]
    }

    /// A frame of the same size in which each colour is what `convert`
    /// answers for the colour at the same place in this one.
    pub fn map<U, F: Fn(&Vec3<T>) -> Vec3<U>>(&self, convert: F) -> (frame: FrameBuffer<U>)
        requires
            forall|c: &Vec3<T>| call_requires(convert, (c,)),
        ensures
            frame.spec_width() == self.spec_width(),
            frame.spec_height() == self.spec_height(),
            frame.cells().len() == self.cells().len(),
            forall|k: int|
                0 <= k < self.cells().len() ==> call_ensures(
                    convert,
                    (&self.cells()[k],),
                    #[trigger] frame.cells()[k],
                ),
    {
        proof {
            use_type_invariant(self);
        }
        let mut cells: Vec<Vec3<U>> = Vec::new();
        let mut k: usize = 0;
        while k < self.cells.len()
            invariant
                0 <= k <= self.cells@.len(),
                cells@.len() == k,
                forall|c: &Vec3<T>| call_requires(convert, (c,)),
                forall|n: int|
                    0 <= n < k ==> call_ensures(convert, (&self.cells@[n],), #[trigger] cells@[n]),
            decreases self.cells@.len() - k,
        {
            let color: Vec3<U> = convert(&self.cells[k]);
            cells.push(color);
            k += 1;
        }
        FrameBuffer { width: self.width, height: self.height, cells }
    }
}

/// The colour of pixel `(i, j)` in the gradient of a frame of `width` by
/// `height`: red grows with the row, green with the column, blue is zero.
pub open spec fn gradient_at<T: From<u32> + Div<Output = T>>(
    i: u32,
    j: u32,
    width: u32,
    height: u32,
) -> Vec3<T> {
    Vec3 {
        x: T::from_spec(j).div_spec(T::from_spec(height)),
        y: T::from_spec(i).div_spec(T::from_spec(width)),
        z: T::from_spec(0u32),
    }
}

/// The gradient of a frame of `width` by `height`, row after row.
pub open spec fn gradient<T: From<u32> + Div<Output = T>>(width: u32, height: u32) -> Seq<Vec3<T>> {
    Seq::new(
        (width * height) as nat,
        |k: int| gradient_at::<T>((k % width as int) as u32, (k / width as int) as u32, width, height),
    )
}

/// Every scalar operation of `_gradient` is defined.
pub open spec fn gradient_req<T: From<u32> + Div<Output = T>>(width: u32, height: u32) -> bool {
    &&& T::obeys_from_spec()
    &&& T::obeys_div_spec()
    &&& forall|j: u32| j < height ==> #[trigger] T::from_spec(j).div_req(T::from_spec(height))
    &&& forall|i: u32| i < width ==> #[trigger] T::from_spec(i).div_req(T::from_spec(width))
}

/// Appends the gradient of a frame of `width` by `height` to `frame_buffer`.
pub fn _gradient<T: From<u32> + Div<Output = T>>(
    frame_buffer: Vec<Vec3<T>>,
    width: u32,
    height: u32,
) -> (filled: Vec<Vec3<T>>)
    requires
        gradient_req::<T>(width, height),
    ensures
        filled@ == frame_buffer@ + gradient::<T>(width, height),
{
    let mut filled: Vec<Vec3<T>> = frame_buffer;
    let ghost given = filled@;
    let mut j: u32 = 0;
    while j < height
        invariant
            0 <= j <= height,
            gradient_req::<T>(width, height),
            filled@.len() == given.len() + j * width,
            forall|k: int| 0 <= k < given.len() ==> filled@[k] == given[k],
            forall|k: int|
                0 <= k < j * width ==> #[trigger] filled@[given.len() + k] == gradient_at::<T>(
                    (k % width as int) as u32,
                    (k / width as int) as u32,
                    width,
                    height,
                ),
        decreases height - j,
    {
        let mut i: u32 = 0;
        while i < width
            invariant
                0 <= i <= width,
                j < height,
                gradient_req::<T>(width, height),
                filled@.len() == given.len() + j * width + i,
                forall|k: int| 0 <= k < given.len() ==> filled@[k] == given[k],
                forall|k: int|
                    0 <= k < j * width + i ==> #[trigger] filled@[given.len() + k]
                        == gradient_at::<T>(
                        (k % width as int) as u32,
                        (k / width as int) as u32,
                        width,
                        height,
                    ),
            decreases width - i,
        {
            proof {
                vstd::arithmetic::div_mod::lemma_fundamental_div_mod_converse(
                    j * width + i,
                    width as int,
                    j as int,
                    i as int,
                );
            }
            let ghost before = filled@;
            let red: T = T::from(j) / T::from(height);
            let green: T = T::from(i) / T::from(width);
            filled.push(Vec3 { x: red, y: green, z: T::from(0u32) });
            proof {
                assert forall|k: int| 0 <= k < j * width + i + 1 implies #[trigger] filled@[given.len()
                    + k] == gradient_at::<T>(
                    (k % width as int) as u32,
                    (k / width as int) as u32,
                    width,
                    height,
                ) by {
                    if k < j * width + i {
                        assert(filled@[given.len() + k] == before[given.len() + k]);
                    }
                }
            }
            i += 1;
        }
        assert((j + 1) * width == j * width + width) by (nonlinear_arith);
        j += 1;
    }
    proof {
        assert(height * width == width * height) by (nonlinear_arith);
        let all = given + gradient::<T>(width, height);
        assert(filled@.len() == all.len());
        assert forall|n: int| 0 <= n < all.len() implies filled@[n] == all[n] by {
            if n >= given.len() {
                let k = n - given.len();
                assert(filled@[given.len() + k] == gradient::<T>(width, height)[k]);
            }
        }
        assert(filled@ =~= all);
    }
    filled
}

} // verus!
