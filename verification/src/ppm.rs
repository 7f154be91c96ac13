//! The plain-text portable pixmap: a header that names the format, the size
//! of the image and the greatest sample value, then one line for each pixel
//! with its red, green and blue samples in decimal.

use vstd::prelude::*;
use crate::frame::FrameBuffer;
use crate::geometry::Vec3;

verus! {

/// The greatest value of a sample.
pub const MAX_SAMPLE: u16 = 65535;

/// The ASCII digit for `d`.
pub open spec fn digit(d: nat) -> u8
    recommends
        d < 10,
{
    (48 + d) as u8
}

/// `n` in decimal, most significant digit first, without leading zeros.
pub open spec fn decimal(n: nat) -> Seq<u8>
    decreases n,
{
    if n < 10 {
        seq![digit(n)]
    } else {
        decimal(n / 10).push(digit(n % 10))
    }
}

/// The header of an image of `width` by `height`: the magic number of the
/// format, the size, and the greatest sample value, each on a line of its own.
pub open spec fn header(width: u32, height: u32) -> Seq<u8> {
    seq![80u8, 51u8, 10u8] + decimal(width as nat) + seq![32u8] + decimal(height as nat)
        + seq![10u8] + decimal(MAX_SAMPLE as nat) + seq![10u8]
}

/// The line of one pixel: each sample followed by a blank, then a line feed.
pub open spec fn pixel_line(pixel: Vec3<u16>) -> Seq<u8> {
    decimal(pixel.x as nat) + seq![32u8] + decimal(pixel.y as nat) + seq![32u8] + decimal(
        pixel.z as nat,
    ) + seq![32u8, 10u8]
}

/// The lines of the pixels, in their order.
pub open spec fn pixel_lines(pixels: Seq<Vec3<u16>>) -> Seq<u8>
    decreases pixels.len(),
{
    if pixels.len() == 0 {
        Seq::empty()
    } else {
        pixel_lines(pixels.drop_last()) + pixel_line(pixels.last())
    }
}

/// The whole image as text.
pub open spec fn image_text(width: u32, height: u32, pixels: Seq<Vec3<u16>>) -> Seq<u8> {
    header(width, height) + pixel_lines(pixels)
}

/// What precedes the last digit of `n` in decimal; nothing if `n` is zero.
spec fn leading(n: nat) -> Seq<u8> {
    if n == 0 {
        Seq::empty()
    } else {
        decimal(n)
    }
}

proof fn lemma_leading(n: nat)
    requires
        n > 0,
    ensures
        leading(n) == leading(n / 10).push(digit(n % 10)),
{
    if n < 10 {
        assert(n / 10 == 0);
        assert(n % 10 == n);
        assert(decimal(n) =~= Seq::<u8>::empty().push(digit(n)));
    }
}

/// Appends `value` in decimal to `out`.
pub fn push_decimal(out: &mut Vec<u8>, value: u32)
    ensures
        final(out)@ == old(out)@ + decimal(value as nat),
{
    let mut low_first: Vec<u8> = Vec::new();
    let mut rest: u32 = value / 10;
    low_first.push(48u8 + (value % 10) as u8);
    let ghost text = decimal(value as nat);
    proof {
        if value >= 10 {
            assert(text == leading((value / 10) as nat).push(digit((value % 10) as nat)));
        } else {
            assert(text =~= leading((value / 10) as nat).push(digit((value % 10) as nat)));
        }
    }
    while rest > 0
        invariant
            low_first@.len() >= 1,
            text.len() == leading(rest as nat).len() + low_first@.len(),
            text.take(text.len() - low_first@.len()) == leading(rest as nat),
            forall|k: int|
                0 <= k < low_first@.len() ==> #[trigger] low_first@[k] == text[text.len() - 1 - k],
        decreases rest,
    {
        proof {
            lemma_leading(rest as nat);
            let lead = leading(rest as nat);
            assert(lead.last() == digit((rest % 10) as nat));
            assert(text[text.len() - low_first@.len() - 1] == lead[lead.len() - 1]);
            assert(text.take(text.len() - low_first@.len() - 1) =~= lead.drop_last());
            assert(lead.drop_last() =~= leading((rest / 10) as nat));
        }
        low_first.push(48u8 + (rest % 10) as u8);
        rest = rest / 10;
    }
    assert(text.len() == low_first@.len());
    let mut left: usize = low_first.len();
    while left > 0
        invariant
            0 <= left <= low_first@.len(),
            text.len() == low_first@.len(),
            forall|k: int|
                0 <= k < low_first@.len() ==> #[trigger] low_first@[k] == text[text.len() - 1 - k],
            out@ == old(out)@ + text.take(text.len() - left),
        decreases left,
    {
        left -= 1;
        out.push(low_first[left]);
        assert(out@ =~= old(out)@ + text.take(text.len() - left));
    }
    assert(text.take(text.len() as int) =~= text);
}

/// Appends the line of one pixel to `out`.
fn push_pixel_line(out: &mut Vec<u8>, pixel: &Vec3<u16>)
    ensures
        final(out)@ == old(out)@ + pixel_line(*pixel),
{
    push_decimal(out, pixel.x as u32);
    out.push(32u8);
    push_decimal(out, pixel.y as u32);
    out.push(32u8);
    push_decimal(out, pixel.z as u32);
    out.push(32u8);
    out.push(10u8);
    assert(out@ =~= old(out)@ + pixel_line(*pixel));
}

/// Writes a frame of quantised colours as a plain-text portable pixmap.
pub fn encode(frame: &FrameBuffer<u16>) -> (text: Vec<u8>)
    ensures
        text@ == image_text(frame.spec_width(), frame.spec_height(), frame.cells()),
{
    let mut text: Vec<u8> = Vec::new();
    text.push(80u8);
    text.push(51u8);
    text.push(10u8);
    push_decimal(&mut text, frame.width());
    text.push(32u8);
    push_decimal(&mut text, frame.height());
    text.push(10u8);
    push_decimal(&mut text, MAX_SAMPLE as u32);
    text.push(10u8);
    assert(text@ =~= header(frame.spec_width(), frame.spec_height()));
    let pixels: &[Vec3<u16>] = frame.as_slice();
    let mut k: usize = 0;
    assert(pixels@.take(0) =~= Seq::<Vec3<u16>>::empty());
    while k < pixels.len()
        invariant
            0 <= k <= pixels@.len(),
            text@ == header(frame.spec_width(), frame.spec_height()) + pixel_lines(
                pixels@.take(k as int),
            ),
        decreases pixels@.len() - k,
    {
        let ghost before = text@;
        push_pixel_line(&mut text, &pixels[k]);
        proof {
            assert(pixels@.take(k + 1).drop_last() =~= pixels@.take(k as int));
            assert(pixels@.take(k + 1).last() == pixels@[k as int]);
            assert(text@ =~= header(frame.spec_width(), frame.spec_height()) + pixel_lines(
                pixels@.take(k + 1),
            ));
        }
        k += 1;
    }
    assert(pixels@.take(k as int) =~= pixels@);
    text
}

} // verus!
