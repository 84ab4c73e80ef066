//! The RGBA gradient that the staff shows while it has no score to draw.

use vstd::prelude::*;

verus! {

/// Alpha of every pixel of the gradient: about half transparent.
pub const GRADIENT_ALPHA: u8 = 127;

/// The low eight bits of a coordinate.
pub open spec fn low_byte(n: int) -> u8 {
    (n % 256) as u8
}

/// The byte at offset `i` of a gradient that is `width` pixels wide, rows
/// first: red rises with the column, green with the row, blue falls with the
/// column, alpha is constant.
pub open spec fn gradient_byte(width: int, i: int) -> u8 {
    let pixel = i / 4;
    let x = pixel % width;
    let y = pixel / width;
    let channel = i % 4;
    if channel == 0 {
        low_byte(x)
    } else if channel == 1 {
        low_byte(y)
    } else if channel == 2 {
        (255 - low_byte(x)) as u8
    } else {
        GRADIENT_ALPHA
    }
}

/// The whole gradient of `width` by `height` pixels.
pub open spec fn gradient(width: int, height: int) -> Seq<u8> {
    Seq::new((width * height * 4) as nat, |i: int| gradient_byte(width, i))
}

/// Offset of the first byte of pixel (`x`, `y`).
pub open spec fn pixel_offset(width: int, x: int, y: int) -> int {
    (y * width + x) * 4
}

/// Pixel (`x`, `y`) lies inside the buffer, and no pixel of a later position
/// starts before it ends.
pub proof fn lemma_pixel_in_bounds(width: int, height: int, x: int, y: int)
    requires
        0 <= x < width,
        0 <= y < height,
    ensures
        0 <= pixel_offset(width, x, y),
        pixel_offset(width, x, y) + 4 <= width * height * 4,
        (y * width + x) / width == y,
        (y * width + x) % width == x,
{
    assert(0 <= y * width) by (nonlinear_arith)
        requires
            0 <= y,
            0 <= width,
    ;
    assert(y * width + width <= height * width) by (nonlinear_arith)
        requires
            y + 1 <= height,
            0 <= width,
    ;
    assert(height * width == width * height) by (nonlinear_arith);
    vstd::arithmetic::div_mod::lemma_fundamental_div_mod_converse(y * width + x, width, y, x);
}

/// The four bytes of pixel (`x`, `y`) of the gradient.
pub proof fn lemma_gradient_pixel(width: int, height: int, x: int, y: int)
    requires
        0 <= x < width,
        0 <= y < height,
    ensures
        pixel_offset(width, x, y) + 4 <= gradient(width, height).len(),
        gradient(width, height)[pixel_offset(width, x, y)] == low_byte(x),
        gradient(width, height)[pixel_offset(width, x, y) + 1] == low_byte(y),
        gradient(width, height)[pixel_offset(width, x, y) + 2] == 255 - low_byte(x),
        gradient(width, height)[pixel_offset(width, x, y) + 3] == GRADIENT_ALPHA,
{
    lemma_pixel_in_bounds(width, height, x, y);
}

/// Rows follow one another without a gap: row 0 starts the buffer, each row
/// ends where the next one starts, and the last one ends the buffer.
pub proof fn lemma_rows_adjoin(width: int, height: int, y: int)
    requires
        0 <= width,
        0 <= y <= height,
    ensures
        pixel_offset(width, 0, 0) == 0,
        pixel_offset(width, width, y) == pixel_offset(width, 0, y + 1),
        pixel_offset(width, 0, height) == width * height * 4,
        0 <= pixel_offset(width, 0, y) <= width * height * 4,
{
    assert(0 * width == 0);
    assert(y * width + width == (y + 1) * width) by (nonlinear_arith);
    assert(height * width == width * height) by (nonlinear_arith);
    assert(0 <= y * width <= height * width) by (nonlinear_arith)
        requires
            0 <= width,
            0 <= y <= height,
    ;
}

/// Builds the gradient, four bytes a pixel, rows first.
pub fn make_image_data(width: usize, height: usize) -> (result: Vec<u8>)
    requires
        width * height * 4 <= usize::MAX,
    ensures
        result@ == gradient(width as int, height as int),
{
    assert(width * height <= width * height * 4) by (nonlinear_arith);
    let len: usize = width * height * 4;
    let mut result: Vec<u8> = vec![0u8; len];
    proof {
        lemma_rows_adjoin(width as int, height as int, 0);
    }
    for y in 0..height
        invariant
            result.len() == width * height * 4,
            width * height * 4 <= usize::MAX,
            forall|i: int|
                0 <= i < pixel_offset(width as int, 0, y as int) ==> #[trigger] result@[i]
                    == gradient_byte(width as int, i),
    {
        for x in 0..width
            invariant
                y < height,
                result.len() == width * height * 4,
                width * height * 4 <= usize::MAX,
                forall|i: int|
                    0 <= i < pixel_offset(width as int, x as int, y as int)
                        ==> #[trigger] result@[i] == gradient_byte(width as int, i),
        {
            proof {
                lemma_pixel_in_bounds(width as int, height as int, x as int, y as int);
            }
            let ix: usize = (y * width + x) * 4;
            let red: u8 = #[verifier::truncate] (x as u8);
            let green: u8 = #[verifier::truncate] (y as u8);
            let blue: u8 = !red;
            assert(red == low_byte(x as int)) by (bit_vector)
                requires
                    red == x as u8,
            ;
            assert(green == low_byte(y as int)) by (bit_vector)
                requires
                    green == y as u8,
            ;
            assert(blue == 255 - red) by (bit_vector)
                requires
                    blue == !red,
            ;
            result[ix] = red;
            result[ix + 1] = green;
            result[ix + 2] = blue;
            result[ix + 3] = GRADIENT_ALPHA;
        }
        proof {
            lemma_rows_adjoin(width as int, height as int, y as int);
        }
    }
    proof {
        lemma_rows_adjoin(width as int, height as int, height as int);
    }
    result
}

} // verus!
