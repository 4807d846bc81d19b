use vstd::prelude::*;

verus! {

/// The bytes of one pixel: red, green and blue.
pub const CHANNELS: usize = 3;

/// The number of bytes of an image of the given size, as a mathematical
/// integer.
pub open spec fn image_bytes(width: int, height: int) -> int {
    height * width * CHANNELS as int
}

/// The column and the row of the pixel numbered `index`, in an image whose
/// pixels are numbered row by row.
pub open spec fn pixel_coords_spec(index: int, width: int) -> (int, int) {
    (index % width, index / width)
}

/// The length of the buffer that holds an image of the given size, unless
/// that number is beyond what a length can be.
pub fn buffer_len(width: usize, height: usize) -> (len: Option<usize>)
    ensures
        len.is_some() <==> image_bytes(width as int, height as int) <= usize::MAX,
        len.is_some() ==> len.unwrap() == image_bytes(width as int, height as int),
{
    match height.checked_mul(width) {
        Some(pixels) => {
            let len = pixels.checked_mul(CHANNELS);
            proof {
                assert(image_bytes(width as int, height as int) == pixels * 3);
            }
            len
        },
        None => {
            proof {
                assert(height * width * 3 >= height * width) by (nonlinear_arith);
            }
            None
        },
    }
}

/// The column and the row of the pixel numbered `index`.
pub fn pixel_coords(index: usize, width: usize) -> (at: (usize, usize))
    requires
        width > 0,
    ensures
        (at.0 as int, at.1 as int) == pixel_coords_spec(index as int, width as int),
{
    (index % width, index / width)
}

/// Every pixel of an image lies inside it, and its number is its row times
/// the width plus its column.
pub proof fn lemma_pixel_inside(index: int, width: int, height: int)
    requires
        width > 0,
        0 <= index < width * height,
    ensures
        0 <= pixel_coords_spec(index, width).0 < width,
        0 <= pixel_coords_spec(index, width).1 < height,
        index == pixel_coords_spec(index, width).1 * width + pixel_coords_spec(index, width).0,
{
    let column = index % width;
    let row = index / width;
    assert(index == row * width + column && 0 <= column < width) by (nonlinear_arith)
        requires
            width > 0,
            column == index % width,
            row == index / width,
    ;
    assert(0 <= row < height) by (nonlinear_arith)
        requires
            width > 0,
            0 <= index < width * height,
            index == row * width + column,
            0 <= column < width,
    ;
}

/// Every place inside an image belongs to exactly one pixel: the one whose
/// number is the row times the width plus the column.
pub proof fn lemma_pixel_of_place(column: int, row: int, width: int, height: int)
    requires
        0 <= column < width,
        0 <= row < height,
    ensures
        0 <= row * width + column < width * height,
        pixel_coords_spec(row * width + column, width) == (column, row),
{
    let index = row * width + column;
    assert(0 <= index < width * height) by (nonlinear_arith)
        requires
            0 <= column < width,
            0 <= row < height,
            index == row * width + column,
    ;
    vstd::arithmetic::div_mod::lemma_fundamental_div_mod_converse(index, width, row, column);
}

/// Two pixels at the same place are the same pixel.
pub proof fn lemma_pixels_differ(first: int, second: int, width: int)
    requires
        width > 0,
        0 <= first,
        0 <= second,
        pixel_coords_spec(first, width) == pixel_coords_spec(second, width),
    ensures
        first == second,
{
    vstd::arithmetic::div_mod::lemma_fundamental_div_mod(first, width);
    vstd::arithmetic::div_mod::lemma_fundamental_div_mod(second, width);
}

} // verus!
