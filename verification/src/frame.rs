//! The raster: in which order the pixels of an image are written.
use crate::vec3::Color;
use crate::{write_color, written};
use vstd::prelude::*;

verus! {

/// Where the three bytes of the pixel in column `i` and row `j` begin in an
/// image of the given size. Rows are counted from the bottom of the picture
/// and written from the top, so the highest row comes first.
pub open spec fn pixel_offset(image_width: u32, image_height: u32, i: u32, j: u32) -> int {
    3 * ((image_height - 1 - j) * image_width + i)
}

/// Whether the bytes at the pixel's place can be what the pixel is written
/// as: the bytes of some colour that `pixel` gives for it.
pub open spec fn is_pixel<F: Fn(u32, u32) -> Color>(pixel: F, i: u32, j: u32, bytes: Seq<u8>) -> bool {
    exists|color: Color| #[trigger] call_ensures(pixel, (i, j), color) && bytes == written(color)
}

/// Whether the first `count` pixels of an image, in the order of writing,
/// are in `data`.
pub open spec fn is_raster_prefix<F: Fn(u32, u32) -> Color>(
    data: Seq<u8>,
    image_width: u32,
    image_height: u32,
    pixel: F,
    count: int,
) -> bool {
    forall|i: u32, j: u32|
        #![trigger pixel_offset(image_width, image_height, i, j)]
        i < image_width && j < image_height && pixel_offset(image_width, image_height, i, j) < 3
            * count ==> is_pixel(
            pixel,
            i,
            j,
            data.subrange(
                pixel_offset(image_width, image_height, i, j),
                pixel_offset(image_width, image_height, i, j) + 3,
            ),
        )
}

/// Renders an image: an interleaved raster of red, green and blue bytes, row
/// after row from the top of the picture, each row from left to right.
///
/// `pixel` gives the colour of a pixel, averaged over its samples and gamma
/// corrected.
pub fn render<F: Fn(u32, u32) -> Color>(image_width: u32, image_height: u32, pixel: &F) -> (data: Vec<
    u8,
>)
    requires
        3 * image_width * image_height <= u32::MAX,
        forall|i: u32, j: u32| call_requires(*pixel, (i, j)),
    ensures
        data@.len() == 3 * image_width * image_height,
        is_raster_prefix(
            data@,
            image_width,
            image_height,
            *pixel,
            image_width * image_height,
        ),
{
    let mut data: Vec<u8> = Vec::new();
    let mut rows_done: u32 = 0;
    while rows_done < image_height
        invariant
            rows_done <= image_height,
            3 * image_width * image_height <= u32::MAX,
            data@.len() == 3 * image_width * rows_done,
            is_raster_prefix(
                data@,
                image_width,
                image_height,
                *pixel,
                image_width * rows_done,
            ),
            forall|i: u32, j: u32| call_requires(*pixel, (i, j)),
            decreases image_height - rows_done,
    {
        let j: u32 = image_height - 1 - rows_done;
        let mut i: u32 = 0;
        proof {
            assert(3 * image_width * rows_done == 3 * (image_width * rows_done)) by (nonlinear_arith);
        }
        while i < image_width
            invariant
                i <= image_width,
                rows_done < image_height,
                j == image_height - 1 - rows_done,
                3 * image_width * image_height <= u32::MAX,
                data@.len() == 3 * (image_width * rows_done + i),
                is_raster_prefix(
                    data@,
                    image_width,
                    image_height,
                    *pixel,
                    image_width * rows_done + i,
                ),
                forall|a: u32, b: u32| call_requires(*pixel, (a, b)),
                    decreases image_width - i,
        {
            let ghost before = data@;
            let color = pixel(i, j);
            write_color(&mut data, color);
            proof {
                let done = image_width * rows_done + i;
                assert(pixel_offset(image_width, image_height, i, j) == 3 * done) by (nonlinear_arith)
                    requires
                        j == image_height - 1 - rows_done,
                        done == image_width * rows_done + i,
                ;
                assert(data@.subrange(3 * done, 3 * done + 3) =~= written(color));
                assert forall|a: u32, b: u32|
                    #![trigger pixel_offset(image_width, image_height, a, b)]
                    a < image_width && b < image_height && pixel_offset(
                        image_width,
                        image_height,
                        a,
                        b,
                    ) < 3 * (done + 1) implies is_pixel(
                    *pixel,
                    a,
                    b,
                    data@.subrange(
                        pixel_offset(image_width, image_height, a, b),
                        pixel_offset(image_width, image_height, a, b) + 3,
                    ),
                ) by {
                    let at = pixel_offset(image_width, image_height, a, b);
                    if at < 3 * done {
                        assert(data@.subrange(at, at + 3) =~= before.subrange(at, at + 3));
                    } else {
                        assert(at == 3 * done);
                        lemma_offset_is_one_to_one(image_width, image_height, a, b, i, j);
                    }
                }
            }
            i = i + 1;
        }
        proof {
            assert(image_width * rows_done + image_width == image_width * (rows_done + 1))
                by (nonlinear_arith);
            assert(3 * (image_width * (rows_done + 1)) == 3 * image_width * (rows_done + 1))
                by (nonlinear_arith);
        }
        rows_done = rows_done + 1;
    }
    data
}

/// No two pixels of an image are written to the same place.
pub proof fn lemma_offset_is_one_to_one(
    image_width: u32,
    image_height: u32,
    a: u32,
    b: u32,
    i: u32,
    j: u32,
)
    requires
        a < image_width,
        i < image_width,
        b < image_height,
        j < image_height,
        pixel_offset(image_width, image_height, a, b) == pixel_offset(
            image_width,
            image_height,
            i,
            j,
        ),
    ensures
        a == i,
        b == j,
{
    let w = image_width as int;
    let rb = image_height - 1 - b;
    let rj = image_height - 1 - j;
    assert(rb * w + a == rj * w + i);
    assert(rb == rj && a == i) by (nonlinear_arith)
        requires
            rb * w + a == rj * w + i,
            0 <= a < w,
            0 <= i < w,
            0 <= rb,
            0 <= rj,
    ;
}

} // verus!
