//! RGB images and the average colour of their centre, from which a member's
//! colour role is chosen.
use vstd::prelude::*;

verus! {

/// An RGB image: `data` holds three bytes per pixel, row after row.
pub struct RgbPixels {
    pub width: u32,
    pub height: u32,
    pub data: Vec<u8>,
}

pub open spec fn well_formed(img: RgbPixels) -> bool {
    img.data@.len() >= img.width * img.height * 3
}

/// What `image::load_from_memory(bytes)?.to_rgb8()` decodes from the bytes: width,
/// height and raw RGB bytes.
pub uninterp spec fn decoded_rgb(bytes: Seq<u8>) -> Option<(u32, u32, Seq<u8>)>;

/// Calls `image::load_from_memory` and `DynamicImage::to_rgb8`. Claimed: the
/// result is `decoded_rgb` of the bytes, and its buffer holds at least three bytes
/// per pixel (the invariant of `ImageBuffer`). The codecs are not stated.
#[verifier::external_body]
fn decode_rgb(bytes: &[u8]) -> (r: Option<RgbPixels>)
    ensures
        match r {
            Some(img) => decoded_rgb(bytes@) == Some((img.width, img.height, img.data@)) && well_formed(img),
            None => decoded_rgb(bytes@) is None,
        },
{
    match image::load_from_memory(bytes) {
        Ok(d) => {
            let img = d.to_rgb8();
            Some(RgbPixels { width: img.width(), height: img.height(), data: img.into_raw() })
        },
        Err(_) => None,
    }
}

/// Decodes a fetched avatar image into RGB pixels, or `None` when the bytes are
/// no image that the decoder reads.
pub fn load_rgb(bytes: &[u8]) -> (r: Option<RgbPixels>)
    ensures
        match r {
            Some(img) => decoded_rgb(bytes@) == Some((img.width, img.height, img.data@)) && well_formed(img),
            None => decoded_rgb(bytes@) is None,
        },
{
    decode_rgb(bytes)
}

/// Sum of channel `c` over `count` pixels of row `y` from column `x`.
pub open spec fn row_sum(data: Seq<u8>, w: int, y: int, x: int, count: int, c: int) -> int
    decreases count,
{
    if count <= 0 {
        0
    } else {
        row_sum(data, w, y, x, count - 1, c) + data[(y * w + x + count - 1) * 3 + c] as int
    }
}

/// Sum of channel `c` over the square of `side` pixels whose top left corner is `(x0, y0)`.
pub open spec fn square_sum(data: Seq<u8>, w: int, x0: int, y0: int, side: int, rows: int, c: int) -> int
    decreases rows,
{
    if rows <= 0 {
        0
    } else {
        square_sum(data, w, x0, y0, side, rows - 1, c) + row_sum(data, w, y0 + rows - 1, x0, side, c)
    }
}

/// The centred square of side `side`: its corner.
pub open spec fn corner(img: RgbPixels, side: u32) -> (int, int) {
    ((img.width - side) / 2, (img.height - side) / 2)
}

/// Average of channel `c` over the centred square, rounded down.
pub open spec fn center_average(img: RgbPixels, side: u32, c: int) -> int {
    let (x0, y0) = corner(img, side);
    square_sum(img.data@, img.width as int, x0, y0, side as int, side as int, c) / (side * side)
}

pub proof fn lemma_row_sum_bound(data: Seq<u8>, w: int, y: int, x: int, count: int, c: int)
    requires
        count >= 0,
    ensures
        0 <= row_sum(data, w, y, x, count, c) <= 255 * count,
    decreases count,
{
    if count > 0 {
        lemma_row_sum_bound(data, w, y, x, count - 1, c);
    }
}

pub proof fn lemma_square_sum_bound(data: Seq<u8>, w: int, x0: int, y0: int, side: int, rows: int, c: int)
    requires
        rows >= 0,
        side >= 0,
    ensures
        0 <= square_sum(data, w, x0, y0, side, rows, c) <= 255 * side * rows,
    decreases rows,
{
    if rows > 0 {
        lemma_square_sum_bound(data, w, x0, y0, side, rows - 1, c);
        lemma_row_sum_bound(data, w, y0 + rows - 1, x0, side, c);
        assert(255 * side * (rows - 1) + 255 * side == 255 * side * rows) by (nonlinear_arith);
    }
}

proof fn lemma_index_bound(x: int, y: int, w: int, h: int, c: int)
    requires
        0 <= x < w,
        0 <= y < h,
        0 <= c < 3,
    ensures
        0 <= (y * w + x) * 3 + c < w * h * 3,
{
    assert(y * w + x < w * h) by (nonlinear_arith)
        requires
            0 <= x < w,
            0 <= y < h,
    ;
    assert(0 <= y * w) by (nonlinear_arith)
        requires
            0 <= y,
            0 <= w,
    ;
}

/// The mean red, green and blue of the centred square of side `side`.
pub fn average_center_color(img: &RgbPixels, side: u32) -> (rgb: (u8, u8, u8))
    requires
        well_formed(*img),
        0 < side <= img.width,
        side <= img.height,
        255 * (side as int) * (side as int) <= u64::MAX,
    ensures
        rgb.0 as int == center_average(*img, side, 0),
        rgb.1 as int == center_average(*img, side, 1),
        rgb.2 as int == center_average(*img, side, 2),
{
    let w = img.width;
    let h = img.height;
    let x0 = (w - side) / 2;
    let y0 = (h - side) / 2;
    let ghost data = img.data@;
    let mut r_sum: u64 = 0;
    let mut g_sum: u64 = 0;
    let mut b_sum: u64 = 0;
    let mut count: u64 = 0;
    let mut dy: u32 = 0;
    while dy < side
        invariant
            data == img.data@,
            well_formed(*img),
            w == img.width,
            h == img.height,
            0 < side <= w,
            side <= h,
            x0 == (w - side) / 2,
            y0 == (h - side) / 2,
            255 * (side as int) * (side as int) <= u64::MAX,
            dy <= side,
            r_sum as int == square_sum(data, w as int, x0 as int, y0 as int, side as int, dy as int, 0),
            g_sum as int == square_sum(data, w as int, x0 as int, y0 as int, side as int, dy as int, 1),
            b_sum as int == square_sum(data, w as int, x0 as int, y0 as int, side as int, dy as int, 2),
            count as int == dy * side,
        decreases side - dy,
    {
        let y = y0 + dy;
        let mut dx: u32 = 0;
        let ghost r0 = r_sum as int;
        let ghost g0 = g_sum as int;
        let ghost b0 = b_sum as int;
        let ghost c0 = count as int;
        proof {
            lemma_square_sum_bound(data, w as int, x0 as int, y0 as int, side as int, dy as int, 0);
            lemma_square_sum_bound(data, w as int, x0 as int, y0 as int, side as int, dy as int, 1);
            lemma_square_sum_bound(data, w as int, x0 as int, y0 as int, side as int, dy as int, 2);
            assert(255 * side * (dy + 1) <= 255 * side * side) by (nonlinear_arith)
                requires
                    dy < side,
            ;
            assert(dy * side + side <= side * side) by (nonlinear_arith)
                requires
                    dy < side,
            ;
            assert(side * side <= 255 * side * side) by (nonlinear_arith);
            assert(255 * side * dy + 255 * side <= 255 * side * side) by (nonlinear_arith)
                requires
                    dy < side,
            ;
        }
        while dx < side
            invariant
                data == img.data@,
                well_formed(*img),
                w == img.width,
                h == img.height,
                0 < side <= w,
                side <= h,
                x0 == (w - side) / 2,
                y0 == (h - side) / 2,
                dy < side,
                y == y0 + dy,
                dx <= side,
                r0 + 255 * side <= 255 * side * side,
                g0 + 255 * side <= 255 * side * side,
                b0 + 255 * side <= 255 * side * side,
                255 * (side as int) * (side as int) <= u64::MAX,
                c0 + side <= side * side,
                side * side <= u64::MAX,
                r_sum as int == r0 + row_sum(data, w as int, y as int, x0 as int, dx as int, 0),
                g_sum as int == g0 + row_sum(data, w as int, y as int, x0 as int, dx as int, 1),
                b_sum as int == b0 + row_sum(data, w as int, y as int, x0 as int, dx as int, 2),
                count as int == c0 + dx,
            decreases side - dx,
        {
            let x = x0 + dx;
            proof {
                lemma_index_bound(x as int, y as int, w as int, h as int, 0);
                lemma_index_bound(x as int, y as int, w as int, h as int, 2);
                lemma_row_sum_bound(data, w as int, y as int, x0 as int, dx as int, 0);
                lemma_row_sum_bound(data, w as int, y as int, x0 as int, dx as int, 1);
                lemma_row_sum_bound(data, w as int, y as int, x0 as int, dx as int, 2);
                assert((y as int * w as int + x as int) * 3 + 2 < img.data@.len());
                assert(0 <= y as int * w as int);
            }
            let dlen = img.data.len();
            assert(dlen as int == img.data@.len());
            assert(((y as usize) as int) * ((w as usize) as int) < (dlen as int));
            let yw = (y as usize) * (w as usize);
            let i = (yw + (x as usize)) * 3;
            r_sum = r_sum + img.data[i] as u64;
            g_sum = g_sum + img.data[i + 1] as u64;
            b_sum = b_sum + img.data[i + 2] as u64;
            count = count + 1;
            dx = dx + 1;
        }
        assert(count as int == (dy + 1) * side) by (nonlinear_arith)
            requires
                count as int == c0 + side,
                c0 == dy * side,
        ;
        dy = dy + 1;
    }
    assert(count as int == side * side);
    proof {
        lemma_square_sum_bound(data, w as int, x0 as int, y0 as int, side as int, side as int, 0);
        lemma_square_sum_bound(data, w as int, x0 as int, y0 as int, side as int, side as int, 1);
        lemma_square_sum_bound(data, w as int, x0 as int, y0 as int, side as int, side as int, 2);
        assert(side * side > 0) by (nonlinear_arith)
            requires
                side > 0,
        ;
        assert(255 * side * side == 255 * (side * side)) by (nonlinear_arith);
    }
    let r = r_sum / count;
    let g = g_sum / count;
    let b = b_sum / count;
    proof {
        lemma_avg_bound(r_sum as int, count as int);
        lemma_avg_bound(g_sum as int, count as int);
        lemma_avg_bound(b_sum as int, count as int);
    }
    (r as u8, g as u8, b as u8)
}

proof fn lemma_avg_bound(sum: int, count: int)
    requires
        count > 0,
        0 <= sum <= 255 * count,
    ensures
        0 <= sum / count <= 255,
{
    assert(sum / count <= 255) by (nonlinear_arith)
        requires
            count > 0,
            0 <= sum <= 255 * count,
    ;
    assert(sum / count >= 0) by (nonlinear_arith)
        requires
            count > 0,
            0 <= sum,
    ;
}

} // verus!
