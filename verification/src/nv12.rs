//! Conversion of NV12 frames (full-range YUV 4:2:0) to packed RGB.
//!
//! An NV12 frame holds one luma byte per pixel, row by row, and then one
//! `(u, v)` byte pair per block of two by two pixels.

use crate::arith::trunc_div;
use vstd::prelude::*;

verus! {

/// The byte nearest to `x`.
pub open spec fn saturate(x: int) -> u8 {
    if x < 0 {
        0
    } else if x > 255 {
        255
    } else {
        x as u8
    }
}

/// Red of a pixel with luma `y` and chroma byte `v`.
pub open spec fn red(y: u8, v: u8) -> u8 {
    saturate(y + trunc_div(1402 * (v - 128), 1000))
}

/// Green of a pixel with luma `y` and chroma bytes `u` and `v`.
pub open spec fn green(y: u8, u: u8, v: u8) -> u8 {
    saturate(y - trunc_div(344 * (u - 128), 1000) - trunc_div(714 * (v - 128), 1000))
}

/// Blue of a pixel with luma `y` and chroma byte `u`.
pub open spec fn blue(y: u8, u: u8) -> u8 {
    saturate(y + trunc_div(1772 * (u - 128), 1000))
}

/// Offset in the chroma plane of the `(u, v)` pair of the pixel at `row`, `col`.
pub open spec fn chroma_offset(width: int, row: int, col: int) -> int {
    (row / 2) * width + (col - col % 2)
}

/// Number of bytes that the conversion of a frame of this size reads.
///
/// An odd width needs one byte more than its chroma rows hold: the pair of the
/// last column of the last row starts on the last byte of that row.
pub open spec fn frame_bytes(width: int, height: int) -> int {
    if width == 0 || height == 0 {
        0
    } else {
        width * height + ((height + 1) / 2) * width + width % 2
    }
}

/// Whether `len` bytes hold a frame of this size and its RGB form can be
/// allocated.
pub open spec fn is_convertible(len: int, width: int, height: int) -> bool {
    &&& width * height * 3 <= isize::MAX
    &&& frame_bytes(width, height) <= len
}

/// Red, green and blue of the pixel at `row`, `col`.
pub open spec fn pixel(nv12: Seq<u8>, width: int, height: int, row: int, col: int) -> (u8, u8, u8) {
    let y = nv12[row * width + col];
    let chroma = width * height + chroma_offset(width, row, col);
    let u = nv12[chroma];
    let v = nv12[chroma + 1];
    (red(y, v), green(y, u, v), blue(y, u))
}

/// Byte `i` of the RGB form of a frame: pixels row by row, each as R, G, B.
pub open spec fn rgb_byte(nv12: Seq<u8>, width: int, height: int, i: int) -> u8 {
    let p = pixel(nv12, width, height, (i / 3) / width, (i / 3) % width);
    if i % 3 == 0 {
        p.0
    } else if i % 3 == 1 {
        p.1
    } else {
        p.2
    }
}

/// The RGB form of a frame.
pub open spec fn rgb_image(nv12: Seq<u8>, width: int, height: int) -> Seq<u8> {
    Seq::new((width * height * 3) as nat, |i: int| rgb_byte(nv12, width, height, i))
}

/// Row and column of the pixel with index `row * width + col`.
proof fn lemma_pixel_position(width: int, row: int, col: int)
    requires
        0 <= col < width,
    ensures
        (row * width + col) / width == row,
        (row * width + col) % width == col,
{
    vstd::arithmetic::div_mod::lemma_fundamental_div_mod_converse(
        row * width + col,
        width,
        row,
        col,
    );
}

/// Both chroma bytes of a pixel lie within the bytes that a frame needs.
proof fn lemma_chroma_in_frame(width: int, height: int, row: int, col: int)
    requires
        0 <= row < height,
        0 <= col < width,
    ensures
        0 <= chroma_offset(width, row, col),
        0 <= (row / 2) * width,
        width * height + chroma_offset(width, row, col) + 1 < frame_bytes(width, height),
{
    let last_row = (height - 1) / 2;
    assert(row / 2 <= last_row);
    assert(0 <= (row / 2) * width <= last_row * width) by (nonlinear_arith)
        requires
            0 <= row / 2 <= last_row,
            0 < width,
    ;
    assert(((height + 1) / 2) * width == last_row * width + width) by (nonlinear_arith)
        requires
            (height + 1) / 2 == last_row + 1,
    ;
}

fn saturating_byte(x: i32) -> (b: u8)
    ensures
        b == saturate(x as int),
{
    if x < 0 {
        0
    } else if x > 255 {
        255
    } else {
        x as u8
    }
}

/// Whether `len` bytes can be converted as a frame of `width` by `height`.
pub fn convertible(len: usize, width: usize, height: usize) -> (r: bool)
    ensures
        r == is_convertible(len as int, width as int, height as int),
{
    if width == 0 || height == 0 {
        return true;
    }
    let pixels: usize = match width.checked_mul(height) {
        Some(n) => n,
        None => {
            return false;
        },
    };
    if pixels > isize::MAX as usize / 3 {
        return false;
    }
    proof {
        let w = width as int;
        let h = height as int;
        assert(h <= w * h) by (nonlinear_arith)
            requires
                1 <= w,
                1 <= h,
        ;
        assert(0 <= ((h + 1) / 2) * w <= w * h) by (nonlinear_arith)
            requires
                1 <= w,
                1 <= h,
                (h + 1) / 2 <= h,
                0 <= (h + 1) / 2,
        ;
    }
    let chroma: usize = ((height + 1) / 2) * width;
    pixels + chroma + width % 2 <= len
}

/// Convert NV12 (full-range YUV 4:2:0) to packed RGB.
/// Output: width x height x 3 bytes, row-major, R-G-B order.
pub fn nv12_to_rgb(nv12: &[u8], width: usize, height: usize) -> (rgb: Vec<u8>)
    requires
        is_convertible(nv12@.len() as int, width as int, height as int),
    ensures
        rgb@ == rgb_image(nv12@, width as int, height as int),
{
    let ghost w = width as int;
    let ghost h = height as int;
    proof {
        assert(0 <= w * h) by (nonlinear_arith)
            requires
                0 <= w,
                0 <= h,
        ;
    }
    let luma: usize = width * height;
    let mut rgb: Vec<u8> = vec![0u8; luma * 3];
    proof {
        assert(0 * w * 3 == 0) by (nonlinear_arith);
    }

    for row in 0..height
        invariant
            w == width,
            h == height,
            luma == w * h,
            is_convertible(nv12@.len() as int, w, h),
            rgb@.len() == w * h * 3,
            forall|i: int| 0 <= i < row * w * 3 ==> rgb@[i] == rgb_byte(nv12@, w, h, i),
    {
        for col in 0..width
            invariant
                w == width,
                h == height,
                luma == w * h,
                row < height,
                is_convertible(nv12@.len() as int, w, h),
                rgb@.len() == w * h * 3,
                forall|i: int|
                    0 <= i < (row * w + col) * 3 ==> rgb@[i] == rgb_byte(nv12@, w, h, i),
        {
            proof {
                lemma_pixel_position(w, row as int, col as int);
                lemma_chroma_in_frame(w, h, row as int, col as int);
                assert(0 <= row * w && row * w + w <= w * h) by (nonlinear_arith)
                    requires
                        0 <= row < h,
                        0 < w,
                ;
                assert(col & !1 == col - col % 2) by (bit_vector);
            }
            let y: i32 = nv12[row * width + col] as i32;
            let uv: usize = (row / 2) * width + (col & !1);
            let u: i32 = nv12[luma + uv] as i32 - 128;
            let v: i32 = nv12[luma + uv + 1] as i32 - 128;

            let r: u8 = saturating_byte(y + 1402 * v / 1000);
            let g: u8 = saturating_byte(y - 344 * u / 1000 - 714 * v / 1000);
            let b: u8 = saturating_byte(y + 1772 * u / 1000);

            let i: usize = (row * width + col) * 3;
            rgb[i] = r;
            rgb[i + 1] = g;
            rgb[i + 2] = b;
            proof {
                let p = row * w + col;
                assert((3 * p) / 3 == p && (3 * p + 1) / 3 == p && (3 * p + 2) / 3 == p);
            }
        }
        proof {
            assert((row + 1) * w * 3 == (row * w + w) * 3) by (nonlinear_arith);
        }
    }
    proof {
        assert(h * w * 3 == w * h * 3) by (nonlinear_arith);
    }
    rgb
}

/// The RGB form is row-major, three bytes per pixel, in the order R, G, B.
pub proof fn law_packed_row_major(nv12: Seq<u8>, width: int, height: int, row: int, col: int)
    requires
        0 <= row < height,
        0 <= col < width,
    ensures
        ({
            let rgb = rgb_image(nv12, width, height);
            let i = (row * width + col) * 3;
            let p = pixel(nv12, width, height, row, col);
            &&& rgb.len() == width * height * 3
            &&& 0 <= i && i + 2 < rgb.len()
            &&& rgb[i] == p.0
            &&& rgb[i + 1] == p.1
            &&& rgb[i + 2] == p.2
        }),
{
    lemma_pixel_position(width, row, col);
    assert(0 <= row * width && row * width + width <= width * height) by (nonlinear_arith)
        requires
            0 <= row < height,
            0 < width,
    ;
    let p = row * width + col;
    assert((3 * p) / 3 == p && (3 * p + 1) / 3 == p && (3 * p + 2) / 3 == p);
}

/// A pixel with neutral chroma is grey, at exactly its luma: the range is full.
pub proof fn law_neutral_chroma_is_grey(
    nv12: Seq<u8>,
    width: int,
    height: int,
    row: int,
    col: int,
)
    requires
        nv12[width * height + chroma_offset(width, row, col)] == 128,
        nv12[width * height + chroma_offset(width, row, col) + 1] == 128,
    ensures
        ({
            let y = nv12[row * width + col];
            pixel(nv12, width, height, row, col) == (y, y, y)
        }),
{
}

/// The pixels of a two by two block share their chroma: those of equal luma
/// have equal colour.
pub proof fn law_block_shares_chroma(
    nv12: Seq<u8>,
    width: int,
    height: int,
    row: int,
    col: int,
    row2: int,
    col2: int,
)
    requires
        row / 2 == row2 / 2,
        col / 2 == col2 / 2,
        nv12[row * width + col] == nv12[row2 * width + col2],
    ensures
        pixel(nv12, width, height, row, col) == pixel(nv12, width, height, row2, col2),
{
}

/// Bytes past those that the frame needs have no influence on the image.
pub proof fn law_trailing_bytes_are_ignored(a: Seq<u8>, b: Seq<u8>, width: int, height: int)
    requires
        0 <= width,
        0 <= height,
        frame_bytes(width, height) <= a.len(),
        frame_bytes(width, height) <= b.len(),
        forall|i: int| 0 <= i < frame_bytes(width, height) ==> a[i] == b[i],
    ensures
        rgb_image(a, width, height) == rgb_image(b, width, height),
{
    assert forall|i: int| 0 <= i < width * height * 3 implies rgb_byte(a, width, height, i)
        == rgb_byte(b, width, height, i) by {
        let p = i / 3;
        assert(0 < width && 0 < height) by (nonlinear_arith)
            requires
                0 <= width,
                0 <= height,
                0 < width * height,
        ;
        let row = p / width;
        let col = p % width;
        assert(p == row * width + col && 0 <= col < width) by {
            vstd::arithmetic::div_mod::lemma_fundamental_div_mod(p, width);
            vstd::arithmetic::mul::lemma_mul_is_commutative(row, width);
        }
        assert(0 <= row < height) by (nonlinear_arith)
            requires
                0 <= p < width * height,
                p == row * width + col,
                0 <= col < width,
                0 < width,
        ;
        lemma_chroma_in_frame(width, height, row, col);
    }
}

proof fn lemma_rounded_thousandths(n: int, q: int)
    requires
        n >= 0 ==> 1000 * q <= n < 1000 * (q + 1),
        n < 0 ==> 1000 * (q - 1) < n <= 1000 * q,
    ensures
        trunc_div(n, 1000) == q,
{
}

/// What a whole conversion gives, byte by byte, of the bytes that went in: the
/// luma of the pixel, moved by the chroma of its block. The parameters `r_v`,
/// `g_u`, `g_v` and `b_u` are the chroma terms, in thousandths rounded toward
/// zero: the bounds leave one value each.
pub proof fn law_conversion(
    nv12: Seq<u8>,
    width: int,
    height: int,
    row: int,
    col: int,
    r_v: int,
    g_u: int,
    g_v: int,
    b_u: int,
)
    requires
        0 <= row < height,
        0 <= col < width,
        ({
            let chroma = width * height + (row / 2) * width + 2 * (col / 2);
            let u = nv12[chroma] - 128;
            let v = nv12[chroma + 1] - 128;
            &&& v >= 0 ==> 1000 * r_v <= 1402 * v < 1000 * (r_v + 1)
            &&& v < 0 ==> 1000 * (r_v - 1) < 1402 * v <= 1000 * r_v
            &&& u >= 0 ==> 1000 * g_u <= 344 * u < 1000 * (g_u + 1)
            &&& u < 0 ==> 1000 * (g_u - 1) < 344 * u <= 1000 * g_u
            &&& v >= 0 ==> 1000 * g_v <= 714 * v < 1000 * (g_v + 1)
            &&& v < 0 ==> 1000 * (g_v - 1) < 714 * v <= 1000 * g_v
            &&& u >= 0 ==> 1000 * b_u <= 1772 * u < 1000 * (b_u + 1)
            &&& u < 0 ==> 1000 * (b_u - 1) < 1772 * u <= 1000 * b_u
        }),
    ensures
        ({
            let rgb = rgb_image(nv12, width, height);
            let i = 3 * (row * width + col);
            let y = nv12[row * width + col];
            let (r, g, b) = (y + r_v, y - g_u - g_v, y + b_u);
            &&& rgb.len() == 3 * (width * height)
            &&& 0 <= i && i + 2 < rgb.len()
            &&& r <= 0 ==> rgb[i] == 0
            &&& 0 <= r <= 255 ==> rgb[i] == r
            &&& r >= 255 ==> rgb[i] == 255
            &&& g <= 0 ==> rgb[i + 1] == 0
            &&& 0 <= g <= 255 ==> rgb[i + 1] == g
            &&& g >= 255 ==> rgb[i + 1] == 255
            &&& b <= 0 ==> rgb[i + 2] == 0
            &&& 0 <= b <= 255 ==> rgb[i + 2] == b
            &&& b >= 255 ==> rgb[i + 2] == 255
        }),
{
    law_packed_row_major(nv12, width, height, row, col);
    let chroma = width * height + chroma_offset(width, row, col);
    assert(chroma == width * height + (row / 2) * width + 2 * (col / 2));
    let u = nv12[chroma] - 128;
    let v = nv12[chroma + 1] - 128;
    lemma_rounded_thousandths(1402 * v, r_v);
    lemma_rounded_thousandths(344 * u, g_u);
    lemma_rounded_thousandths(714 * v, g_v);
    lemma_rounded_thousandths(1772 * u, b_u);
    let y = nv12[row * width + col];
    let p = pixel(nv12, width, height, row, col);
    assert(p.0 == saturate(y + r_v));
    assert(p.1 == saturate(y - g_u - g_v));
    assert(p.2 == saturate(y + b_u));
}

/// A sequence of bytes can be converted exactly where every byte that a pixel
/// is made of is there, and the result can be allocated: otherwise the result
/// is too large, or the last byte of the last pixel is missing.
pub proof fn law_convertible_where_all_bytes_are_there(
    len: int,
    width: int,
    height: int,
    row: int,
    col: int,
)
    requires
        0 <= len,
        0 <= width,
        0 <= height,
    ensures
        is_convertible(len, width, height) ==> 3 * (width * height) <= isize::MAX,
        is_convertible(len, width, height) && 0 <= row < height && 0 <= col < width ==> {
            &&& 0 <= row * width + col < len
            &&& width * height <= width * height + (row / 2) * width + 2 * (col / 2)
            &&& width * height + (row / 2) * width + 2 * (col / 2) + 1 < len
        },
        !is_convertible(len, width, height) ==> {
            ||| 3 * (width * height) > isize::MAX
            ||| width > 0 && height > 0 && width * height + ((height - 1) / 2) * width + 2 * ((width
                - 1) / 2) + 1 >= len
        },
{
    if width == 0 || height == 0 {
        assert(width * height == 0) by (nonlinear_arith)
            requires
                width == 0 || height == 0,
        ;
    } else {
        let half = (height - 1) / 2;
        assert(half * width + width == ((height + 1) / 2) * width) by (nonlinear_arith)
            requires
                half + 1 == (height + 1) / 2,
        ;
        if 0 <= row < height && 0 <= col < width {
            lemma_chroma_in_frame(width, height, row, col);
            assert(0 <= row * width && row * width + width <= width * height)
                by (nonlinear_arith)
                requires
                    0 <= row < height,
                    0 < width,
            ;
        }
    }
}

} // verus!
