//! BGRA8 to NV12 (BT.709, limited range) conversion for hardware encoder input.

use vstd::prelude::*;

verus! {

/// `value` held inside `low..=high`.
pub open spec fn clamped(value: int, low: int, high: int) -> int {
    if value < low {
        low
    } else if value > high {
        high
    } else {
        value
    }
}

/// BT.709 limited-range luma of one pixel (16 to 235), rounded to nearest.
pub open spec fn luma(b: u8, g: u8, r: u8) -> int {
    clamped(16 + (47 * r + 157 * g + 16 * b + 128) / 256, 16, 235)
}

/// BT.709 limited-range blue difference of one pixel (16 to 240).
pub open spec fn chroma_blue(b: u8, g: u8, r: u8) -> int {
    clamped(128 + (112 * b - 26 * r - 87 * g + 128) / 256, 16, 240)
}

/// BT.709 limited-range red difference of one pixel (16 to 240).
pub open spec fn chroma_red(b: u8, g: u8, r: u8) -> int {
    clamped(128 + (112 * r - 102 * g - 10 * b + 128) / 256, 16, 240)
}

/// The luma of the pixel with the given index in row order.
pub open spec fn luma_at(bgra: Seq<u8>, pixel: int) -> u8 {
    luma(bgra[4 * pixel], bgra[4 * pixel + 1], bgra[4 * pixel + 2]) as u8
}

/// Byte `k` of the interleaved chroma plane of an image `width` pixels wide:
/// each pair of bytes holds blue, then red difference of the top left pixel of
/// one two-by-two block.
pub open spec fn chroma_at(bgra: Seq<u8>, width: int, k: int) -> u8 {
    let column = k % width;
    let pixel = 2 * (k / width) * width + (column - column % 2);
    if column % 2 == 0 {
        chroma_blue(bgra[4 * pixel], bgra[4 * pixel + 1], bgra[4 * pixel + 2]) as u8
    } else {
        chroma_red(bgra[4 * pixel], bgra[4 * pixel + 1], bgra[4 * pixel + 2]) as u8
    }
}

/// The NV12 image: the luma plane, then the interleaved chroma plane.
pub open spec fn nv12_image(bgra: Seq<u8>, width: int, height: int) -> Seq<u8> {
    let pixels = (width * height) as nat;
    Seq::new(pixels, |i: int| luma_at(bgra, i)) + Seq::new(
        pixels / 2,
        |k: int| chroma_at(bgra, width, k),
    )
}

/// Whether an image of this size can be converted from a buffer of `len` bytes.
pub open spec fn nv12_convertible(len: int, width: int, height: int) -> bool {
    &&& width > 0
    &&& height > 0
    &&& width % 2 == 0
    &&& height % 2 == 0
    &&& len >= width * height * 4
}

fn luma_of(b: u8, g: u8, r: u8) -> (y: u8)
    ensures
        y == luma(b, g, r),
{
    let scaled: u32 = (47 * r as u32 + 157 * g as u32 + 16 * b as u32 + 128) / 256 + 16;
    if scaled > 235 {
        235
    } else {
        scaled as u8
    }
}

fn chroma_blue_of(b: u8, g: u8, r: u8) -> (u: u8)
    ensures
        u == chroma_blue(b, g, r),
{
    // The sum is shifted by 113 * 256 so that it is never negative.
    let scaled: u32 = (112 * b as u32 + 28928 + 128 - 26 * r as u32 - 87 * g as u32) / 256 + 15;
    if scaled < 16 {
        16
    } else if scaled > 240 {
        240
    } else {
        scaled as u8
    }
}

fn chroma_red_of(b: u8, g: u8, r: u8) -> (v: u8)
    ensures
        v == chroma_red(b, g, r),
{
    // The sum is shifted by 113 * 256 so that it is never negative.
    let scaled: u32 = (112 * r as u32 + 28928 + 128 - 102 * g as u32 - 10 * b as u32) / 256 + 15;
    if scaled < 16 {
        16
    } else if scaled > 240 {
        240
    } else {
        scaled as u8
    }
}

/// The pixel that chroma byte `k` is taken from lies inside the image.
proof fn lemma_chroma_pixel_inside(k: int, width: int, height: int)
    requires
        width > 0,
        height > 0,
        width % 2 == 0,
        height % 2 == 0,
        0 <= k < (width * height) / 2,
    ensures
        0 <= k % width < width,
        0 <= 2 * (k / width) * width,
        2 * (k / width) * width + (k % width) < width * height,
{
    let row = k / width;
    let half = height / 2;
    vstd::arithmetic::div_mod::lemma_fundamental_div_mod(k, width);
    vstd::arithmetic::div_mod::lemma_mod_bound(k, width);
    assert(width * height == 2 * (width * half)) by (nonlinear_arith)
        requires
            height == 2 * half,
    ;
    assert(row < half) by (nonlinear_arith)
        requires
            k == width * row + k % width,
            k % width >= 0,
            k < width * half,
            width > 0,
    ;
    assert(row >= 0) by (nonlinear_arith)
        requires
            k == width * row + k % width,
            k % width < width,
            k >= 0,
            width > 0,
    ;
    assert(2 * row * width + width <= width * height) by (nonlinear_arith)
        requires
            height == 2 * half,
            row + 1 <= half,
            width > 0,
    ;
    assert(0 <= 2 * row * width) by (nonlinear_arith)
        requires
            row >= 0,
            width > 0,
    ;
}

/// Converts a BGRA8 image to NV12. Odd or empty sizes and buffers that are too
/// short for the size are refused.
pub fn bgra_to_nv12(bgra: &[u8], width: u32, height: u32) -> (image: Option<Vec<u8>>)
    ensures
        image is Some <==> nv12_convertible(bgra@.len() as int, width as int, height as int),
        image matches Some(bytes) ==> bytes@ == nv12_image(bgra@, width as int, height as int),
{
    let len: usize = bgra.len();
    let w: usize = width as usize;
    let h: usize = height as usize;
    if w == 0 || h == 0 || w % 2 != 0 || h % 2 != 0 {
        return None;
    }
    let pixels: usize = match w.checked_mul(h) {
        Some(pixels) => pixels,
        None => {
            return None;
        },
    };
    let needed: usize = match pixels.checked_mul(4) {
        Some(needed) => needed,
        None => {
            return None;
        },
    };
    if len < needed {
        return None;
    }
    let mut image: Vec<u8> = Vec::new();
    let mut i: usize = 0;
    while i < pixels
        invariant
            i <= pixels,
            pixels * 4 <= bgra@.len(),
            pixels * 4 <= usize::MAX,
            image@ == Seq::new(i as nat, |p: int| luma_at(bgra@, p)),
        decreases pixels - i,
    {
        image.push(luma_of(bgra[4 * i], bgra[4 * i + 1], bgra[4 * i + 2]));
        i += 1;
        assert(image@ =~= Seq::new(i as nat, |p: int| luma_at(bgra@, p)));
    }
    let ghost plane = image@;
    let mut k: usize = 0;
    while k < pixels / 2
        invariant
            w == width,
            h == height,
            k <= pixels / 2,
            w > 0,
            h > 0,
            w % 2 == 0,
            h % 2 == 0,
            pixels == w * h,
            pixels * 4 <= bgra@.len(),
            pixels * 4 <= usize::MAX,
            plane == Seq::new(pixels as nat, |p: int| luma_at(bgra@, p)),
            image@ == plane + Seq::new(k as nat, |c: int| chroma_at(bgra@, w as int, c)),
        decreases pixels / 2 - k,
    {
        proof {
            lemma_chroma_pixel_inside(k as int, w as int, h as int);
        }
        let column: usize = k % w;
        let row: usize = k / w;
        assert(2 * row <= 2 * row * w) by (nonlinear_arith)
            requires
                w > 0,
                row >= 0,
        ;
        let pixel: usize = 2 * row * w + (column - column % 2);
        let b: u8 = bgra[4 * pixel];
        let g: u8 = bgra[4 * pixel + 1];
        let r: u8 = bgra[4 * pixel + 2];
        if column % 2 == 0 {
            image.push(chroma_blue_of(b, g, r));
        } else {
            image.push(chroma_red_of(b, g, r));
        }
        k += 1;
        assert(image@ =~= plane + Seq::new(k as nat, |c: int| chroma_at(bgra@, w as int, c)));
    }
    Some(image)
}

/// Every byte of a converted image is a limited-range value: luma lies in 16
/// to 235 and both colour differences in 16 to 240, and the chroma plane is half as
/// long as the luma plane.
pub proof fn law_limited_range(bgra: Seq<u8>, width: int, height: int)
    requires
        nv12_convertible(bgra.len() as int, width, height),
    ensures
        nv12_image(bgra, width, height).len() == width * height + width * height / 2,
        forall|i: int|
            #![trigger nv12_image(bgra, width, height)[i]]
            0 <= i < width * height ==> 16 <= nv12_image(bgra, width, height)[i] <= 235,
        forall|i: int|
            #![trigger nv12_image(bgra, width, height)[i]]
            width * height <= i < width * height + width * height / 2 ==> 16 <= nv12_image(
                bgra,
                width,
                height,
            )[i] <= 240,
{
    assert(width * height >= 0) by (nonlinear_arith)
        requires
            width > 0,
            height > 0,
    ;
}

/// A grey pixel has no red difference, and its blue difference is at most one
/// step off the neutral value.
pub proof fn law_grey_is_neutral(level: u8)
    ensures
        chroma_red(level, level, level) == 128,
        127 <= chroma_blue(level, level, level) <= 128,
{
}

proof fn lemma_place(x: int, y: int, width: int, height: int)
    requires
        0 <= x < width,
        0 <= y < height,
    ensures
        0 <= y * width,
        y * width + x < width * height,
{
    assert(0 <= y * width) by (nonlinear_arith)
        requires
            0 <= y,
            0 < width,
    ;
    assert(y * width + width <= width * height) by (nonlinear_arith)
        requires
            y + 1 <= height,
            0 < width,
    ;
}

/// Every pixel has its luma at its own place: the byte of column `x` and row `y` is that of
/// the pixel in column `x` and row `y`.
pub proof fn law_luma_keeps_its_place(bgra: Seq<u8>, width: int, height: int, x: int, y: int)
    requires
        nv12_convertible(bgra.len() as int, width, height),
        0 <= x < width,
        0 <= y < height,
    ensures
        nv12_image(bgra, width, height)[y * width + x] == luma(
            bgra[4 * (y * width + x)],
            bgra[4 * (y * width + x) + 1],
            bgra[4 * (y * width + x) + 2],
        ),
{
    lemma_place(x, y, width, height);
}

/// Every two-by-two block has its colour at its own place: for even `x` and `y`, the two
/// bytes of row `y / 2` and column `x` of the chroma plane are the blue and the red
/// difference of the pixel in column `x` and row `y`.
pub proof fn law_chroma_keeps_its_place(bgra: Seq<u8>, width: int, height: int, x: int, y: int)
    requires
        nv12_convertible(bgra.len() as int, width, height),
        0 <= x < width,
        0 <= y < height,
        x % 2 == 0,
        y % 2 == 0,
    ensures
        nv12_image(bgra, width, height)[width * height + (y / 2) * width + x] == chroma_blue(
            bgra[4 * (y * width + x)],
            bgra[4 * (y * width + x) + 1],
            bgra[4 * (y * width + x) + 2],
        ),
        nv12_image(bgra, width, height)[width * height + (y / 2) * width + x + 1] == chroma_red(
            bgra[4 * (y * width + x)],
            bgra[4 * (y * width + x) + 1],
            bgra[4 * (y * width + x) + 2],
        ),
{
    let row = y / 2;
    let half = height / 2;
    let k = row * width + x;
    lemma_place(x, y, width, height);
    lemma_place(x, row, width, half);
    lemma_place(x + 1, row, width, half);
    assert(width * height == 2 * (width * half)) by (nonlinear_arith)
        requires
            height == 2 * half,
    ;
    vstd::arithmetic::div_mod::lemma_fundamental_div_mod_converse(k, width, row, x);
    vstd::arithmetic::div_mod::lemma_fundamental_div_mod_converse(k + 1, width, row, x + 1);
    assert(2 * row * width == y * width) by (nonlinear_arith)
        requires
            y == 2 * row,
    ;
    let image = nv12_image(bgra, width, height);
    let plane = Seq::new((width * height) as nat, |i: int| luma_at(bgra, i));
    assert(plane.len() == width * height);
    assert(image[width * height + k] == chroma_at(bgra, width, k));
    assert(image[width * height + k + 1] == chroma_at(bgra, width, k + 1));
}

/// The upper part of a picture does not depend on the lower part: images that agree down to
/// an even row agree in the luma and the chroma of these rows.
pub proof fn law_rows_do_not_mix(
    one: Seq<u8>,
    other: Seq<u8>,
    width: int,
    height: int,
    rows: int,
    x: int,
    y: int,
)
    requires
        nv12_convertible(one.len() as int, width, height),
        nv12_convertible(other.len() as int, width, height),
        0 <= rows <= height,
        forall|i: int| 0 <= i < 4 * rows * width ==> one[i] == other[i],
        0 <= x < width,
        0 <= y < rows,
    ensures
        nv12_image(one, width, height)[y * width + x] == nv12_image(other, width, height)[y * width
            + x],
        x % 2 == 0 && y % 2 == 0 ==> nv12_image(one, width, height)[width * height + (y / 2)
            * width + x] == nv12_image(other, width, height)[width * height + (y / 2) * width + x],
        x % 2 == 0 && y % 2 == 0 ==> nv12_image(one, width, height)[width * height + (y / 2)
            * width + x + 1] == nv12_image(other, width, height)[width * height + (y / 2) * width + x
            + 1],
{
    lemma_place(x, y, width, rows);
    let at = y * width + x;
    assert(4 * at + 3 < 4 * rows * width) by (nonlinear_arith)
        requires
            at < width * rows,
    ;
    assert(one[4 * at] == other[4 * at]);
    assert(one[4 * at + 1] == other[4 * at + 1]);
    assert(one[4 * at + 2] == other[4 * at + 2]);
    law_luma_keeps_its_place(one, width, height, x, y);
    law_luma_keeps_its_place(other, width, height, x, y);
    if x % 2 == 0 && y % 2 == 0 {
        law_chroma_keeps_its_place(one, width, height, x, y);
        law_chroma_keeps_its_place(other, width, height, x, y);
    }
}

/// Luma and colour differences follow the weights of BT.709 in limited range: each is off
/// by at most half a step, except where the range ends.
pub proof fn law_colours_follow_bt709(b: u8, g: u8, r: u8)
    ensures
        -128 <= 256 * (luma(b, g, r) - 16) - (47 * r + 157 * g + 16 * b) <= 128,
        chroma_blue(b, g, r) > 16 ==> -128 <= 256 * (chroma_blue(b, g, r) - 128) - (112 * b - 26 * r
            - 87 * g) <= 128,
        chroma_blue(b, g, r) == 16 ==> 112 * b - 26 * r - 87 * g <= -111 * 256 - 128,
        chroma_red(b, g, r) > 16 ==> -128 <= 256 * (chroma_red(b, g, r) - 128) - (112 * r - 102 * g
            - 10 * b) <= 128,
        chroma_red(b, g, r) == 16 ==> 112 * r - 102 * g - 10 * b <= -111 * 256 - 128,
{
}

/// A brighter pixel never gets less luma, and more of a colour never gets less of its
/// difference.
pub proof fn law_brightness_is_kept(b: u8, g: u8, r: u8, b2: u8, g2: u8, r2: u8)
    requires
        b <= b2,
        g <= g2,
        r <= r2,
    ensures
        luma(b, g, r) <= luma(b2, g2, r2),
        chroma_blue(b, g2, r2) <= chroma_blue(b2, g, r),
        chroma_red(b2, g2, r) <= chroma_red(b, g, r2),
{
}

/// Exactly the images with an even number of columns and rows, at least two of each, and
/// four bytes for every pixel can be converted; bytes behind them are ignored.
pub proof fn law_whole_blocks_are_converted(bgra: Seq<u8>, tail: Seq<u8>, columns: int, rows: int)
    ensures
        columns > 0 && rows > 0 ==> (nv12_convertible(bgra.len() as int, 2 * columns, 2 * rows)
            <==> bgra.len() >= 16 * (columns * rows)),
        !nv12_convertible(bgra.len() as int, 2 * columns + 1, rows),
        !nv12_convertible(bgra.len() as int, columns, 2 * rows + 1),
        columns <= 0 || rows <= 0 ==> !nv12_convertible(bgra.len() as int, columns, rows),
        nv12_convertible(bgra.len() as int, columns, rows) ==> nv12_image(
            bgra + tail,
            columns,
            rows,
        ) == nv12_image(bgra, columns, rows),
{
    assert((2 * columns) * (2 * rows) * 4 == 16 * (columns * rows)) by (nonlinear_arith);
    if nv12_convertible(bgra.len() as int, columns, rows) {
        let longer = bgra + tail;
        let one = nv12_image(bgra, columns, rows);
        let other = nv12_image(longer, columns, rows);
        assert(columns * rows >= 0) by (nonlinear_arith)
            requires
                columns > 0,
                rows > 0,
        ;
        assert forall|i: int| 0 <= i < one.len() implies one[i] == other[i] by {
            if i < columns * rows {
                assert(luma_at(bgra, i) == luma_at(longer, i));
            } else {
                let k = i - columns * rows;
                lemma_chroma_pixel_inside(k, columns, rows);
                assert(chroma_at(bgra, columns, k) == chroma_at(longer, columns, k));
            }
        }
        assert(one =~= other);
    }
}

} // verus!
