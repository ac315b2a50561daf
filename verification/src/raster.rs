//! Grey pixel buffers (one byte per pixel, row by row) and the line work of the
//! dashboard: turning a picture by 180 degrees, the scanline effect, corner brackets
//! and dashed rules.
use vstd::prelude::*;

verus! {

/// The pixel at (`x`, `y`) of a `width`-pixel-wide buffer.
pub open spec fn pixel(pixels: Seq<u8>, width: int, x: int, y: int) -> u8 {
    pixels[y * width + x]
}

/// `out` is `pixels` turned by 180 degrees: what stood at (x, y) stands at
/// (width - 1 - x, height - 1 - y).
pub open spec fn is_rotated_180(pixels: Seq<u8>, out: Seq<u8>, width: int, height: int) -> bool {
    &&& out.len() == pixels.len()
    &&& forall|x: int, y: int|
        0 <= x < width && 0 <= y < height ==> #[trigger] pixel(out, width, width - 1 - x, height - 1 - y)
            == pixel(pixels, width, x, y)
}

proof fn lemma_rotated_index(width: int, height: int, x: int, y: int)
    requires
        0 <= x < width,
        0 <= y < height,
    ensures
        (height - 1 - y) * width + (width - 1 - x) == width * height - 1 - (y * width + x),
        0 <= y * width + x < width * height,
{
    assert((height - 1 - y) * width == height * width - width - y * width) by (nonlinear_arith);
    assert(y * width + x < width * height) by (nonlinear_arith)
        requires
            0 <= x < width,
            0 <= y < height,
    ;
    assert(0 <= y * width) by (nonlinear_arith)
        requires
            0 <= y,
            0 <= x < width,
    ;
    assert(height * width == width * height) by (nonlinear_arith);
}

/// The buffer in reverse order.
pub fn reversed(pixels: &Vec<u8>) -> (out: Vec<u8>)
    ensures
        out@ == pixels@.reverse(),
{
    let n = pixels.len();
    let mut out: Vec<u8> = Vec::new();
    let mut i: usize = 0;
    while i < n
        invariant
            i <= n == pixels@.len(),
            out@.len() == i,
            forall|j: int| 0 <= j < i ==> out@[j] == pixels@[n - 1 - j],
        decreases n - i,
    {
        out.push(pixels[n - 1 - i]);
        i = i + 1;
    }
    assert(out@ =~= pixels@.reverse());
    out
}

/// The `width` by `height` picture `pixels` turned by 180 degrees
/// (`image::imageops::rotate180` on an 8-bit grey image).
pub fn rotate180(pixels: &Vec<u8>, width: u32, height: u32) -> (out: Vec<u8>)
    requires
        pixels@.len() == width * height,
    ensures
        out@ == pixels@.reverse(),
        is_rotated_180(pixels@, out@, width as int, height as int),
{
    let out = reversed(pixels);
    assert forall|x: int, y: int|
        0 <= x < width && 0 <= y < height implies #[trigger] pixel(
        out@,
        width as int,
        width - 1 - x,
        height - 1 - y,
    ) == pixel(pixels@, width as int, x, y) by {
        lemma_rotated_index(width as int, height as int, x, y);
    }
    out
}

/// Turning a picture by 180 degrees twice gives it back.
pub proof fn lemma_rotate180_twice(pixels: Seq<u8>)
    ensures
        pixels.reverse().reverse() == pixels,
{
    assert(pixels.reverse().reverse() =~= pixels);
}

/// A pixel of an even row after the scanline effect: 10 levels darker in the dark
/// theme, 10 lighter in the light one, held within 0 to 255.
pub open spec fn scanline_level(v: u8, dark: bool) -> u8 {
    if dark {
        if v >= 10 {
            (v - 10) as u8
        } else {
            0
        }
    } else {
        if v <= 245 {
            (v + 10) as u8
        } else {
            255
        }
    }
}

/// Width of the dashboard, the region the scanline effect covers.
pub const PANEL_WIDTH: u32 = 1920;

/// Height of the dashboard, the region the scanline effect covers.
pub const PANEL_HEIGHT: u32 = 1080;

/// Byte `i` of a `width`-wide buffer after the scanline effect: changed on the even
/// rows of the dashboard's 1920 by 1080 region, kept everywhere else.
pub open spec fn scanlined(pixels: Seq<u8>, width: int, dark: bool, i: int) -> u8 {
    let x = i % width;
    let y = i / width;
    if x < PANEL_WIDTH && y < PANEL_HEIGHT && y % 2 == 0 {
        scanline_level(pixels[i], dark)
    } else {
        pixels[i]
    }
}

/// The scanline effect over the dashboard's 1920 by 1080 region: every other row, from
/// the first, a little darker in the dark theme and a little lighter in the light one,
/// for contrast. Pixels outside that region are kept. The buffer must reach the last
/// row and column that the effect touches.
pub fn scanlines(pixels: &mut Vec<u8>, width: u32, height: u32, dark: bool)
    requires
        width >= PANEL_WIDTH,
        height >= PANEL_HEIGHT - 1,
        old(pixels)@.len() == width * height,
    ensures
        final(pixels)@.len() == old(pixels)@.len(),
        forall|i: int|
            0 <= i < old(pixels)@.len() ==> #[trigger] final(pixels)@[i] == scanlined(
                old(pixels)@,
                width as int,
                dark,
                i,
            ),
{
    let ghost before = pixels@;
    let n = pixels.len();
    let w = width as usize;
    let mut i: usize = 0;
    let mut x: usize = 0;
    let mut y: usize = 0;
    while i < n
        invariant
            n == pixels@.len() == before.len(),
            w == width as int >= PANEL_WIDTH,
            i <= n,
            x < w,
            i == y * w + x,
            forall|j: int|
                0 <= j < i ==> #[trigger] pixels@[j] == scanlined(before, w as int, dark, j),
            forall|j: int| i <= j < n ==> #[trigger] pixels@[j] == before[j],
        decreases n - i,
    {
        assert(i as int / w as int == y && i as int % w as int == x) by (nonlinear_arith)
            requires
                i == y * w + x,
                0 <= x < w,
                0 <= y,
        ;
        if x < 1920 && y < 1080 && y % 2 == 0 {
            let v = pixels[i];
            let adjusted = if dark {
                v.saturating_sub(10)
            } else {
                v.saturating_add(10)
            };
            pixels.set(i, adjusted);
        }
        let ghost yi = y as int;
        let ghost xi = x as int;
        i = i + 1;
        if x + 1 == w {
            assert(y * w + x < n);
            assert(y + 1 <= n) by (nonlinear_arith)
                requires
                    y * w + x < n,
                    w >= 1,
            ;
            x = 0;
            y = y + 1;
            assert(i == y * w + x) by (nonlinear_arith)
                requires
                    i == yi * w + xi + 1,
                    xi + 1 == w,
                    y == yi + 1,
                    x == 0,
            ;
        } else {
            x = x + 1;
        }
    }
}

/// A straight line from (`x1`, `y1`) to (`x2`, `y2`).
#[derive(Clone, Copy, Debug, PartialEq, Eq, Structural)]
pub struct Segment {
    pub x1: i32,
    pub y1: i32,
    pub x2: i32,
    pub y2: i32,
}

/// The horizontal line at `y` from `x1` to `x2`.
pub open spec fn hseg(x1: int, x2: int, y: int) -> Segment {
    Segment { x1: x1 as i32, y1: y as i32, x2: x2 as i32, y2: y as i32 }
}

/// The vertical line at `x` from `y1` to `y2`.
pub open spec fn vseg(x: int, y1: int, y2: int) -> Segment {
    Segment { x1: x as i32, y1: y1 as i32, x2: x as i32, y2: y2 as i32 }
}

/// The eight strokes of corner brackets `arm` long around the box at (`x`, `y`) of
/// `w` by `h`: at each corner one horizontal and one vertical stroke.
pub open spec fn corner_box_strokes(x: int, y: int, w: int, h: int, arm: int) -> Seq<Segment> {
    seq![
        hseg(x, x + arm, y),
        vseg(x, y, y + arm),
        hseg(x + w - arm, x + w, y),
        vseg(x + w, y, y + arm),
        hseg(x, x + arm, y + h),
        vseg(x, y + h - arm, y + h),
        hseg(x + w - arm, x + w, y + h),
        vseg(x + w, y + h - arm, y + h),
    ]
}

/// The coordinates `corner_box` computes fit in `i32`.
pub open spec fn corner_box_fits(x: int, y: int, w: int, h: int, arm: int) -> bool {
    &&& i32::MIN <= x + arm <= i32::MAX
    &&& i32::MIN <= y + arm <= i32::MAX
    &&& i32::MIN <= x + w <= i32::MAX
    &&& i32::MIN <= y + h <= i32::MAX
    &&& i32::MIN <= x + w - arm <= i32::MAX
    &&& i32::MIN <= y + h - arm <= i32::MAX
}

/// The strokes of corner brackets around a box.
pub fn corner_box(x: i32, y: i32, w: i32, h: i32, arm: i32) -> (s: Vec<Segment>)
    requires
        corner_box_fits(x as int, y as int, w as int, h as int, arm as int),
    ensures
        s@ == corner_box_strokes(x as int, y as int, w as int, h as int, arm as int),
{
    let mut s: Vec<Segment> = Vec::new();
    s.push(Segment { x1: x, y1: y, x2: x + arm, y2: y });
    s.push(Segment { x1: x, y1: y, x2: x, y2: y + arm });
    s.push(Segment { x1: x + w - arm, y1: y, x2: x + w, y2: y });
    s.push(Segment { x1: x + w, y1: y, x2: x + w, y2: y + arm });
    s.push(Segment { x1: x, y1: y + h, x2: x + arm, y2: y + h });
    s.push(Segment { x1: x, y1: y + h - arm, x2: x, y2: y + h });
    s.push(Segment { x1: x + w - arm, y1: y + h, x2: x + w, y2: y + h });
    s.push(Segment { x1: x + w, y1: y + h - arm, x2: x + w, y2: y + h });
    assert(s@ =~= corner_box_strokes(x as int, y as int, w as int, h as int, arm as int));
    s
}

/// Dash `k` of a dashed rule from `x1` to `x2` at `y`: 12 pixels of line every 18.
pub open spec fn dash(x1: int, x2: int, y: int, k: int) -> Segment {
    let start = x1 + 18 * k;
    hseg(start, if start + 12 <= x2 { start + 12 } else { x2 }, y)
}

/// The number of dashes of a dashed rule from `x1` to `x2`.
pub open spec fn dash_count(x1: int, x2: int) -> nat {
    if x2 <= x1 {
        0
    } else {
        ((x2 - x1 + 17) / 18) as nat
    }
}

/// The dashes of a rule from `x1` to `x2` start within `i32`, and so does the position
/// after the last of them, where the drawing loop stops.
pub open spec fn dashes_fit(x1: int, x2: int) -> bool {
    x1 + 18 * dash_count(x1, x2) <= i32::MAX
}

/// Whether the dashes of a rule from `x1` to `x2` fit in `i32` (see `dashes_fit`).
pub fn dashed_hline_fits(x1: i32, x2: i32) -> (b: bool)
    ensures
        b == dashes_fit(x1 as int, x2 as int),
{
    if x2 <= x1 {
        return true;
    }
    let span: i64 = x2 as i64 - x1 as i64;
    let count: i64 = (span + 17) / 18;
    x1 as i64 + 18 * count <= i32::MAX as i64
}

/// The dashes of the horizontal rule at `y` from `x1` to `x2`.
pub fn dashed_hline(x1: i32, x2: i32, y: i32) -> (s: Vec<Segment>)
    requires
        dashes_fit(x1 as int, x2 as int),
    ensures
        s@.len() == dash_count(x1 as int, x2 as int),
        forall|k: int| 0 <= k < s@.len() ==> #[trigger] s@[k] == dash(x1 as int, x2 as int, y as int, k),
{
    let mut s: Vec<Segment> = Vec::new();
    let mut x = x1;
    while x < x2
        invariant
            dashes_fit(x1 as int, x2 as int),
            x1 <= x,
            x1 < x ==> x - 18 < x2,
            (x - x1) % 18 == 0,
            s@.len() == (x - x1) / 18,
            forall|k: int| 0 <= k < s@.len() ==> #[trigger] s@[k] == dash(x1 as int, x2 as int, y as int, k),
        decreases x2 + 18 - x,
    {
        assert(x + 18 <= x1 + 18 * dash_count(x1 as int, x2 as int)) by (nonlinear_arith)
            requires
                x1 <= x < x2,
                (x - x1) % 18 == 0,
                dash_count(x1 as int, x2 as int) == (x2 - x1 + 17) / 18,
        ;
        let end = if x + 12 <= x2 {
            x + 12
        } else {
            x2
        };
        let ghost before = s@;
        s.push(Segment { x1: x, y1: y, x2: end, y2: y });
        assert(x - x1 == 18 * before.len()) by (nonlinear_arith)
            requires
                (x - x1) % 18 == 0,
                before.len() == (x - x1) / 18,
        ;
        x = x + 18;
    }
    assert(s@.len() == dash_count(x1 as int, x2 as int)) by (nonlinear_arith)
        requires
            x1 <= x,
            x >= x2,
            x1 < x ==> x - 18 < x2,
            (x - x1) % 18 == 0,
            s@.len() == (x - x1) / 18,
    ;
    s
}

} // verus!
