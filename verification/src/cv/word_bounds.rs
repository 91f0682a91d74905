use vstd::prelude::*;

use super::{border_pixel, is_white, needed, what_color};
use crate::config::Config;
use crate::raster::{RasterView, RgbaImage, rgb_at};

verus! {

/// Number of border pixels among the `n` pixels with linear indices
/// `y` * width + `x`, ... of the image.
pub open spec fn strip_row_count(cfg: &Config, img: RasterView, y: int, x: int, n: nat) -> nat
    decreases n,
{
    if n == 0 {
        0
    } else {
        strip_row_count(cfg, img, y, x, (n - 1) as nat) + if border_pixel(
            cfg,
            rgb_at(img.bytes, y * img.width + x + n - 1),
        ) {
            1nat
        } else {
            0nat
        }
    }
}

/// Number of border pixels in `rows` rows from row `sy`, `cols` pixels each
/// from column `x`.
pub open spec fn strip_count(cfg: &Config, img: RasterView, x: int, sy: int, cols: nat, rows: nat) -> nat
    decreases rows,
{
    if rows == 0 {
        0
    } else {
        strip_count(cfg, img, x, sy, cols, (rows - 1) as nat) + strip_row_count(
            cfg,
            img,
            sy + rows - 1,
            x,
            cols,
        )
    }
}

/// Right end (exclusive) of the vertical strip that starts at column `x`:
/// `scan_stride` columns, cut at the image's right edge.
pub open spec fn strip_end(cfg: &Config, img: RasterView, x: int) -> int {
    if x + cfg.scan_stride < img.width {
        x + cfg.scan_stride
    } else {
        img.width as int
    }
}

/// The strip at column `x`, rows `sy` .. `sy` + `height`, holds at least
/// `required_pixels_for_borders` pixels of a character.
pub open spec fn strip_has_char(cfg: &Config, img: RasterView, x: int, sy: int, height: nat) -> bool {
    strip_count(cfg, img, x, sy, (strip_end(cfg, img, x) - x) as nat, height) >= needed(
        cfg.required_pixels_for_borders,
    )
}

/// The strip at column `x` can be read without overflow and lies in the buffer.
pub open spec fn strip_readable(cfg: &Config, img: RasterView, x: int, sy: int, height: int) -> bool {
    &&& 0 <= x
    &&& 0 <= sy
    &&& sy + height <= u32::MAX
    &&& x + cfg.scan_stride <= u32::MAX
    &&& height > 0 ==> {
        &&& x <= img.width
        &&& (sy + height - 1) * img.width + strip_end(cfg, img, x) <= u32::MAX
        &&& 4 * ((sy + height - 1) * img.width + strip_end(cfg, img, x)) <= img.bytes.len()
    }
}

/// The width measured from `start_x`: the columns `x`, `x` + `scan_stride`,
/// ... up to `max_x` are visited with `run` strips without a character just
/// seen; the width is the distance from `start_x` to the column where a run
/// of three such strips closes, or `max_x` if none closes. (With a zero
/// stride the same column is visited again; a strip with a character there
/// would be visited forever, and that case is left at `max_x`.)
pub open spec fn scan_width(
    cfg: &Config,
    img: RasterView,
    start_x: int,
    max_x: int,
    sy: int,
    height: nat,
    x: int,
    run: nat,
) -> int
    decreases (if x <= max_x { max_x - x + 1 } else { 0 }), (if run < 3 { 3 - run } else { 0 }),
{
    if x > max_x {
        max_x
    } else if strip_has_char(cfg, img, x, sy, height) {
        if cfg.scan_stride == 0 {
            max_x
        } else {
            scan_width(cfg, img, start_x, max_x, sy, height, x + cfg.scan_stride, 0)
        }
    } else if run + 1 >= 3 {
        x - start_x
    } else {
        scan_width(cfg, img, start_x, max_x, sy, height, x + cfg.scan_stride, run + 1)
    }
}

/// The width scan from column `x`, with `run` empty strips just seen, runs
/// to its end: every strip it reads, up to where it stops, can be read, each
/// step stays within 32 bits, and a zero stride never meets a strip with a
/// character (on which it would never end).
pub open spec fn width_scan_readable(
    cfg: &Config,
    img: RasterView,
    max_x: int,
    sy: int,
    height: nat,
    x: int,
    run: nat,
) -> bool
    decreases (if x <= max_x { max_x - x + 1 } else { 0 }), (if run < 3 { 3 - run } else { 0 }),
{
    if x > max_x {
        true
    } else if !strip_readable(cfg, img, x, sy, height as int) {
        false
    } else if strip_has_char(cfg, img, x, sy, height) {
        cfg.scan_stride > 0 && x + cfg.scan_stride <= u32::MAX && width_scan_readable(
            cfg,
            img,
            max_x,
            sy,
            height,
            x + cfg.scan_stride,
            0,
        )
    } else if run + 1 >= 3 {
        true
    } else {
        x + cfg.scan_stride <= u32::MAX && width_scan_readable(
            cfg,
            img,
            max_x,
            sy,
            height,
            x + cfg.scan_stride,
            run + 1,
        )
    }
}

/// Whether the strip of `scan_stride` columns from `x` (cut at the right
/// edge), rows `start_y` .. `start_y` + `height`, holds enough pixels of a
/// character.
pub fn is_char_square(cfg: &Config, x: u32, start_y: u32, height: u32, img: &RgbaImage) -> (res: bool)
    requires
        strip_readable(cfg, img@, x as int, start_y as int, height as int),
    ensures
        res == strip_has_char(cfg, img@, x as int, start_y as int, height as nat),
{
    let (width, _) = img.dimensions();
    let raw = img.as_raw();
    let len = raw.len();
    let ghost v = img@;
    let ghost m = needed(cfg.required_pixels_for_borders);

    let mut count: u32 = 0;
    let end_y = start_y + height;
    let ghost cols: nat = (strip_end(cfg, v, x as int) - x) as nat;

    let mut y = start_y;
    while y < end_y
        invariant
            strip_readable(cfg, v, x as int, start_y as int, height as int),
            v == img@,
            raw@ == v.bytes,
            len == v.bytes.len(),
            width == v.width,
            end_y == start_y + height,
            m == needed(cfg.required_pixels_for_borders),
            cols == (strip_end(cfg, v, x as int) - x) as nat,
            start_y <= y <= end_y,
            count < m,
            count == strip_count(cfg, v, x as int, start_y as int, cols, (y - start_y) as nat),
        ensures
            y == end_y,
        decreases end_y - y,
    {
        proof {
            assert(y * v.width + strip_end(cfg, v, x as int) <= (end_y - 1) * v.width + strip_end(
                cfg,
                v,
                x as int,
            )) by (nonlinear_arith)
                requires
                    y <= end_y - 1,
            ;
        }
        let row = y * width;
        let row_start = (row + x) as usize * 4;
        let end_x = if x + cfg.scan_stride < width {
            x + cfg.scan_stride
        } else {
            width
        };
        let row_end = (row + end_x) as usize * 4;
        let ghost done = strip_count(cfg, v, x as int, start_y as int, cols, (y - start_y) as nat);

        let mut c = x;
        while c < end_x
            invariant
                strip_readable(cfg, v, x as int, start_y as int, height as int),
                v == img@,
                raw@ == v.bytes,
                len == v.bytes.len(),
                width == v.width,
                end_y == start_y + height,
                m == needed(cfg.required_pixels_for_borders),
                cols == strip_end(cfg, v, x as int) - x,
                row + end_x <= u32::MAX,
                end_x == strip_end(cfg, v, x as int),
                start_y <= y < end_y,
                row == y * v.width,
                row_start == 4 * (row + x),
                row_end == 4 * (row + end_x),
                row_end <= len,
                done == strip_count(cfg, v, x as int, start_y as int, cols, (y - start_y) as nat),
                x <= c <= end_x,
                count < m,
                count == done + strip_row_count(cfg, v, y as int, x as int, (c - x) as nat),
            ensures
                c == end_x,
            decreases end_x - c,
        {
            let k = (row + c) as usize * 4;
            let pixel = vstd::slice::slice_subrange(raw.as_slice(), k, k + 4);
            assert(pixel@[0] == v.bytes[k as int]);
            assert(pixel@[1] == v.bytes[k + 1]);
            assert(pixel@[2] == v.bytes[k + 2]);
            assert(y * v.width + x + (c - x + 1) - 1 == row + c);
            if is_white(pixel, cfg.char_white) || what_color(
                pixel,
                cfg.start_char_r_max,
                cfg.start_char_r_min,
                cfg.start_char_g_max,
                cfg.start_char_g_min,
                cfg.start_char_b_max,
                cfg.start_char_b_min,
            ) {
                count += 1;

                if count >= cfg.required_pixels_for_borders {
                    proof {
                        lemma_strip_count_grows(
                            cfg,
                            v,
                            x as int,
                            start_y as int,
                            cols,
                            (y - start_y) as nat,
                            (c - x + 1) as nat,
                            height as nat,
                        );
                    }
                    return true;
                }
            }
            c += 1;
        }
        assert(strip_count(cfg, v, x as int, start_y as int, cols, (y - start_y + 1) as nat) == done
            + strip_row_count(cfg, v, y as int, x as int, cols));
        y += 1;
    }
    false
}

proof fn lemma_strip_row_count_grows(cfg: &Config, img: RasterView, y: int, x: int, n1: nat, n2: nat)
    requires
        n1 <= n2,
    ensures
        strip_row_count(cfg, img, y, x, n1) <= strip_row_count(cfg, img, y, x, n2),
    decreases n2 - n1,
{
    if n1 < n2 {
        lemma_strip_row_count_grows(cfg, img, y, x, n1, (n2 - 1) as nat);
    }
}

proof fn lemma_strip_rows_grow(cfg: &Config, img: RasterView, x: int, sy: int, cols: nat, r1: nat, r2: nat)
    requires
        r1 <= r2,
    ensures
        strip_count(cfg, img, x, sy, cols, r1) <= strip_count(cfg, img, x, sy, cols, r2),
    decreases r2 - r1,
{
    if r1 < r2 {
        lemma_strip_rows_grow(cfg, img, x, sy, cols, r1, (r2 - 1) as nat);
    }
}

/// The count over the rows done and part of the next row is at most the
/// count over the whole strip.
proof fn lemma_strip_count_grows(
    cfg: &Config,
    img: RasterView,
    x: int,
    sy: int,
    cols: nat,
    r: nat,
    n: nat,
    rows: nat,
)
    requires
        r < rows,
        n <= cols,
    ensures
        strip_count(cfg, img, x, sy, cols, r) + strip_row_count(cfg, img, sy + r, x, n)
            <= strip_count(cfg, img, x, sy, cols, rows),
{
    lemma_strip_row_count_grows(cfg, img, sy + r, x, n, cols);
    lemma_strip_rows_grow(cfg, img, x, sy, cols, r + 1, rows);
}


/// Whether the strip at column `x` can be read.
pub fn strip_possible(cfg: &Config, img: &RgbaImage, x: u32, sy: u32, height: u32) -> (res: bool)
    ensures
        res == strip_readable(cfg, img@, x as int, sy as int, height as int),
{
    if sy as u64 + height as u64 > 0xffff_ffff || x as u64 + cfg.scan_stride as u64 > 0xffff_ffff {
        return false;
    }
    if height == 0 {
        return true;
    }
    let width = img.width();
    if x > width {
        return false;
    }
    let end_x = if x + cfg.scan_stride < width {
        x + cfg.scan_stride
    } else {
        width
    };
    let last_row = (sy + height - 1) as u128;
    let w = width as u128;
    assert(last_row * w <= 0x1_0000_0000 * 0x1_0000_0000) by (nonlinear_arith)
        requires
            last_row <= 0x1_0000_0000,
            w <= 0x1_0000_0000,
    ;
    let end = last_row * w + end_x as u128;
    end <= 0xffff_ffff && 4 * end <= img.as_raw().len() as u128
}

/// Measures the width of a word from `start_x` as `calc_width` does,
/// checking each strip before it is read: `None` when the scan would read
/// outside the image, overflow or never end; otherwise the width.
fn try_calc_width(cfg: &Config, start_x: u32, start_y: u32, max_x: u32, height: u32, img: &RgbaImage) -> (res:
    Option<u32>)
    ensures
        res is Some <==> width_scan_readable(
            cfg,
            img@,
            max_x as int,
            start_y as int,
            height as nat,
            start_x as int,
            0,
        ),
        res matches Some(w) ==> w == scan_width(
            cfg,
            img@,
            start_x as int,
            max_x as int,
            start_y as int,
            height as nat,
            start_x as int,
            0,
        ),
{
    let mut allowed_false_strip: u32 = 0;
    let ghost v = img@;
    let ghost h = height as nat;

    let mut scan_x = start_x;
    while scan_x <= max_x
        invariant
            v == img@,
            h == height,
            start_x <= scan_x,
            allowed_false_strip < 3,
            width_scan_readable(cfg, v, max_x as int, start_y as int, h, start_x as int, 0)
                == width_scan_readable(
                cfg,
                v,
                max_x as int,
                start_y as int,
                h,
                scan_x as int,
                allowed_false_strip as nat,
            ),
            scan_width(cfg, v, start_x as int, max_x as int, start_y as int, h, start_x as int, 0)
                == scan_width(
                cfg,
                v,
                start_x as int,
                max_x as int,
                start_y as int,
                h,
                scan_x as int,
                allowed_false_strip as nat,
            ),
        decreases (if scan_x <= max_x { max_x - scan_x + 1 } else { 0 }), (3 - allowed_false_strip),
    {
        if !strip_possible(cfg, img, scan_x, start_y, height) {
            return None;
        }
        if is_char_square(cfg, scan_x, start_y, height, img) {
            if cfg.scan_stride == 0 || scan_x as u64 + cfg.scan_stride as u64 > 0xffff_ffff {
                return None;
            }
            allowed_false_strip = 0;
        } else {
            allowed_false_strip += 1;
            if allowed_false_strip >= 3 {
                let width = scan_x.saturating_sub(start_x);
                return Some(width);
            }
            if scan_x as u64 + cfg.scan_stride as u64 > 0xffff_ffff {
                return None;
            }
        }
        scan_x += cfg.scan_stride;
    }

    Some(max_x)
}

/// Measures the width of a word from `start_x`: strips of `scan_stride`
/// columns are visited from `start_x` to `max_x`, and the word ends where
/// three strips in a row hold no character.
fn calc_width(cfg: &Config, start_x: u32, start_y: u32, max_x: u32, height: u32, img: &RgbaImage) -> (w: u32)
    requires
        width_scan_readable(cfg, img@, max_x as int, start_y as int, height as nat, start_x as int, 0),
    ensures
        w == scan_width(
            cfg,
            img@,
            start_x as int,
            max_x as int,
            start_y as int,
            height as nat,
            start_x as int,
            0,
        ),
{
    match try_calc_width(cfg, start_x, start_y, max_x, height, img) {
        Some(w) => w,
        None => max_x,
    }
}

/// Where the bounds search begins, left of the word's start.
pub open spec fn bounds_x(x: u32) -> u32 {
    if x >= 15 {
        (x - 15) as u32
    } else {
        0
    }
}

/// Where the bounds search begins, above the word's start.
pub open spec fn bounds_y(y: u32) -> u32 {
    if y >= 7 {
        (y - 7) as u32
    } else {
        0
    }
}

/// Height of a word's box from `bounds_y(y)`: 43 pixels, cut at the bottom
/// of the image.
pub open spec fn bounds_height(img: RasterView, y: u32) -> u32 {
    let rest = if img.height >= bounds_y(y) {
        img.height - bounds_y(y)
    } else {
        0
    };
    if rest < 43 {
        rest as u32
    } else {
        43
    }
}

/// The last column that the width scan visits.
pub open spec fn bounds_scan_limit(cfg: &Config, img: RasterView) -> u32 {
    if img.width >= cfg.scan_stride {
        (img.width - cfg.scan_stride) as u32
    } else {
        0
    }
}

/// The box of the word that starts at (`x`, `y`): left, top, width, height.
pub open spec fn word_box(cfg: &Config, img: RasterView, x: u32, y: u32) -> (u32, u32, u32, u32) {
    let bx = bounds_x(x);
    let by = bounds_y(y);
    let h = bounds_height(img, y);
    (
        bx,
        by,
        scan_width(
            cfg,
            img,
            bx as int,
            bounds_scan_limit(cfg, img) as int,
            by as int,
            h as nat,
            bx as int,
            0,
        ) as u32,
        h,
    )
}

/// The box of a word starting at (`x`, `y`) can be measured: the width
/// scan over its rows runs to its end.
pub open spec fn word_box_measurable(cfg: &Config, img: RasterView, x: u32, y: u32) -> bool {
    width_scan_readable(
        cfg,
        img,
        bounds_scan_limit(cfg, img) as int,
        bounds_y(y) as int,
        bounds_height(img, y) as nat,
        bounds_x(x) as int,
        0,
    )
}

/// Measures the box of a word starting at (`x`, `y`) as `get_word_bounds`
/// does, checking each strip before it is read: `None` when the measure
/// would read outside the image, overflow or never end.
pub fn try_word_bounds(cfg: &Config, x: u32, y: u32, img: &RgbaImage) -> (res: Option<(u32, u32, u32, u32)>)
    ensures
        res is Some <==> word_box_measurable(cfg, img@, x, y),
        res matches Some(b) ==> b == word_box(cfg, img@, x, y),
{
    let approx_x = x.saturating_sub(15);
    let approx_y = y.saturating_sub(7);

    let (img_w, img_h) = img.dimensions();
    let rest = img_h.saturating_sub(approx_y);
    let height = if rest < 43 {
        rest
    } else {
        43
    };

    let max_scan_x = img_w.saturating_sub(cfg.scan_stride);

    match try_calc_width(cfg, approx_x, approx_y, max_scan_x, height, img) {
        Some(width_cut) => Some((approx_x, approx_y, width_cut, height)),
        None => None,
    }
}

/// The box of the word that starts at (`x`, `y`): it begins 15 pixels to
/// the left and 7 above (clamped at 0), is 43 pixels high (cut at the
/// image's bottom), and its width is measured by scanning strips rightwards.
pub fn get_word_bounds(cfg: &Config, x: u32, y: u32, img: &RgbaImage) -> (res: (u32, u32, u32, u32))
    requires
        word_box_measurable(cfg, img@, x, y),
    ensures
        res == word_box(cfg, img@, x, y),
{
    let approx_x = x.saturating_sub(15);
    let approx_y = y.saturating_sub(7);

    let (img_w, img_h) = img.dimensions();
    let rest = img_h.saturating_sub(approx_y);
    let height = if rest < 43 {
        rest
    } else {
        43
    };

    let max_scan_x = img_w.saturating_sub(cfg.scan_stride);

    let width_cut = calc_width(cfg, approx_x, approx_y, max_scan_x, height, img);

    (approx_x, approx_y, width_cut, height)
}

/// The measured width never exceeds the last column that the scan visits,
/// so a word's box never reaches past the image's right edge by more than
/// its left offset.
pub proof fn law_width_within_scan_limit(
    cfg: &Config,
    img: RasterView,
    start_x: int,
    max_x: int,
    sy: int,
    height: nat,
    x: int,
    run: nat,
)
    requires
        0 <= start_x <= x,
        0 <= max_x,
    ensures
        0 <= scan_width(cfg, img, start_x, max_x, sy, height, x, run) <= max_x,
    decreases (if x <= max_x { max_x - x + 1 } else { 0 }), (if run < 3 { 3 - run } else { 0 }),
{
    if x <= max_x {
        if strip_has_char(cfg, img, x, sy, height) {
            if cfg.scan_stride != 0 {
                law_width_within_scan_limit(cfg, img, start_x, max_x, sy, height, x + cfg.scan_stride, 0);
            }
        } else if run + 1 < 3 {
            law_width_within_scan_limit(cfg, img, start_x, max_x, sy, height, x + cfg.scan_stride, run + 1);
        }
    }
}


/// A taller strip only adds counted pixels: a strip that holds a character
/// still holds one when more rows are taken below it.
pub proof fn law_taller_strip_keeps_char(cfg: &Config, img: RasterView, x: int, sy: int, h1: nat, h2: nat)
    requires
        h1 <= h2,
        strip_has_char(cfg, img, x, sy, h1),
    ensures
        strip_has_char(cfg, img, x, sy, h2),
{
    lemma_strip_rows_grow(cfg, img, x, sy, (strip_end(cfg, img, x) - x) as nat, h1, h2);
}

/// A word's box starts 15 pixels left of and 7 pixels above the word's
/// start (clamped at 0), and is 43 pixels tall where the image has 43 rows
/// below its top; otherwise it runs exactly to the image's bottom. It never
/// reaches below the image.
pub proof fn law_word_box_geometry(cfg: &Config, img: RasterView, x: u32, y: u32)
    ensures
        word_box(cfg, img, x, y).0 == (if x >= 15 { x - 15 } else { 0 }),
        word_box(cfg, img, x, y).1 == (if y >= 7 { y - 7 } else { 0 }),
        word_box(cfg, img, x, y).3 <= 43,
        img.height >= word_box(cfg, img, x, y).1 + 43 ==> word_box(cfg, img, x, y).3 == 43,
        img.height < word_box(cfg, img, x, y).1 + 43 ==> word_box(cfg, img, x, y).1
            + word_box(cfg, img, x, y).3 == (if img.height >= word_box(cfg, img, x, y).1 {
            img.height as int
        } else {
            word_box(cfg, img, x, y).1 as int
        }),
{
}

} // verus!
