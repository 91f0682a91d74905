use vstd::prelude::*;

use super::{start_char_colour, what_color};
use crate::config::Config;
use crate::raster::{RasterView, RgbaImage, rgb_at};

verus! {

/// `a` is a prefix of `b`.
pub open spec fn is_prefix<A>(a: Seq<A>, b: Seq<A>) -> bool {
    a.len() <= b.len() && b.take(a.len() as int) == a
}

/// The word-start-coloured pixels, left to right, among the `n` pixels of
/// row `y` that begin at column `sx`.
pub open spec fn row_hits(cfg: &Config, img: RasterView, y: int, sx: int, n: nat) -> Seq<(u32, u32)>
    decreases n,
{
    if n == 0 {
        Seq::empty()
    } else {
        let prev = row_hits(cfg, img, y, sx, (n - 1) as nat);
        let x = sx + n - 1;
        if start_char_colour(cfg, rgb_at(img.bytes, y * img.width + x)) {
            prev.push((x as u32, y as u32))
        } else {
            prev
        }
    }
}

/// The word-start-coloured pixels, in row-major order, of the window of
/// `cols` x `rows` pixels whose top-left pixel is (`sx`, `sy`).
pub open spec fn window_hits(
    cfg: &Config,
    img: RasterView,
    sx: int,
    sy: int,
    cols: nat,
    rows: nat,
) -> Seq<(u32, u32)>
    decreases rows,
{
    if rows == 0 {
        Seq::empty()
    } else {
        window_hits(cfg, img, sx, sy, cols, (rows - 1) as nat) + row_hits(
            cfg,
            img,
            sy + rows - 1,
            sx,
            cols,
        )
    }
}

/// The point reported for a run of hits: the first hit whose column is not
/// 0; while every hit so far lies in column 0, the latest of them.
pub open spec fn anchor(hits: Seq<(u32, u32)>) -> (u32, u32)
    decreases hits.len(),
{
    if hits.len() == 0 {
        (0, 0)
    } else {
        let before = anchor(hits.drop_last());
        if before.0 == 0 {
            hits.last()
        } else {
            before
        }
    }
}

/// How many pixels must match before a threshold `req` is reached (a
/// threshold of 0 is reached by the first match).
pub open spec fn needed(req: u32) -> nat {
    if req == 0 {
        1
    } else {
        req as nat
    }
}

/// The start of a word in the character-sized window at (`sx`, `sy`): found
/// when the window holds at least `required_pixels_for_start` pixels of the
/// start colour, and then the anchor of the first that many of them.
pub open spec fn word_start_in_window(cfg: &Config, img: RasterView, sx: u32, sy: u32) -> Option<
    (u32, u32),
> {
    let hits = window_hits(
        cfg,
        img,
        sx as int,
        sy as int,
        cfg.char_width as nat,
        cfg.char_height as nat,
    );
    let m = needed(cfg.required_pixels_for_start);
    if hits.len() >= m {
        Some(anchor(hits.take(m as int)))
    } else {
        None
    }
}

/// Every row of the window, read as a run of linear pixel indices, lies in
/// the buffer (rows that run past the right edge continue on the next line).
pub open spec fn window_in_buffer(img: RasterView, sx: int, sy: int, cols: int, rows: int) -> bool {
    rows == 0 || 4 * ((sy + rows - 1) * img.width + sx + cols) <= img.bytes.len()
}

/// The window that `detect_word_start` reads at (`sx`, `sy`) can be read
/// without overflow and lies in the buffer.
pub open spec fn window_readable(cfg: &Config, img: RasterView, sx: u32, sy: u32) -> bool {
    &&& sx + cfg.char_width <= u32::MAX
    &&& sy + cfg.char_height <= u32::MAX
    &&& window_in_buffer(
        img,
        sx as int,
        sy as int,
        cfg.char_width as int,
        cfg.char_height as int,
    )
}

proof fn lemma_prefix_refl<A>(a: Seq<A>)
    ensures
        is_prefix(a, a),
{
    assert(a.take(a.len() as int) =~= a);
}

proof fn lemma_prefix_trans<A>(a: Seq<A>, b: Seq<A>, c: Seq<A>)
    requires
        is_prefix(a, b),
        is_prefix(b, c),
    ensures
        is_prefix(a, c),
{
    assert(c.take(a.len() as int) =~= b.take(a.len() as int));
}

proof fn lemma_prefix_push<A>(a: Seq<A>, v: A)
    ensures
        is_prefix(a, a.push(v)),
{
    assert(a.push(v).take(a.len() as int) =~= a);
}

proof fn lemma_prefix_append<A>(a: Seq<A>, b: Seq<A>)
    ensures
        is_prefix(a, a + b),
{
    assert((a + b).take(a.len() as int) =~= a);
}

proof fn lemma_prefix_concat<A>(a: Seq<A>, s1: Seq<A>, s2: Seq<A>)
    requires
        is_prefix(s1, s2),
    ensures
        is_prefix(a + s1, a + s2),
{
    assert((a + s2).take((a + s1).len() as int) =~= a + s1) by {
        assert forall|i: int| 0 <= i < (a + s1).len() implies (a + s2).take(
            (a + s1).len() as int,
        )[i] == (a + s1)[i] by {
            if i >= a.len() {
                assert(s2.take(s1.len() as int)[i - a.len()] == s1[i - a.len()]);
            }
        }
    }
}

proof fn lemma_row_hits_grow(cfg: &Config, img: RasterView, y: int, sx: int, n: nat, m: nat)
    requires
        n <= m,
    ensures
        is_prefix(row_hits(cfg, img, y, sx, n), row_hits(cfg, img, y, sx, m)),
    decreases m - n,
{
    if n == m {
        lemma_prefix_refl(row_hits(cfg, img, y, sx, n));
    } else {
        lemma_row_hits_grow(cfg, img, y, sx, n, (m - 1) as nat);
        let prev = row_hits(cfg, img, y, sx, (m - 1) as nat);
        let x = sx + m - 1;
        if start_char_colour(cfg, rgb_at(img.bytes, y * img.width + x)) {
            lemma_prefix_push(prev, (x as u32, y as u32));
            lemma_prefix_trans(row_hits(cfg, img, y, sx, n), prev, prev.push((x as u32, y as u32)));
        }
    }
}

proof fn lemma_window_hits_grow(
    cfg: &Config,
    img: RasterView,
    sx: int,
    sy: int,
    cols: nat,
    r1: nat,
    r2: nat,
)
    requires
        r1 <= r2,
    ensures
        is_prefix(window_hits(cfg, img, sx, sy, cols, r1), window_hits(cfg, img, sx, sy, cols, r2)),
    decreases r2 - r1,
{
    if r1 == r2 {
        lemma_prefix_refl(window_hits(cfg, img, sx, sy, cols, r1));
    } else {
        lemma_window_hits_grow(cfg, img, sx, sy, cols, r1, (r2 - 1) as nat);
        let prev = window_hits(cfg, img, sx, sy, cols, (r2 - 1) as nat);
        lemma_prefix_append(prev, row_hits(cfg, img, sy + r2 - 1, sx, cols));
        lemma_prefix_trans(
            window_hits(cfg, img, sx, sy, cols, r1),
            prev,
            window_hits(cfg, img, sx, sy, cols, r2),
        );
    }
}

/// The hits seen before pixel (`sx` + `n`, `sy` + `r`) of the window are a
/// prefix of all of the window's hits.
proof fn lemma_partial_hits_prefix(
    cfg: &Config,
    img: RasterView,
    sx: int,
    sy: int,
    cols: nat,
    rows: nat,
    r: nat,
    n: nat,
)
    requires
        r < rows,
        n <= cols,
    ensures
        is_prefix(
            window_hits(cfg, img, sx, sy, cols, r) + row_hits(cfg, img, sy + r, sx, n),
            window_hits(cfg, img, sx, sy, cols, rows),
        ),
{
    let done = window_hits(cfg, img, sx, sy, cols, r);
    lemma_row_hits_grow(cfg, img, sy + r, sx, n, cols);
    lemma_prefix_concat(done, row_hits(cfg, img, sy + r, sx, n), row_hits(cfg, img, sy + r, sx, cols));
    assert(window_hits(cfg, img, sx, sy, cols, r + 1) == done + row_hits(cfg, img, sy + r, sx, cols));
    lemma_window_hits_grow(cfg, img, sx, sy, cols, r + 1, rows);
    lemma_prefix_trans(
        done + row_hits(cfg, img, sy + r, sx, n),
        done + row_hits(cfg, img, sy + r, sx, cols),
        window_hits(cfg, img, sx, sy, cols, rows),
    );
}

/// Looks for the start of a word in the character-sized window whose
/// top-left pixel is (`start_x`, `start_y`).
pub fn detect_word_start(cfg: &Config, img: &RgbaImage, start_x: u32, start_y: u32) -> (res: Option<
    (u32, u32),
>)
    requires
        window_readable(cfg, img@, start_x, start_y),
    ensures
        res == word_start_in_window(cfg, img@, start_x, start_y),
{
    let mut ans_x: u32 = 0;
    let mut ans_y: u32 = 0;

    let raw = img.as_raw();
    let len = raw.len();
    let width = img.width() as usize;

    let end_x = start_x + cfg.char_width;
    let end_y = start_y + cfg.char_height;
    let mut color_count: u32 = 0;

    let ghost v = img@;
    let ghost cols = cfg.char_width as nat;
    let ghost rows = cfg.char_height as nat;
    let ghost m = needed(cfg.required_pixels_for_start);

    let mut y: u32 = start_y;
    while y < end_y
        invariant
            window_readable(cfg, v, start_x, start_y),
            v == img@,
            raw@ == v.bytes,
            len == v.bytes.len(),
            width == v.width,
            end_x == start_x + cols,
            end_y == start_y + rows,
            cols == cfg.char_width,
            rows == cfg.char_height,
            m == needed(cfg.required_pixels_for_start),
            start_y <= y <= end_y,
            color_count < m,
            color_count == window_hits(cfg, v, start_x as int, start_y as int, cols, (y - start_y) as nat).len(),
            (ans_x, ans_y) == anchor(window_hits(cfg, v, start_x as int, start_y as int, cols, (y - start_y) as nat)),
        ensures
            y == end_y,
        decreases end_y - y,
    {
        let ghost r = (y - start_y) as nat;
        let ghost done = window_hits(cfg, v, start_x as int, start_y as int, cols, r);
        proof {
            assert(y * v.width + end_x <= (end_y - 1) * v.width + end_x) by (nonlinear_arith)
                requires
                    y <= end_y - 1,
            ;
        }
        let row = y as usize * width;
        let mut x: u32 = start_x;
        while x < end_x
            invariant
                window_readable(cfg, v, start_x, start_y),
                v == img@,
                raw@ == v.bytes,
                len == v.bytes.len(),
                width == v.width,
                end_x == start_x + cols,
                end_y == start_y + rows,
                cols == cfg.char_width,
                rows == cfg.char_height,
                m == needed(cfg.required_pixels_for_start),
                start_y <= y < end_y,
                r == y - start_y,
                done == window_hits(cfg, v, start_x as int, start_y as int, cols, r),
                row == y * v.width,
                4 * (row + end_x) <= v.bytes.len(),
                start_x <= x <= end_x,
                color_count < m,
                color_count == (done + row_hits(cfg, v, y as int, start_x as int, (x - start_x) as nat)).len(),
                (ans_x, ans_y) == anchor(done + row_hits(cfg, v, y as int, start_x as int, (x - start_x) as nat)),
            ensures
                x == end_x,
            decreases end_x - x,
        {
            let ghost n = (x - start_x) as nat;
            let ghost seen = done + row_hits(cfg, v, y as int, start_x as int, n);
            let k = (row + x as usize) * 4;
            let pixel = vstd::slice::slice_subrange(raw.as_slice(), k, k + 4);
            assert(pixel@[0] == v.bytes[k as int]);
            assert(pixel@[1] == v.bytes[k + 1]);
            assert(pixel@[2] == v.bytes[k + 2]);
            let hit = what_color(
                pixel,
                cfg.start_char_r_max,
                cfg.start_char_r_min,
                cfg.start_char_g_max,
                cfg.start_char_g_min,
                cfg.start_char_b_max,
                cfg.start_char_b_min,
            );
            assert(row_hits(cfg, v, y as int, start_x as int, n + 1) == if hit {
                row_hits(cfg, v, y as int, start_x as int, n).push((x, y))
            } else {
                row_hits(cfg, v, y as int, start_x as int, n)
            });
            if hit {
                proof {
                    let now = done + row_hits(cfg, v, y as int, start_x as int, n + 1);
                    assert(now =~= seen.push((x, y)));
                    assert(now.drop_last() =~= seen);
                }
                color_count += 1;

                if ans_x == 0 {
                    ans_x = x;
                    ans_y = y;
                }

                if color_count >= cfg.required_pixels_for_start {
                    proof {
                        let now = done + row_hits(cfg, v, y as int, start_x as int, n + 1);
                        lemma_partial_hits_prefix(
                            cfg,
                            v,
                            start_x as int,
                            start_y as int,
                            cols,
                            rows,
                            r,
                            n + 1,
                        );
                        assert(now.len() == m);
                    }
                    return Some((ans_x, ans_y));
                }
            } else {
                assert(done + row_hits(cfg, v, y as int, start_x as int, n + 1) == seen);
            }
            x += 1;
        }
        assert(window_hits(cfg, v, start_x as int, start_y as int, cols, r + 1) == done
            + row_hits(cfg, v, y as int, start_x as int, cols));
        y += 1;
    }
    None
}

} // verus!

verus! {

/// Rightmost column that the word-start scan visits.
pub open spec fn scan_max_x(cfg: &Config) -> int {
    cfg.roi_x + cfg.roi_width - cfg.char_width
}

/// Lowest row that the word-start scan visits.
pub open spec fn scan_max_y(cfg: &Config) -> int {
    cfg.roy_y + cfg.roi_height - cfg.char_height
}

/// The first word start found in row `y`, trying the windows at columns
/// `x`, `x` + `scan_stride`, ... up to `max_x`.
pub open spec fn first_start_in_row(cfg: &Config, img: RasterView, y: u32, x: int, max_x: int) -> Option<
    (u32, u32),
>
    decreases (if x <= max_x { max_x - x + 1 } else { 0 }),
{
    if x > max_x {
        None
    } else {
        match word_start_in_window(cfg, img, x as u32, y) {
            Some(p) => Some(p),
            None => if cfg.scan_stride == 0 {
                None
            } else {
                first_start_in_row(cfg, img, y, x + cfg.scan_stride, max_x)
            },
        }
    }
}

/// The first word start found in rows `y`, `y` + `scan_stride`, ... up to
/// `max_y`, each row scanned from `roi_x` to `max_x`.
pub open spec fn first_start_from_row(
    cfg: &Config,
    img: RasterView,
    y: int,
    max_x: int,
    max_y: int,
) -> Option<(u32, u32)>
    decreases (if y <= max_y { max_y - y + 1 } else { 0 }),
{
    if y > max_y {
        None
    } else {
        match first_start_in_row(cfg, img, y as u32, cfg.roi_x as int, max_x) {
            Some(p) => Some(p),
            None => if cfg.scan_stride == 0 {
                None
            } else {
                first_start_from_row(cfg, img, y + cfg.scan_stride, max_x, max_y)
            },
        }
    }
}

/// The start of the first word met when the region of interest is scanned
/// row by row, window by window, `scan_stride` pixels apart.
pub open spec fn word_start_on_screen(cfg: &Config, img: RasterView) -> Option<(u32, u32)> {
    first_start_from_row(cfg, img, cfg.roy_y as int, scan_max_x(cfg), scan_max_y(cfg))
}

/// The scan of row `y` from column `x` on runs to its end: every window
/// it reads, up to the first that holds a word start, can be read, and each
/// step to the next column stays within 32 bits (a zero stride never steps,
/// so it ends only on a start).
pub open spec fn row_scan_readable(cfg: &Config, img: RasterView, y: u32, x: int, max_x: int) -> bool
    decreases (if x <= max_x { max_x - x + 1 } else { 0 }),
{
    if x > max_x {
        true
    } else {
        &&& window_readable(cfg, img, x as u32, y)
        &&& (word_start_in_window(cfg, img, x as u32, y) is Some || (cfg.scan_stride > 0 && x
            + cfg.scan_stride <= u32::MAX && row_scan_readable(
            cfg,
            img,
            y,
            x + cfg.scan_stride,
            max_x,
        )))
    }
}

/// The scan from row `y` on runs to its end: each row it scans, up to the
/// first that holds a word start, runs to its end, and each step to the
/// next row stays within 32 bits.
pub open spec fn grid_scan_readable(cfg: &Config, img: RasterView, y: int, max_x: int, max_y: int) -> bool
    decreases (if y <= max_y { max_y - y + 1 } else { 0 }),
{
    if y > max_y {
        true
    } else {
        &&& row_scan_readable(cfg, img, y as u32, cfg.roi_x as int, max_x)
        &&& (first_start_in_row(cfg, img, y as u32, cfg.roi_x as int, max_x) is Some || (
        cfg.scan_stride > 0 && y + cfg.scan_stride <= u32::MAX && grid_scan_readable(
            cfg,
            img,
            y + cfg.scan_stride,
            max_x,
            max_y,
        )))
    }
}

/// The limits of the region of interest can be computed in 32 bits.
pub open spec fn scan_limits_fit(cfg: &Config) -> bool {
    &&& cfg.roi_x + cfg.roi_width <= u32::MAX
    &&& cfg.char_width <= cfg.roi_x + cfg.roi_width
    &&& cfg.roy_y + cfg.roi_height <= u32::MAX
    &&& cfg.char_height <= cfg.roy_y + cfg.roi_height
}

/// The scan of the region of interest runs on `img` without overflow and
/// without reading outside the buffer, and ends.
pub open spec fn scan_readable(cfg: &Config, img: RasterView) -> bool {
    &&& scan_limits_fit(cfg)
    &&& grid_scan_readable(cfg, img, cfg.roy_y as int, scan_max_x(cfg), scan_max_y(cfg))
}

/// Whether the window at (`sx`, `sy`) can be read.
pub fn window_possible(cfg: &Config, img: &RgbaImage, sx: u32, sy: u32) -> (res: bool)
    ensures
        res == window_readable(cfg, img@, sx, sy),
{
    if sx as u64 + cfg.char_width as u64 > 0xffff_ffff || sy as u64 + cfg.char_height as u64
        > 0xffff_ffff {
        return false;
    }
    if cfg.char_height == 0 {
        return true;
    }
    let w = img.width() as u128;
    let last_row = (sy + cfg.char_height - 1) as u128;
    assert(last_row * w <= 0x1_0000_0000 * 0x1_0000_0000) by (nonlinear_arith)
        requires
            last_row <= 0x1_0000_0000,
            w <= 0x1_0000_0000,
    ;
    let end = last_row * w + sx as u128 + cfg.char_width as u128;
    4 * end <= img.as_raw().len() as u128
}

/// Scans the region of interest as `get_beginning_of_word` does, checking
/// each window before it is read: `None` when the scan would read outside
/// the image, overflow or never end; otherwise the scan's result.
pub fn try_beginning_of_word(cfg: &Config, img: &RgbaImage) -> (res: Option<Option<(u32, u32)>>)
    ensures
        res is Some <==> scan_readable(cfg, img@),
        res matches Some(r) ==> r == word_start_on_screen(cfg, img@),
{
    let s = cfg.scan_stride;
    if cfg.roi_x as u64 + cfg.roi_width as u64 > 0xffff_ffff || cfg.char_width as u64
        > cfg.roi_x as u64 + cfg.roi_width as u64 || cfg.roy_y as u64 + cfg.roi_height as u64
        > 0xffff_ffff || cfg.char_height as u64 > cfg.roy_y as u64 + cfg.roi_height as u64 {
        return None;
    }
    let min_x = cfg.roi_x;
    let min_y = cfg.roy_y;
    let max_x = min_x + cfg.roi_width - cfg.char_width;
    let max_y = min_y + cfg.roi_height - cfg.char_height;
    let ghost v = img@;

    let mut y = min_y;
    while y <= max_y
        invariant
            scan_limits_fit(cfg),
            v == img@,
            s == cfg.scan_stride,
            min_x == cfg.roi_x,
            min_y == cfg.roy_y,
            max_x == scan_max_x(cfg),
            max_y == scan_max_y(cfg),
            min_y <= y,
            grid_scan_readable(cfg, v, min_y as int, max_x as int, max_y as int)
                == grid_scan_readable(cfg, v, y as int, max_x as int, max_y as int),
            word_start_on_screen(cfg, v) == first_start_from_row(
                cfg,
                v,
                y as int,
                max_x as int,
                max_y as int,
            ),
        decreases (if y <= max_y { max_y - y + 1 } else { 0 }),
    {
        let mut x = min_x;
        while x <= max_x
            invariant
                scan_limits_fit(cfg),
                v == img@,
                s == cfg.scan_stride,
                min_x == cfg.roi_x,
                min_y == cfg.roy_y,
                max_x == scan_max_x(cfg),
                max_y == scan_max_y(cfg),
                min_y <= y <= max_y,
                min_x <= x,
                grid_scan_readable(cfg, v, min_y as int, max_x as int, max_y as int)
                    == grid_scan_readable(cfg, v, y as int, max_x as int, max_y as int),
                word_start_on_screen(cfg, v) == first_start_from_row(
                    cfg,
                    v,
                    y as int,
                    max_x as int,
                    max_y as int,
                ),
                row_scan_readable(cfg, v, y, min_x as int, max_x as int) == row_scan_readable(
                    cfg,
                    v,
                    y,
                    x as int,
                    max_x as int,
                ),
                first_start_in_row(cfg, v, y, min_x as int, max_x as int) == first_start_in_row(
                    cfg,
                    v,
                    y,
                    x as int,
                    max_x as int,
                ),
            decreases (if x <= max_x { max_x - x + 1 } else { 0 }),
        {
            if !window_possible(cfg, img, x, y) {
                return None;
            }
            match detect_word_start(cfg, img, x, y) {
                Some((found_x, found_y)) => return Some(Some((found_x, found_y))),
                None => {
                    if s == 0 || x as u64 + s as u64 > 0xffff_ffff {
                        return None;
                    }
                    x += s;
                },
            }
        }
        if s == 0 || y as u64 + s as u64 > 0xffff_ffff {
            return None;
        }
        y += s;
    }
    Some(None)
}

/// Finds where the first word starts: scans the region of interest row by
/// row and, in each row, window by window, `scan_stride` pixels apart, and
/// returns the first window's word start.
pub fn get_beginning_of_word(cfg: &Config, img: &RgbaImage) -> (res: Option<(u32, u32)>)
    requires
        scan_readable(cfg, img@),
    ensures
        res == word_start_on_screen(cfg, img@),
{
    match try_beginning_of_word(cfg, img) {
        Some(found) => found,
        None => None,
    }
}

} // verus!

verus! {

proof fn lemma_anchor_is_hit(hits: Seq<(u32, u32)>)
    requires
        hits.len() > 0,
    ensures
        hits.contains(anchor(hits)),
    decreases hits.len(),
{
    let before = anchor(hits.drop_last());
    if before.0 == 0 {
        assert(hits[hits.len() - 1] == hits.last());
    } else {
        if hits.drop_last().len() == 0 {
            assert(before == (0u32, 0u32));
        } else {
            lemma_anchor_is_hit(hits.drop_last());
            let i = choose|i: int| 0 <= i < hits.drop_last().len() && hits.drop_last()[i] == before;
            assert(hits[i] == before);
        }
    }
}

proof fn lemma_row_hits_coloured(cfg: &Config, img: RasterView, y: int, sx: int, n: nat)
    requires
        0 <= sx,
        sx + n <= u32::MAX + 1,
        0 <= y <= u32::MAX,
    ensures
        forall|i: int|
            0 <= i < row_hits(cfg, img, y, sx, n).len() ==> {
                let p = #[trigger] row_hits(cfg, img, y, sx, n)[i];
                &&& sx <= p.0 < sx + n
                &&& p.1 == y
                &&& start_char_colour(cfg, rgb_at(img.bytes, y * img.width + p.0))
            },
    decreases n,
{
    if n > 0 {
        lemma_row_hits_coloured(cfg, img, y, sx, (n - 1) as nat);
        let prev = row_hits(cfg, img, y, sx, (n - 1) as nat);
        let x = sx + n - 1;
        let cur = row_hits(cfg, img, y, sx, n);
        assert forall|i: int| 0 <= i < cur.len() implies {
            let p = #[trigger] cur[i];
            &&& sx <= p.0 < sx + n
            &&& p.1 == y
            &&& start_char_colour(cfg, rgb_at(img.bytes, y * img.width + p.0))
        } by {
            if i < prev.len() {
                assert(cur[i] == prev[i]);
            } else {
                assert(cur[i] == (x as u32, y as u32));
            }
        }
    }
}

pub(crate) proof fn lemma_window_hits_coloured(
    cfg: &Config,
    img: RasterView,
    sx: int,
    sy: int,
    cols: nat,
    rows: nat,
)
    requires
        0 <= sx,
        sx + cols <= u32::MAX + 1,
        0 <= sy,
        sy + rows <= u32::MAX + 1,
    ensures
        forall|i: int|
            0 <= i < window_hits(cfg, img, sx, sy, cols, rows).len() ==> {
                let p = #[trigger] window_hits(cfg, img, sx, sy, cols, rows)[i];
                &&& sx <= p.0 < sx + cols
                &&& sy <= p.1 < sy + rows
                &&& start_char_colour(cfg, rgb_at(img.bytes, p.1 * img.width + p.0))
            },
    decreases rows,
{
    if rows > 0 {
        let before = window_hits(cfg, img, sx, sy, cols, (rows - 1) as nat);
        let row = row_hits(cfg, img, sy + rows - 1, sx, cols);
        lemma_window_hits_coloured(cfg, img, sx, sy, cols, (rows - 1) as nat);
        lemma_row_hits_coloured(cfg, img, sy + rows - 1, sx, cols);
        assert forall|i: int|
            0 <= i < window_hits(cfg, img, sx, sy, cols, rows).len() implies {
                let p = #[trigger] window_hits(cfg, img, sx, sy, cols, rows)[i];
                &&& sx <= p.0 < sx + cols
                &&& sy <= p.1 < sy + rows
                &&& start_char_colour(cfg, rgb_at(img.bytes, p.1 * img.width + p.0))
            } by {
            if i < before.len() {
                assert(window_hits(cfg, img, sx, sy, cols, rows)[i] == before[i]);
            } else {
                assert(window_hits(cfg, img, sx, sy, cols, rows)[i] == row[i - before.len()]);
            }
        }
    }
}

/// A word start found in a window is a pixel of that window, and it has the
/// colour of a word's first character.
pub proof fn law_window_start_is_start_coloured(cfg: &Config, img: RasterView, sx: u32, sy: u32)
    requires
        window_readable(cfg, img, sx, sy),
    ensures
        word_start_in_window(cfg, img, sx, sy) matches Some(p) ==> {
            &&& sx <= p.0 < sx + cfg.char_width
            &&& sy <= p.1 < sy + cfg.char_height
            &&& start_char_colour(cfg, rgb_at(img.bytes, p.1 * img.width + p.0))
        },
{
    let hits = window_hits(
        cfg,
        img,
        sx as int,
        sy as int,
        cfg.char_width as nat,
        cfg.char_height as nat,
    );
    let m = needed(cfg.required_pixels_for_start);
    if hits.len() >= m {
        lemma_window_hits_coloured(
            cfg,
            img,
            sx as int,
            sy as int,
            cfg.char_width as nat,
            cfg.char_height as nat,
        );
        lemma_anchor_is_hit(hits.take(m as int));
        let i = choose|i: int|
            0 <= i < hits.take(m as int).len() && hits.take(m as int)[i] == anchor(
                hits.take(m as int),
            );
        assert(hits[i] == hits.take(m as int)[i]);
    }
}

proof fn lemma_row_scan_start(cfg: &Config, img: RasterView, y: u32, x: int, max_x: int)
    requires
        scan_limits_fit(cfg),
        row_scan_readable(cfg, img, y, x, max_x),
        cfg.roy_y <= y <= scan_max_y(cfg),
        cfg.roi_x <= x <= u32::MAX,
        max_x == scan_max_x(cfg),
    ensures
        first_start_in_row(cfg, img, y, x, max_x) matches Some(p) ==> {
            &&& cfg.roi_x <= p.0 < cfg.roi_x + cfg.roi_width
            &&& cfg.roy_y <= p.1 < cfg.roy_y + cfg.roi_height
            &&& start_char_colour(cfg, rgb_at(img.bytes, p.1 * img.width + p.0))
        },
    decreases (if x <= max_x { max_x - x + 1 } else { 0 }),
{
    if x <= max_x {
        law_window_start_is_start_coloured(cfg, img, x as u32, y);
        if word_start_in_window(cfg, img, x as u32, y) is None && cfg.scan_stride > 0 {
            lemma_row_scan_start(cfg, img, y, x + cfg.scan_stride, max_x);
        }
    }
}

proof fn lemma_grid_scan_start(cfg: &Config, img: RasterView, y: int, max_x: int, max_y: int)
    requires
        scan_limits_fit(cfg),
        grid_scan_readable(cfg, img, y, max_x, max_y),
        cfg.roy_y <= y <= u32::MAX,
        max_x == scan_max_x(cfg),
        max_y == scan_max_y(cfg),
    ensures
        first_start_from_row(cfg, img, y, max_x, max_y) matches Some(p) ==> {
            &&& cfg.roi_x <= p.0 < cfg.roi_x + cfg.roi_width
            &&& cfg.roy_y <= p.1 < cfg.roy_y + cfg.roi_height
            &&& start_char_colour(cfg, rgb_at(img.bytes, p.1 * img.width + p.0))
        },
    decreases (if y <= max_y { max_y - y + 1 } else { 0 }),
{
    if y <= max_y {
        lemma_row_scan_start(cfg, img, y as u32, cfg.roi_x as int, max_x);
        if first_start_in_row(cfg, img, y as u32, cfg.roi_x as int, max_x) is None
            && cfg.scan_stride > 0 {
            lemma_grid_scan_start(cfg, img, y + cfg.scan_stride, max_x, max_y);
        }
    }
}

/// The start of a word found on the screen lies in the region of interest
/// and has the colour of a word's first character.
pub proof fn law_screen_start_is_start_coloured(cfg: &Config, img: RasterView)
    requires
        scan_readable(cfg, img),
    ensures
        word_start_on_screen(cfg, img) matches Some(p) ==> {
            &&& cfg.roi_x <= p.0 < cfg.roi_x + cfg.roi_width
            &&& cfg.roy_y <= p.1 < cfg.roy_y + cfg.roi_height
            &&& start_char_colour(cfg, rgb_at(img.bytes, p.1 * img.width + p.0))
        },
{
    lemma_grid_scan_start(cfg, img, cfg.roy_y as int, scan_max_x(cfg), scan_max_y(cfg));
}

} // verus!
