use vstd::prelude::*;

use super::{
    anchor, first_start_from_row, first_start_in_row, needed, row_hits, scan_limits_fit,
    scan_max_x, scan_max_y, window_hits, window_readable, word_start_in_window,
    word_start_on_screen,
};
use crate::config::Config;
use crate::raster::{RasterView, rgb_at};

verus! {

/// Two images of the same width agree on every pixel of the rectangle of
/// columns `x0` .. `x1` and rows `y0` .. `y1` (pixels taken by linear index).
pub open spec fn agree_on(a: RasterView, b: RasterView, x0: int, x1: int, y0: int, y1: int) -> bool {
    &&& a.width == b.width
    &&& forall|x: int, y: int|
        x0 <= x < x1 && y0 <= y < y1 ==> #[trigger] rgb_at(a.bytes, y * a.width + x) == rgb_at(
            b.bytes,
            y * b.width + x,
        )
}

proof fn lemma_row_hits_local(cfg: &Config, a: RasterView, b: RasterView, y: int, sx: int, n: nat)
    requires
        agree_on(a, b, sx, sx + n, y, y + 1),
    ensures
        row_hits(cfg, a, y, sx, n) == row_hits(cfg, b, y, sx, n),
    decreases n,
{
    if n > 0 {
        lemma_row_hits_local(cfg, a, b, y, sx, (n - 1) as nat);
        let x = sx + n - 1;
        assert(rgb_at(a.bytes, y * a.width + x) == rgb_at(b.bytes, y * b.width + x));
    }
}

proof fn lemma_window_hits_local(
    cfg: &Config,
    a: RasterView,
    b: RasterView,
    sx: int,
    sy: int,
    cols: nat,
    rows: nat,
)
    requires
        agree_on(a, b, sx, sx + cols, sy, sy + rows),
    ensures
        window_hits(cfg, a, sx, sy, cols, rows) == window_hits(cfg, b, sx, sy, cols, rows),
    decreases rows,
{
    if rows > 0 {
        lemma_window_hits_local(cfg, a, b, sx, sy, cols, (rows - 1) as nat);
        lemma_row_hits_local(cfg, a, b, sy + rows - 1, sx, cols);
    }
}

/// The word start of a window depends only on the pixels of that window.
pub proof fn law_window_start_is_local(cfg: &Config, a: RasterView, b: RasterView, sx: u32, sy: u32)
    requires
        agree_on(
            a,
            b,
            sx as int,
            sx + cfg.char_width,
            sy as int,
            sy + cfg.char_height,
        ),
    ensures
        word_start_in_window(cfg, a, sx, sy) == word_start_in_window(cfg, b, sx, sy),
{
    lemma_window_hits_local(
        cfg,
        a,
        b,
        sx as int,
        sy as int,
        cfg.char_width as nat,
        cfg.char_height as nat,
    );
}

proof fn lemma_row_scan_local(cfg: &Config, a: RasterView, b: RasterView, y: u32, x: int, max_x: int)
    requires
        scan_limits_fit(cfg),
        max_x == scan_max_x(cfg),
        cfg.roi_x <= x,
        cfg.roy_y <= y <= scan_max_y(cfg),
        agree_on(
            a,
            b,
            cfg.roi_x as int,
            cfg.roi_x + cfg.roi_width,
            cfg.roy_y as int,
            cfg.roy_y + cfg.roi_height,
        ),
    ensures
        first_start_in_row(cfg, a, y, x, max_x) == first_start_in_row(cfg, b, y, x, max_x),
    decreases (if x <= max_x { max_x - x + 1 } else { 0 }),
{
    if x <= max_x {
        let x0 = x as u32;
        assert(agree_on(a, b, x0 as int, x0 + cfg.char_width, y as int, y + cfg.char_height)) by {
            assert forall|px: int, py: int|
                x0 <= px < x0 + cfg.char_width && y <= py < y + cfg.char_height implies #[trigger] rgb_at(
                a.bytes,
                py * a.width + px,
            ) == rgb_at(b.bytes, py * b.width + px) by {
                assert(cfg.roi_x <= px < cfg.roi_x + cfg.roi_width);
                assert(cfg.roy_y <= py < cfg.roy_y + cfg.roi_height);
            }
        }
        law_window_start_is_local(cfg, a, b, x0, y);
        if cfg.scan_stride > 0 {
            lemma_row_scan_local(cfg, a, b, y, x + cfg.scan_stride, max_x);
        }
    }
}

proof fn lemma_grid_scan_local(cfg: &Config, a: RasterView, b: RasterView, y: int, max_x: int, max_y: int)
    requires
        scan_limits_fit(cfg),
        max_x == scan_max_x(cfg),
        max_y == scan_max_y(cfg),
        cfg.roy_y <= y,
        agree_on(
            a,
            b,
            cfg.roi_x as int,
            cfg.roi_x + cfg.roi_width,
            cfg.roy_y as int,
            cfg.roy_y + cfg.roi_height,
        ),
    ensures
        first_start_from_row(cfg, a, y, max_x, max_y) == first_start_from_row(cfg, b, y, max_x, max_y),
    decreases (if y <= max_y { max_y - y + 1 } else { 0 }),
{
    if y <= max_y {
        lemma_row_scan_local(cfg, a, b, y as u32, cfg.roi_x as int, max_x);
        if cfg.scan_stride > 0 {
            lemma_grid_scan_local(cfg, a, b, y + cfg.scan_stride, max_x, max_y);
        }
    }
}

/// Pixels outside the region of interest never change where the scan finds
/// a word start.
pub proof fn law_scan_ignores_outside(cfg: &Config, a: RasterView, b: RasterView)
    requires
        scan_limits_fit(cfg),
        agree_on(
            a,
            b,
            cfg.roi_x as int,
            cfg.roi_x + cfg.roi_width,
            cfg.roy_y as int,
            cfg.roy_y + cfg.roi_height,
        ),
    ensures
        word_start_on_screen(cfg, a) == word_start_on_screen(cfg, b),
{
    lemma_grid_scan_local(cfg, a, b, cfg.roy_y as int, scan_max_x(cfg), scan_max_y(cfg));
}

/// Two configurations read windows alike: same character size and the same
/// range of start colours.
pub open spec fn same_window_colours(c1: &Config, c2: &Config) -> bool {
    &&& c1.char_width == c2.char_width
    &&& c1.char_height == c2.char_height
    &&& c1.start_char_r_max == c2.start_char_r_max
    &&& c1.start_char_r_min == c2.start_char_r_min
    &&& c1.start_char_g_max == c2.start_char_g_max
    &&& c1.start_char_g_min == c2.start_char_g_min
    &&& c1.start_char_b_max == c2.start_char_b_max
    &&& c1.start_char_b_min == c2.start_char_b_min
}

proof fn lemma_row_hits_same_colours(c1: &Config, c2: &Config, img: RasterView, y: int, sx: int, n: nat)
    requires
        same_window_colours(c1, c2),
    ensures
        row_hits(c1, img, y, sx, n) == row_hits(c2, img, y, sx, n),
    decreases n,
{
    if n > 0 {
        lemma_row_hits_same_colours(c1, c2, img, y, sx, (n - 1) as nat);
    }
}

proof fn lemma_window_hits_same_colours(
    c1: &Config,
    c2: &Config,
    img: RasterView,
    sx: int,
    sy: int,
    cols: nat,
    rows: nat,
)
    requires
        same_window_colours(c1, c2),
    ensures
        window_hits(c1, img, sx, sy, cols, rows) == window_hits(c2, img, sx, sy, cols, rows),
    decreases rows,
{
    if rows > 0 {
        lemma_window_hits_same_colours(c1, c2, img, sx, sy, cols, (rows - 1) as nat);
        lemma_row_hits_same_colours(c1, c2, img, sy + rows - 1, sx, cols);
    }
}

proof fn lemma_anchor_is_first(hits: Seq<(u32, u32)>)
    requires
        hits.len() > 0,
        forall|i: int| 0 <= i < hits.len() ==> (#[trigger] hits[i]).0 != 0,
    ensures
        anchor(hits) == hits[0],
    decreases hits.len(),
{
    if hits.drop_last().len() > 0 {
        lemma_anchor_is_first(hits.drop_last());
        assert(hits.drop_last()[0] == hits[0]);
        assert(hits[0].0 != 0);
    } else {
        assert(anchor(hits.drop_last()) == (0u32, 0u32));
        assert(hits.last() == hits[0]);
    }
}

/// Away from column 0, raising the required number of start-coloured pixels
/// can only lose a word start; it never moves one.
pub proof fn law_threshold_keeps_start(c1: &Config, c2: &Config, img: RasterView, sx: u32, sy: u32)
    requires
        same_window_colours(c1, c2),
        c1.required_pixels_for_start <= c2.required_pixels_for_start,
        sx >= 1,
        window_readable(c1, img, sx, sy),
    ensures
        word_start_in_window(c2, img, sx, sy) matches Some(p) ==> word_start_in_window(
            c1,
            img,
            sx,
            sy,
        ) == Some(p),
{
    let cols = c1.char_width as nat;
    let rows = c1.char_height as nat;
    let hits = window_hits(c1, img, sx as int, sy as int, cols, rows);
    lemma_window_hits_same_colours(c1, c2, img, sx as int, sy as int, cols, rows);
    let m1 = needed(c1.required_pixels_for_start);
    let m2 = needed(c2.required_pixels_for_start);
    if hits.len() >= m2 {
        super::word_start::lemma_window_hits_coloured(c1, img, sx as int, sy as int, cols, rows);
        let t1 = hits.take(m1 as int);
        let t2 = hits.take(m2 as int);
        assert forall|i: int| 0 <= i < t1.len() implies (#[trigger] t1[i]).0 != 0 by {
            assert(t1[i] == hits[i]);
        }
        assert forall|i: int| 0 <= i < t2.len() implies (#[trigger] t2[i]).0 != 0 by {
            assert(t2[i] == hits[i]);
        }
        lemma_anchor_is_first(t1);
        lemma_anchor_is_first(t2);
        assert(t1[0] == t2[0]);
    }
}

} // verus!
