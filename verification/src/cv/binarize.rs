use vstd::prelude::*;

use super::{ink_pixel, is_white, what_color};
use crate::config::Config;
use crate::raster::{RasterView, RgbaImage, rgb_at, rgba_len};

verus! {

/// The four bytes of a binarised pixel: opaque black for ink, opaque white
/// otherwise.
pub open spec fn ink_bytes(ink: bool) -> Seq<u8> {
    if ink {
        seq![0u8, 0u8, 0u8, 255u8]
    } else {
        seq![255u8, 255u8, 255u8, 255u8]
    }
}

/// The binarised bytes of the `n` pixels with linear indices `y` * width +
/// `x`, ... of the image.
pub open spec fn bin_row(cfg: &Config, img: RasterView, x: int, y: int, n: nat) -> Seq<u8>
    decreases n,
{
    if n == 0 {
        Seq::empty()
    } else {
        bin_row(cfg, img, x, y, (n - 1) as nat) + ink_bytes(
            ink_pixel(cfg, rgb_at(img.bytes, y * img.width + x + n - 1)),
        )
    }
}

/// The binarised bytes of `rows` rows from row `y`, `cols` pixels each from
/// column `x`.
pub open spec fn bin_rows(cfg: &Config, img: RasterView, x: int, y: int, cols: nat, rows: nat) -> Seq<u8>
    decreases rows,
{
    if rows == 0 {
        Seq::empty()
    } else {
        bin_rows(cfg, img, x, y, cols, (rows - 1) as nat) + bin_row(cfg, img, x, y + rows - 1, cols)
    }
}

/// The box can be binarised without overflow and its rows lie in the buffer.
pub open spec fn bin_readable(img: RasterView, x: u32, y: u32, width: u32, height: u32) -> bool {
    &&& 4 * (width * height) <= u32::MAX
    &&& y + height <= u32::MAX
    &&& height > 0 ==> {
        &&& (y + height - 1) * img.width + x + width <= u32::MAX
        &&& 4 * ((y + height - 1) * img.width + x + width) <= img.bytes.len()
    }
}

proof fn lemma_bin_row_len(cfg: &Config, img: RasterView, x: int, y: int, n: nat)
    ensures
        bin_row(cfg, img, x, y, n).len() == 4 * n,
    decreases n,
{
    if n > 0 {
        lemma_bin_row_len(cfg, img, x, y, (n - 1) as nat);
    }
}

proof fn lemma_bin_rows_len(cfg: &Config, img: RasterView, x: int, y: int, cols: nat, rows: nat)
    ensures
        bin_rows(cfg, img, x, y, cols, rows).len() == 4 * (cols * rows),
    decreases rows,
{
    if rows > 0 {
        lemma_bin_rows_len(cfg, img, x, y, cols, (rows - 1) as nat);
        lemma_bin_row_len(cfg, img, x, y + rows - 1, cols);
        let r1 = (rows - 1) as nat;
        assert(4 * (cols * r1) + 4 * cols == 4 * (cols * rows)) by (nonlinear_arith)
            requires
                r1 + 1 == rows,
        ;
    } else {
        assert(cols * rows == 0) by (nonlinear_arith)
            requires
                rows == 0,
        ;
    }
}

/// Makes the black-on-white image of the box (`x`, `y`, `width`,
/// `height`): a pixel becomes black when it has the binarisation colour or
/// is white enough, and white otherwise.
pub fn make_bin(cfg: &Config, x: u32, y: u32, width: u32, height: u32, img: &RgbaImage) -> (res: Option<
    RgbaImage,
>)
    requires
        bin_readable(img@, x, y, width, height),
    ensures
        res is Some <==> 4 * width <= usize::MAX,
        res matches Some(bin) ==> bin@ == (RasterView {
            width,
            height,
            bytes: bin_rows(cfg, img@, x as int, y as int, width as nat, height as nat),
        }),
{
    let origin_width = img.width();
    let raw = img.as_raw();
    let len = raw.len();
    let ghost v = img@;
    let mut binary_data: Vec<u8> = Vec::with_capacity((width * height * 4) as usize);

    let end_y = y + height;
    let mut yy = y;
    while yy < end_y
        invariant
            bin_readable(v, x, y, width, height),
            v == img@,
            raw@ == v.bytes,
            len == v.bytes.len(),
            origin_width == v.width,
            end_y == y + height,
            y <= yy <= end_y,
            binary_data@ == bin_rows(cfg, v, x as int, y as int, width as nat, (yy - y) as nat),
        ensures
            yy == end_y,
        decreases end_y - yy,
    {
        proof {
            assert(yy * v.width + x + width <= (end_y - 1) * v.width + x + width) by (nonlinear_arith)
                requires
                    yy <= end_y - 1,
            ;
        }
        let row_start = (yy * origin_width + x) as usize * 4;
        let row_end = (yy * origin_width + x + width) as usize * 4;
        let ghost done = binary_data@;

        let mut c: u32 = 0;
        while c < width
            invariant
                bin_readable(v, x, y, width, height),
                v == img@,
                raw@ == v.bytes,
                len == v.bytes.len(),
                origin_width == v.width,
                end_y == y + height,
                y <= yy < end_y,
                row_start == 4 * (yy * v.width + x),
                row_end == 4 * (yy * v.width + x + width),
                row_end <= len,
                done == bin_rows(cfg, v, x as int, y as int, width as nat, (yy - y) as nat),
                c <= width,
                binary_data@ == done + bin_row(cfg, v, x as int, yy as int, c as nat),
            ensures
                c == width,
            decreases width - c,
        {
            let k = row_start + 4 * (c as usize);
            let chunk = vstd::slice::slice_subrange(raw.as_slice(), k, k + 4);
            assert(chunk@[0] == v.bytes[k as int]);
            assert(chunk@[1] == v.bytes[k + 1]);
            assert(chunk@[2] == v.bytes[k + 2]);
            assert(4 * (yy * v.width + x + (c + 1) - 1) == k);
            let is_pass_pixel = what_color(
                chunk,
                cfg.bin_start_char_r_max,
                cfg.bin_start_char_r_min,
                cfg.bin_start_char_g_max,
                cfg.bin_start_char_g_min,
                cfg.bin_start_char_b_max,
                cfg.bin_start_char_b_min,
            );

            let is_white_pixel = is_white(chunk, cfg.bin_char_white);

            if is_pass_pixel || is_white_pixel {
                binary_data.push(0);
                binary_data.push(0);
                binary_data.push(0);
                binary_data.push(255);
            } else {
                binary_data.push(255);
                binary_data.push(255);
                binary_data.push(255);
                binary_data.push(255);
            }
            assert(binary_data@ =~= done + bin_row(cfg, v, x as int, yy as int, (c + 1) as nat));
            c += 1;
        }
        assert(binary_data@ =~= bin_rows(cfg, v, x as int, y as int, width as nat, (yy + 1 - y) as nat));
        yy += 1;
    }

    proof {
        lemma_bin_rows_len(cfg, v, x as int, y as int, width as nat, height as nat);
        assert(4 * (width * height) == rgba_len(width as int, height as int));
    }
    RgbaImage::from_raw(width, height, binary_data)
}


proof fn lemma_bin_row_pixel(cfg: &Config, img: RasterView, x: int, y: int, n: nat, c: int)
    requires
        0 <= c < n,
    ensures
        bin_row(cfg, img, x, y, n).subrange(4 * c, 4 * c + 4) == ink_bytes(
            ink_pixel(cfg, rgb_at(img.bytes, y * img.width + x + c)),
        ),
    decreases n,
{
    let prev = bin_row(cfg, img, x, y, (n - 1) as nat);
    lemma_bin_row_len(cfg, img, x, y, (n - 1) as nat);
    if c < n - 1 {
        lemma_bin_row_pixel(cfg, img, x, y, (n - 1) as nat, c);
        assert(bin_row(cfg, img, x, y, n).subrange(4 * c, 4 * c + 4) =~= prev.subrange(4 * c, 4 * c + 4));
    } else {
        assert(bin_row(cfg, img, x, y, n).subrange(4 * c, 4 * c + 4) =~= ink_bytes(
            ink_pixel(cfg, rgb_at(img.bytes, y * img.width + x + c)),
        ));
    }
}

/// Pixel (`c`, `r`) of the binarised box is opaque black when the source
/// pixel at (`x` + `c`, `y` + `r`) has the binarisation colour or is white
/// enough, and opaque white otherwise.
pub proof fn law_bin_pixel(cfg: &Config, img: RasterView, x: int, y: int, cols: nat, rows: nat, c: int, r: int)
    requires
        0 <= c < cols,
        0 <= r < rows,
    ensures
        bin_rows(cfg, img, x, y, cols, rows).subrange(4 * (r * cols + c), 4 * (r * cols + c) + 4)
            == ink_bytes(ink_pixel(cfg, rgb_at(img.bytes, (y + r) * img.width + x + c))),
    decreases rows,
{
    let r1 = (rows - 1) as nat;
    let prev = bin_rows(cfg, img, x, y, cols, r1);
    let row = bin_row(cfg, img, x, y + rows - 1, cols);
    let all = bin_rows(cfg, img, x, y, cols, rows);
    lemma_bin_rows_len(cfg, img, x, y, cols, r1);
    lemma_bin_row_len(cfg, img, x, y + rows - 1, cols);
    let at = 4 * (r * cols + c);
    if r < r1 {
        law_bin_pixel(cfg, img, x, y, cols, r1, c, r);
        assert(at + 4 <= 4 * (cols * r1)) by (nonlinear_arith)
            requires
                at == 4 * (r * cols + c),
                0 <= c < cols,
                0 <= r < r1,
        ;
        assert(all.subrange(at, at + 4) =~= prev.subrange(at, at + 4));
    } else {
        assert(at == 4 * (cols * r1) + 4 * c) by (nonlinear_arith)
            requires
                at == 4 * (r * cols + c),
                r == r1,
        ;
        lemma_bin_row_pixel(cfg, img, x, y + rows - 1, cols, c);
        assert(all.subrange(at, at + 4) =~= row.subrange(4 * c, 4 * c + 4));
    }
}

/// Every pixel of a binarised box is opaque black or opaque white.
pub proof fn law_bin_two_tone(cfg: &Config, img: RasterView, x: int, y: int, cols: nat, rows: nat, c: int, r: int)
    requires
        0 <= c < cols,
        0 <= r < rows,
    ensures
        ({
            let px = bin_rows(cfg, img, x, y, cols, rows).subrange(
                4 * (r * cols + c),
                4 * (r * cols + c) + 4,
            );
            px == seq![0u8, 0u8, 0u8, 255u8] || px == seq![255u8, 255u8, 255u8, 255u8]
        }),
{
    law_bin_pixel(cfg, img, x, y, cols, rows, c, r);
}


/// Binarising a sub-box gives the crop of the binarised box: the sub-box
/// has the sub-box's size, and its pixel (`c`, `r`) is the box's pixel
/// (`dx` + `c`, `dy` + `r`).
pub proof fn law_bin_crop(
    cfg: &Config,
    img: RasterView,
    x: int,
    y: int,
    w: nat,
    h: nat,
    dx: nat,
    dy: nat,
    w2: nat,
    h2: nat,
    c: int,
    r: int,
)
    requires
        dx + w2 <= w,
        dy + h2 <= h,
        0 <= c < w2,
        0 <= r < h2,
    ensures
        bin_rows(cfg, img, x + dx, y + dy, w2, h2).len() == 4 * (w2 * h2),
        bin_rows(cfg, img, x + dx, y + dy, w2, h2).subrange(4 * (r * w2 + c), 4 * (r * w2 + c) + 4)
            == bin_rows(cfg, img, x, y, w, h).subrange(
            4 * ((dy + r) * w + dx + c),
            4 * ((dy + r) * w + dx + c) + 4,
        ),
{
    lemma_bin_rows_len(cfg, img, x + dx, y + dy, w2, h2);
    law_bin_pixel(cfg, img, x + dx, y + dy, w2, h2, c, r);
    law_bin_pixel(cfg, img, x, y, w, h, dx + c, dy + r);
    assert((y + dy + r) * img.width + (x + dx) + c == (y + (dy + r)) * img.width + x + (dx + c));
    assert((dy + r) * w + (dx + c) == (dy + r) * w + dx + c);
}

/// Pixel (`c`, `r`) of the binarised box is opaque black exactly when the
/// source pixel at (`x` + `c`, `y` + `r`) has each channel within the
/// configured `bin_start_char` ranges, or every channel at least
/// `bin_char_white`; otherwise it is opaque white.
pub proof fn law_bin_black_on_bin_colour(
    cfg: &Config,
    img: RasterView,
    x: int,
    y: int,
    cols: nat,
    rows: nat,
    c: int,
    r: int,
)
    requires
        0 <= c < cols,
        0 <= r < rows,
    ensures
        ({
            let k = (y + r) * img.width + x + c;
            let red = img.bytes[4 * k];
            let green = img.bytes[4 * k + 1];
            let blue = img.bytes[4 * k + 2];
            let ink = (cfg.bin_start_char_r_min <= red <= cfg.bin_start_char_r_max
                && cfg.bin_start_char_g_min <= green <= cfg.bin_start_char_g_max
                && cfg.bin_start_char_b_min <= blue <= cfg.bin_start_char_b_max) || (red
                >= cfg.bin_char_white && green >= cfg.bin_char_white && blue >= cfg.bin_char_white);
            let px = bin_rows(cfg, img, x, y, cols, rows).subrange(4 * (r * cols + c), 4 * (r * cols + c) + 4);
            &&& ink ==> px == seq![0u8, 0u8, 0u8, 255u8]
            &&& !ink ==> px == seq![255u8, 255u8, 255u8, 255u8]
        }),
{
    law_bin_pixel(cfg, img, x, y, cols, rows, c, r);
}

} // verus!
