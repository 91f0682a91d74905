use vstd::prelude::*;

use crate::ocr::source_accepts;

verus! {

/// The abstract value of an [`RgbaImage`]: its dimensions and its raw
/// row-major RGBA bytes (four bytes per pixel, possibly followed by unused
/// bytes, as the buffer that it was made from may be longer).
pub struct RasterView {
    pub width: u32,
    pub height: u32,
    pub bytes: Seq<u8>,
}

/// Number of bytes that a `width` x `height` RGBA image needs.
pub open spec fn rgba_len(width: int, height: int) -> int {
    4 * (width * height)
}

/// Linear index of the pixel at (`x`, `y`) in a row-major image `width` pixels wide.
pub open spec fn linear_index(width: int, x: int, y: int) -> int {
    y * width + x
}

/// The red, green and blue channels of the pixel with linear index `k`.
pub open spec fn rgb_at(bytes: Seq<u8>, k: int) -> (u8, u8, u8) {
    (bytes[4 * k], bytes[4 * k + 1], bytes[4 * k + 2])
}

/// An RGBA image with 8 bits per channel, stored row by row.
pub struct RgbaImage {
    width: u32,
    height: u32,
    data: Vec<u8>,
}

impl View for RgbaImage {
    type V = RasterView;

    closed spec fn view(&self) -> RasterView {
        RasterView { width: self.width, height: self.height, bytes: self.data@ }
    }
}

pub proof fn lemma_pixel_in_bounds(width: int, height: int, x: int, y: int)
    requires
        0 <= x < width,
        0 <= y < height,
    ensures
        0 <= linear_index(width, x, y),
        4 * linear_index(width, x, y) + 4 <= rgba_len(width, height),
{
    assert(y * width + x < width * height) by (nonlinear_arith)
        requires
            0 <= x < width,
            0 <= y < height,
    ;
    assert(0 <= y * width) by (nonlinear_arith)
        requires
            0 <= x < width,
            0 <= y < height,
    ;
}

impl RgbaImage {
    /// The buffer holds every pixel of the image.
    #[verifier::type_invariant]
    pub open spec fn holds_all_pixels(self) -> bool {
        rgba_len(self@.width as int, self@.height as int) <= self@.bytes.len()
    }

    /// Makes an image from raw row-major RGBA bytes. Returns `None` when the
    /// buffer is too short for `width` x `height` pixels; a longer buffer is
    /// accepted and kept whole.
    pub fn from_raw(width: u32, height: u32, data: Vec<u8>) -> (res: Option<RgbaImage>)
        ensures
            res is Some <==> 4 * width <= usize::MAX && rgba_len(width as int, height as int)
                <= data@.len(),
            res matches Some(img) ==> img@ == (RasterView { width, height, bytes: data@ }),
    {
        let len = data.len();
        let needed = 4usize.checked_mul(width as usize);
        let needed = match needed {
            Some(n) => n.checked_mul(height as usize),
            None => None,
        };
        proof {
            assert(4 * (width * height) == (4 * width) * height) by (nonlinear_arith);
        }
        match needed {
            Some(n) => {
                if n <= len {
                    Some(RgbaImage { width, height, data })
                } else {
                    None
                }
            },
            None => None,
        }
    }

    pub fn width(&self) -> (w: u32)
        ensures
            w == self@.width,
    {
        self.width
    }

    pub fn height(&self) -> (h: u32)
        ensures
            h == self@.height,
    {
        self.height
    }

    /// Width and height.
    pub fn dimensions(&self) -> (d: (u32, u32))
        ensures
            d == (self@.width, self@.height),
    {
        (self.width, self.height)
    }

    /// The raw bytes, row by row.
    pub fn as_raw(&self) -> (raw: &Vec<u8>)
        ensures
            raw@ == self@.bytes,
    {
        &self.data
    }

    /// Gives the raw bytes back.
    pub fn into_raw(self) -> (raw: Vec<u8>)
        ensures
            raw@ == self@.bytes,
    {
        self.data
    }

    /// `ocrs::ImageSource::from_bytes` on this image's bytes and dimensions:
    /// the crate's source accepts them exactly when `source_accepts` holds
    /// (it computes `width * height` in 32 bits, hence the bound). The source
    /// it returns is opaque here.
    #[verifier::external_body]
    pub(crate) fn image_source(&self) -> (res: Result<ocrs::ImageSource<'_>, ocrs::ImageSourceError>)
        requires
            self@.width * self@.height <= u32::MAX,
        ensures
            res is Ok <==> source_accepts(self@.bytes.len(), self@.width, self@.height),
    {
        ocrs::ImageSource::from_bytes(&self.data, (self.width, self.height))
    }

    /// The four channels of the pixel at (`x`, `y`).
    pub fn get_pixel(&self, x: u32, y: u32) -> (p: [u8; 4])
        requires
            x < self@.width,
            y < self@.height,
        ensures
            p@ == self@.bytes.subrange(
                4 * linear_index(self@.width as int, x as int, y as int),
                4 * linear_index(self@.width as int, x as int, y as int) + 4,
            ),
    {
        proof {
            use_type_invariant(self);
            lemma_pixel_in_bounds(self.width as int, self.height as int, x as int, y as int);
        }
        let len = self.data.len();
        assert(y * self.width <= y * self.width + x);
        let k = (y as usize * self.width as usize + x as usize) * 4;
        let p = [self.data[k], self.data[k + 1], self.data[k + 2], self.data[k + 3]];
        assert(p@ =~= self.data@.subrange(k as int, k + 4));
        p
    }
}

} // verus!
