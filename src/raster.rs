use vstd::prelude::*;

verus! {

/// An RGBA image, stored row by row with four bytes per pixel.
pub struct Image {
    pub width: u32,
    pub height: u32,
    pub data: Vec<u8>,
}

/// Perceptual brightness of a colour: 0.299 R + 0.587 G + 0.114 B, truncated.
pub open spec fn luminance(r: int, g: int, b: int) -> int {
    (299 * r + 587 * g + 114 * b) / 1000
}

impl Image {
    /// The buffer holds exactly four bytes for every pixel.
    pub open spec fn wf(&self) -> bool {
        self.data@.len() == 4 * (self.width as int) * (self.height as int)
    }

    pub open spec fn in_bounds(&self, x: int, y: int) -> bool {
        0 <= x < self.width && 0 <= y < self.height
    }

    /// Channel `c` of the pixel at (x, y).
    pub open spec fn channel(&self, x: int, y: int, c: int) -> int {
        self.data@[4 * (y * self.width + x) + c] as int
    }

    /// Luminance of the pixel at (x, y); a position outside the image reads as
    /// transparent white.
    pub open spec fn lum_at(&self, x: int, y: int) -> int {
        if self.in_bounds(x, y) {
            luminance(self.channel(x, y, 0), self.channel(x, y, 1), self.channel(x, y, 2))
        } else {
            255
        }
    }

    /// Builds an image from its RGBA bytes; `None` unless there are exactly four
    /// bytes per pixel.
    pub fn from_rgba(width: u32, height: u32, data: Vec<u8>) -> (r: Option<Image>)
        ensures
            r is Some <==> data@.len() == 4 * (width as int) * (height as int),
            r matches Some(img) ==> img.width == width && img.height == height && img.data@
                == data@,
    {
        proof {
            assert(4 * (width as int) * (height as int) <= 4 * 0xffff_ffff * 0xffff_ffff)
                by (nonlinear_arith)
                requires
                    width <= 0xffff_ffff,
                    height <= 0xffff_ffff,
            ;
        }
        let n: u128 = 4u128 * (width as u128) * (height as u128);
        if (data.len() as u128) == n {
            Some(Image { width, height, data })
        } else {
            None
        }
    }

    /// The RGBA bytes of the pixel at (x, y).
    pub fn get_pixel(&self, x: u32, y: u32) -> (r: [u8; 4])
        requires
            self.wf(),
            x < self.width,
            y < self.height,
        ensures
            forall|c: int| 0 <= c < 4 ==> r@[c] as int == self.channel(x as int, y as int, c),
    {
        let w = self.width as usize;
        proof {
            assert(4 * ((y as int) * (w as int) + (x as int)) + 3 < 4 * (self.width as int) * (
            self.height as int)) by (nonlinear_arith)
                requires
                    x < self.width,
                    y < self.height,
                    w == self.width,
            ;
            assert(0 <= (y as int) * (w as int)) by (nonlinear_arith);
            assert(self.data@.len() == self.data.len());
        }
        let i: usize = 4 * ((y as usize) * w + (x as usize));
        [self.data[i], self.data[i + 1], self.data[i + 2], self.data[i + 3]]
    }
}

/// Luminance of an RGBA pixel; alpha plays no part.
pub fn pixel_brightness(pixel: [u8; 4]) -> (r: u8)
    ensures
        r as int == luminance(pixel@[0] as int, pixel@[1] as int, pixel@[2] as int),
{
    let sum: u32 = 299 * (pixel[0] as u32) + 587 * (pixel[1] as u32) + 114 * (pixel[2] as u32);
    (sum / 1000) as u8
}

/// 1 where the pixel at (x, y) is darker than `t`, else 0. Positions outside
/// the image read as transparent white, which is never dark.
pub fn is_dark(image: &Image, x: u64, y: u64, t: u8) -> (r: usize)
    requires
        image.wf(),
    ensures
        r == (if image.lum_at(x as int, y as int) < t { 1usize } else { 0usize }),
{
    let pixel: [u8; 4] = if x < image.width as u64 && y < image.height as u64 {
        image.get_pixel(x as u32, y as u32)
    } else {
        [255u8, 255u8, 255u8, 0u8]
    };
    if pixel_brightness(pixel) < t {
        1
    } else {
        0
    }
}

} // verus!
