use vstd::prelude::*;
use crate::raster::Image;
use crate::render::{cols, render, rendered, rows, Mode};

verus! {

#[verifier::external_type_specification]
#[verifier::external_body]
pub struct ExImageError(image::ImageError);

/// Width, height and RGBA bytes of the image that `bytes` encode, in whatever
/// format they are recognised as; `None` when they encode no image.
pub uninterp spec fn decoded_rgba(bytes: Seq<u8>) -> Option<(u32, u32, Seq<u8>)>;

/// Width, height and RGBA bytes of an image scaled with the Catmull-Rom filter
/// to fit a `size` by `size` square.
pub uninterp spec fn resized_rgba(width: u32, height: u32, data: Seq<u8>, size: u32) -> (
    u32,
    u32,
    Seq<u8>,
);

/// Relies on image::load_from_memory, which guesses the format from the bytes
/// and decodes them; the result is converted to 8-bit RGBA.
#[verifier::external_body]
fn decode(bytes: &[u8]) -> (r: Result<Image, image::ImageError>)
    ensures
        r is Ok <==> decoded_rgba(bytes@) is Some,
        r matches Ok(img) ==> img.wf() && decoded_rgba(bytes@) == Some(
            (img.width, img.height, img.data@),
        ),
{
    match image::load_from_memory(bytes) {
        Ok(img) => {
            let rgba = img.into_rgba8();
            Ok(Image { width: rgba.width(), height: rgba.height(), data: rgba.into_raw() })
        },
        Err(e) => Err(e),
    }
}

/// Relies on image::DynamicImage::resize with the Catmull-Rom filter: the image
/// keeps its aspect ratio, its longer side becomes `size` and its shorter side
/// the rounded proportional length, at least 1.
#[verifier::external_body]
fn resize(image: &Image, size: u32) -> (r: Image)
    requires
        image.wf(),
        image.width >= 1,
        image.height >= 1,
        size >= 1,
    ensures
        r.wf(),
        resized_rgba(image.width, image.height, image.data@, size) == (r.width, r.height, r.data@),
        1 <= r.width <= size,
        1 <= r.height <= size,
        image.width >= image.height ==> r.width == size && -(image.width as int) <= r.height
            * image.width - image.height * size <= image.width,
        image.height >= image.width ==> r.height == size && -(image.height as int) <= r.width
            * image.height - image.width * size <= image.height,
{
    let buf = image::RgbaImage::from_raw(image.width, image.height, image.data.clone()).unwrap();
    let out = image::DynamicImage::ImageRgba8(buf).resize(
        size,
        size,
        image::imageops::FilterType::CatmullRom,
    ).into_rgba8();
    Image { width: out.width(), height: out.height(), data: out.into_raw() }
}

/// Why an image could not be turned into text.
pub enum ConvertError {
    /// The bytes encode no image that can be read.
    Decode(image::ImageError),
}

/// Whether a size limit asks for scaling: it must be positive, and the image
/// must have pixels to scale.
pub open spec fn scales(width: u32, height: u32, size: Option<u32>) -> bool {
    size matches Some(n) && n >= 1 && width >= 1 && height >= 1
}

/// The image after an optional size limit: scaled to fit when the limit asks
/// for it, else unchanged.
pub open spec fn fitted(width: u32, height: u32, data: Seq<u8>, size: Option<u32>) -> (
    u32,
    u32,
    Seq<u8>,
) {
    if scales(width, height, size) {
        resized_rgba(width, height, data, size->0)
    } else {
        (width, height, data)
    }
}

/// Applies an optional size limit: a positive limit scales a non-empty image so
/// that neither side exceeds it, with its aspect ratio kept.
pub fn fit(image: Image, size: Option<u32>) -> (r: Image)
    requires
        image.wf(),
    ensures
        r.wf(),
        (r.width, r.height, r.data@) == fitted(image.width, image.height, image.data@, size),
        !scales(image.width, image.height, size) ==> r.width == image.width && r.height
            == image.height,
        scales(image.width, image.height, size) ==> ({
            let n = size->0;
            &&& 1 <= r.width <= n
            &&& 1 <= r.height <= n
            &&& image.width >= image.height ==> r.width == n && -(image.width as int) <= r.height
                * image.width - image.height * n <= image.width
            &&& image.height >= image.width ==> r.height == n && -(image.height as int) <= r.width
                * image.height - image.width * n <= image.height
        }),
{
    match size {
        Some(n) => {
            if n >= 1 && image.width >= 1 && image.height >= 1 {
                resize(&image, n)
            } else {
                image
            }
        },
        None => image,
    }
}

/// Decodes an image, applies the size limit and renders it. Fails exactly when
/// the bytes encode no image.
pub fn convert(bytes: &[u8], size: Option<u32>, mode: Mode, t: u8, double: bool) -> (r: Result<
    String,
    ConvertError,
>)
    ensures
        r is Ok <==> decoded_rgba(bytes@) is Some,
        r matches Ok(s) ==> exists|img: Image|
            {
                let d = decoded_rgba(bytes@)->0;
                &&& img.wf()
                &&& (img.width, img.height, img.data@) == fitted(d.0, d.1, d.2, size)
                &&& s@ == #[trigger] rendered(mode, img, t, double)
            },
{
    match decode(bytes) {
        Ok(image) => {
            let image = fit(image, size);
            let text = render(&image, mode, t, double);
            Ok(text)
        },
        Err(e) => Err(ConvertError::Decode(e)),
    }
}

/// An image no larger than `n` on either side has at most `n` cells across and
/// down in shading mode, and at most half of `n`, rounded up, across in the
/// other modes, with a half or a quarter of `n` down.
pub proof fn lemma_cells_within(mode: Mode, img: Image, n: nat)
    requires
        img.width <= n,
        img.height <= n,
    ensures
        cols(mode, img) <= if mode == Mode::Ascii { n as int } else { (n as int + 1) / 2 },
        rows(mode, img) <= match mode {
            Mode::Ascii => n as int,
            Mode::Blocks => (n as int + 1) / 2,
            Mode::Braille => (n as int + 3) / 4,
        },
{
}

} // verus!
