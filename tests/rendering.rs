use img2text::codec::{convert, fit, ConvertError};
use img2text::glyphs::ascii_char;
use img2text::raster::{is_dark, pixel_brightness, Image};
use img2text::render::{mode_from_flags, render, to_ascii, to_blocks, to_braille, Mode};

fn solid(width: u32, height: u32, rgba: [u8; 4]) -> Image {
    let mut data = Vec::new();
    for _ in 0..width * height {
        data.extend_from_slice(&rgba);
    }
    Image::from_rgba(width, height, data).unwrap()
}

const WHITE: [u8; 4] = [255, 255, 255, 255];
const BLACK: [u8; 4] = [0, 0, 0, 255];

fn png_bytes(width: u32, height: u32) -> Vec<u8> {
    let img = image::RgbaImage::from_pixel(width, height, image::Rgba(BLACK));
    let mut out = std::io::Cursor::new(Vec::new());
    image::DynamicImage::ImageRgba8(img)
        .write_to(&mut out, image::ImageOutputFormat::Png)
        .unwrap();
    out.into_inner()
}

#[test]
fn white_pixel_is_blank_in_ascii() {
    assert_eq!(to_ascii(&solid(1, 1, WHITE), false), " \n");
}

#[test]
fn black_pixel_is_densest_in_ascii() {
    assert_eq!(to_ascii(&solid(1, 1, BLACK), false), "@\n");
}

#[test]
fn red_luminance() {
    assert_eq!(pixel_brightness([255, 0, 0, 255]), 76);
    assert_eq!(pixel_brightness([0, 255, 0, 255]), 149);
    assert_eq!(pixel_brightness([0, 0, 255, 255]), 29);
    assert_eq!(pixel_brightness(WHITE), 255);
    assert_eq!(pixel_brightness([255, 255, 255, 0]), 255);
}

#[test]
fn ascii_ramp_levels() {
    let expected = ['@', '#', 'O', '/', '-', ',', '.', ' '];
    for level in 0..8u8 {
        assert_eq!(ascii_char(level * 32), expected[level as usize]);
        assert_eq!(ascii_char(level * 32 + 31), expected[level as usize]);
    }
}

#[test]
fn ascii_rows_and_columns() {
    let img = Image::from_rgba(2, 2, vec![0, 0, 0, 255, 255, 255, 255, 255, 128, 128, 128, 255, 64, 64, 64, 255]).unwrap();
    assert_eq!(to_ascii(&img, false), "@ \n-O\n");
}

#[test]
fn full_block_cells() {
    assert_eq!(to_blocks(&solid(2, 2, BLACK), 96, false), "▋\n");
    assert_eq!(to_blocks(&solid(2, 2, WHITE), 96, false), " \n");
}

#[test]
fn full_braille_cells() {
    assert_eq!(to_braille(&solid(2, 4, BLACK), 96, false), "⣿\n");
    assert_eq!(to_braille(&solid(2, 4, WHITE), 96, false), "⠀\n");
}

#[test]
fn edge_cells_read_as_light() {
    assert_eq!(to_blocks(&solid(1, 1, BLACK), 96, false), "▝\n");
    assert_eq!(to_braille(&solid(1, 1, BLACK), 96, false), "⠁\n");
    assert_eq!(to_blocks(&solid(3, 3, BLACK), 96, false), "▋▌\n▀▝\n");
    let img = solid(1, 1, BLACK);
    assert_eq!(is_dark(&img, 0, 0, 255), 1);
    assert_eq!(is_dark(&img, 1, 0, 255), 0);
    assert_eq!(is_dark(&img, 0, 7, 255), 0);
}

#[test]
fn braille_dot_positions() {
    let mut data = vec![255u8; 2 * 4 * 4];
    for (x, y) in [(1usize, 0usize), (0, 1), (1, 3)] {
        let i = 4 * (y * 2 + x);
        data[i..i + 3].copy_from_slice(&[0, 0, 0]);
    }
    let img = Image::from_rgba(2, 4, data).unwrap();
    assert_eq!(to_braille(&img, 96, false), "\u{288A}\n");
}

#[test]
fn block_quarter_positions() {
    let mut data = vec![255u8; 2 * 2 * 4];
    data[12..15].copy_from_slice(&[0, 0, 0]);
    let img = Image::from_rgba(2, 2, data).unwrap();
    assert_eq!(to_blocks(&img, 96, false), "▗\n");
}

#[test]
fn threshold_decides_darkness() {
    let gray = solid(1, 1, [100, 100, 100, 255]);
    assert_eq!(is_dark(&gray, 0, 0, 96), 0);
    assert_eq!(is_dark(&gray, 0, 0, 100), 0);
    assert_eq!(is_dark(&gray, 0, 0, 101), 1);
    assert_eq!(to_blocks(&solid(2, 2, [100, 100, 100, 255]), 101, false), "▋\n");
    assert_eq!(is_dark(&solid(1, 1, WHITE), 0, 0, 255), 0);
}

#[test]
fn double_width_writes_each_glyph_twice() {
    let img = Image::from_rgba(2, 1, vec![0, 0, 0, 255, 255, 255, 255, 255]).unwrap();
    assert_eq!(to_ascii(&img, true), "@@  \n");
    assert_eq!(to_ascii(&img, false), "@ \n");
    assert_eq!(to_blocks(&solid(4, 2, BLACK), 96, true), "▋▋▋▋\n");
    assert_eq!(to_braille(&solid(2, 8, BLACK), 96, true), "⣿⣿\n⣿⣿\n");
}

#[test]
fn render_dispatches_on_mode() {
    let img = solid(2, 4, BLACK);
    assert_eq!(render(&img, Mode::Ascii, 96, false), "@@\n@@\n@@\n@@\n");
    assert_eq!(render(&img, Mode::Blocks, 96, false), "▋\n▋\n");
    assert_eq!(render(&img, Mode::Braille, 96, false), "⣿\n");
}

#[test]
fn empty_image_renders_nothing() {
    let img = Image::from_rgba(0, 0, Vec::new()).unwrap();
    assert_eq!(to_ascii(&img, false), "");
    assert_eq!(to_blocks(&img, 96, false), "");
    assert_eq!(to_braille(&img, 96, false), "");
}

#[test]
fn from_rgba_checks_length() {
    assert!(Image::from_rgba(2, 2, vec![0; 15]).is_none());
    assert!(Image::from_rgba(2, 2, vec![0; 17]).is_none());
    let img = Image::from_rgba(2, 2, vec![7; 16]).unwrap();
    assert_eq!(img.get_pixel(1, 1), [7, 7, 7, 7]);
}

#[test]
fn braille_and_blocks_exclude_each_other() {
    assert_eq!(mode_from_flags(true, true), None);
    assert_eq!(mode_from_flags(true, false), Some(Mode::Braille));
    assert_eq!(mode_from_flags(false, true), Some(Mode::Blocks));
    assert_eq!(mode_from_flags(false, false), Some(Mode::Ascii));
}

#[test]
fn fit_scales_longer_side_to_limit() {
    let wide = fit(solid(8, 4, BLACK), Some(4));
    assert_eq!((wide.width, wide.height), (4, 2));
    assert_eq!(wide.data.len(), 4 * 4 * 2);
    let tall = fit(solid(3, 9, BLACK), Some(6));
    assert_eq!((tall.width, tall.height), (2, 6));
    let grown = fit(solid(2, 1, BLACK), Some(6));
    assert_eq!((grown.width, grown.height), (6, 3));
}

#[test]
fn fit_leaves_image_without_positive_limit() {
    let same = fit(solid(8, 4, BLACK), None);
    assert_eq!((same.width, same.height), (8, 4));
    let zero = fit(solid(8, 4, BLACK), Some(0));
    assert_eq!((zero.width, zero.height), (8, 4));
}

#[test]
fn convert_decodes_scales_and_renders() {
    let bytes = png_bytes(8, 4);
    let text = match convert(&bytes, Some(4), Mode::Ascii, 96, false) {
        Ok(text) => text,
        Err(_) => panic!("a PNG should decode"),
    };
    assert_eq!(text, "@@@@\n@@@@\n");
    let text = match convert(&bytes, None, Mode::Braille, 96, false) {
        Ok(text) => text,
        Err(_) => panic!("a PNG should decode"),
    };
    assert_eq!(text, "⣿⣿⣿⣿\n");
}

#[test]
fn convert_rejects_bytes_that_are_no_image() {
    assert!(matches!(
        convert(b"plain text", None, Mode::Ascii, 96, false),
        Err(ConvertError::Decode(_))
    ));
}
