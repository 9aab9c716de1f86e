use vstd::prelude::*;
use crate::glyphs::{ascii_char, ascii_glyph, block_char, box_glyph, braille_char, braille_glyph};
use crate::raster::{is_dark, pixel_brightness, Image};

verus! {

/// How cells are drawn.
#[derive(Clone, Copy, Debug, PartialEq, Eq, Structural)]
pub enum Mode {
    /// One shading glyph per pixel.
    Ascii,
    /// One block element per 2x2 cell.
    Blocks,
    /// One braille pattern per 2x4 cell.
    Braille,
}

/// 1 where the pixel at (x, y) is darker than `t`, else 0.
pub open spec fn dark(img: Image, x: int, y: int, t: u8) -> int {
    if img.lum_at(x, y) < t {
        1
    } else {
        0
    }
}

/// Number of cell columns: one per pixel, or one per two pixels rounded up.
pub open spec fn cols(mode: Mode, img: Image) -> int {
    match mode {
        Mode::Ascii => img.width as int,
        _ => (img.width as int + 1) / 2,
    }
}

/// Number of cell rows: one per pixel, per two pixels or per four pixels,
/// rounded up.
pub open spec fn rows(mode: Mode, img: Image) -> int {
    match mode {
        Mode::Ascii => img.height as int,
        Mode::Blocks => (img.height as int + 1) / 2,
        Mode::Braille => (img.height as int + 3) / 4,
    }
}

/// The glyph of the cell at column `cx` and row `cy`.
pub open spec fn glyph_at(mode: Mode, img: Image, t: u8, cx: int, cy: int) -> char {
    match mode {
        Mode::Ascii => ascii_glyph(img.lum_at(cx, cy)),
        Mode::Blocks => {
            let (x, y) = (2 * cx, 2 * cy);
            box_glyph(dark(img, x, y, t), dark(img, x + 1, y, t), dark(img, x, y + 1, t), dark(img, x + 1, y + 1, t))
        },
        Mode::Braille => {
            let (x, y) = (2 * cx, 4 * cy);
            braille_glyph(
                dark(img, x, y, t),
                dark(img, x + 1, y, t),
                dark(img, x, y + 1, t),
                dark(img, x + 1, y + 1, t),
                dark(img, x, y + 2, t),
                dark(img, x + 1, y + 2, t),
                dark(img, x, y + 3, t),
                dark(img, x + 1, y + 3, t),
            )
        },
    }
}

/// A glyph as written: twice when doubled, else once.
pub open spec fn emit(c: char, double: bool) -> Seq<char> {
    if double {
        seq![c, c]
    } else {
        seq![c]
    }
}

/// The first `n` cells of row `cy`, as written.
pub open spec fn row_text(mode: Mode, img: Image, t: u8, double: bool, cy: int, n: nat) -> Seq<
    char,
>
    decreases n,
{
    if n == 0 {
        seq![]
    } else {
        row_text(mode, img, t, double, cy, (n - 1) as nat) + emit(
            glyph_at(mode, img, t, n - 1, cy),
            double,
        )
    }
}

/// The first `n` rows, each ended by a newline.
pub open spec fn lines(mode: Mode, img: Image, t: u8, double: bool, n: nat) -> Seq<char>
    decreases n,
{
    if n == 0 {
        seq![]
    } else {
        lines(mode, img, t, double, (n - 1) as nat) + row_text(
            mode,
            img,
            t,
            double,
            n - 1,
            cols(mode, img) as nat,
        ).push('\n')
    }
}

/// The whole text of an image.
pub open spec fn rendered(mode: Mode, img: Image, t: u8, double: bool) -> Seq<char> {
    lines(mode, img, t, double, rows(mode, img) as nat)
}

/// Relies on String::push: appends one character.
#[verifier::external_body]
fn push_char(s: &mut String, c: char)
    ensures
        final(s)@ == old(s)@.push(c),
{
    s.push(c);
}

/// Writes a glyph, twice when doubled.
fn emit_char(out: &mut String, c: char, double: bool)
    ensures
        final(out)@ == old(out)@ + emit(c, double),
{
    if double {
        push_char(out, c);
    }
    push_char(out, c);
    assert(final(out)@ =~= old(out)@ + emit(c, double));
}

/// Shading glyphs, one per pixel. The threshold plays no part here.
pub fn to_ascii(image: &Image, double: bool) -> (r: String)
    requires
        image.wf(),
    ensures
        forall|t: u8| r@ == #[trigger] rendered(Mode::Ascii, *image, t, double),
{
    let mut out = String::new();
    let mut y: u32 = 0;
    while y < image.height
        invariant
            image.wf(),
            y <= image.height,
            forall|t: u8| out@ == #[trigger] lines(Mode::Ascii, *image, t, double, y as nat),
        decreases image.height - y,
    {
        let mut x: u32 = 0;
        while x < image.width
            invariant
                image.wf(),
                y < image.height,
                x <= image.width,
                forall|t: u8|
                    out@ == #[trigger] lines(Mode::Ascii, *image, t, double, y as nat) + row_text(
                        Mode::Ascii,
                        *image,
                        t,
                        double,
                        y as int,
                        x as nat,
                    ),
            decreases image.width - x,
        {
            let brightness = pixel_brightness(image.get_pixel(x, y));
            let c = ascii_char(brightness);
            let ghost before = out@;
            emit_char(&mut out, c, double);
            assert forall|t: u8|
                out@ == #[trigger] lines(Mode::Ascii, *image, t, double, y as nat) + row_text(
                    Mode::Ascii,
                    *image,
                    t,
                    double,
                    y as int,
                    (x + 1) as nat,
                ) by {
                assert(image.lum_at(x as int, y as int) == brightness as int);
                assert(out@ =~= lines(Mode::Ascii, *image, t, double, y as nat) + row_text(
                    Mode::Ascii,
                    *image,
                    t,
                    double,
                    y as int,
                    (x + 1) as nat,
                ));
            }
            x += 1;
        }
        let ghost row = out@;
        push_char(&mut out, '\n');
        y += 1;
        assert forall|t: u8| out@ == #[trigger] lines(Mode::Ascii, *image, t, double, y as nat) by {
            assert(row == lines(Mode::Ascii, *image, t, double, (y - 1) as nat) + row_text(
                Mode::Ascii,
                *image,
                t,
                double,
                y - 1,
                cols(Mode::Ascii, *image) as nat,
            ));
            assert(out@ =~= lines(Mode::Ascii, *image, t, double, y as nat));
        }
    }
    out
}

/// Braille patterns, one per 2x4 cell; a pixel darker than `t` raises its dot.
pub fn to_braille(image: &Image, t: u8, double: bool) -> (r: String)
    requires
        image.wf(),
    ensures
        r@ == rendered(Mode::Braille, *image, t, double),
{
    let mut out = String::new();
    let ch: u32 = image.height / 4 + (if image.height % 4 != 0 { 1u32 } else { 0u32 });
    let cw: u32 = image.width / 2 + image.width % 2;
    assert(ch == rows(Mode::Braille, *image));
    assert(cw == cols(Mode::Braille, *image));
    let mut cy: u32 = 0;
    while cy < ch
        invariant
            image.wf(),
            cy <= ch,
            ch == rows(Mode::Braille, *image),
            cw == cols(Mode::Braille, *image),
            out@ == lines(Mode::Braille, *image, t, double, cy as nat),
        decreases ch - cy,
    {
        let mut cx: u32 = 0;
        while cx < cw
            invariant
                image.wf(),
                cy < ch,
                cx <= cw,
                ch == rows(Mode::Braille, *image),
                cw == cols(Mode::Braille, *image),
                out@ == lines(Mode::Braille, *image, t, double, cy as nat) + row_text(
                    Mode::Braille,
                    *image,
                    t,
                    double,
                    cy as int,
                    cx as nat,
                ),
            decreases cw - cx,
        {
            let x: u64 = cx as u64 * 2;
            let y: u64 = cy as u64 * 4;
            let c = braille_char(
                is_dark(image, x, y, t),
                is_dark(image, x + 1, y, t),
                is_dark(image, x, y + 1, t),
                is_dark(image, x + 1, y + 1, t),
                is_dark(image, x, y + 2, t),
                is_dark(image, x + 1, y + 2, t),
                is_dark(image, x, y + 3, t),
                is_dark(image, x + 1, y + 3, t),
            );
            emit_char(&mut out, c, double);
            cx += 1;
            assert(out@ =~= lines(Mode::Braille, *image, t, double, cy as nat) + row_text(
                Mode::Braille,
                *image,
                t,
                double,
                cy as int,
                cx as nat,
            ));
        }
        push_char(&mut out, '\n');
        cy += 1;
        assert(out@ =~= lines(Mode::Braille, *image, t, double, cy as nat));
    }
    out
}

/// Block elements, one per 2x2 cell; a pixel darker than `t` counts as dark.
pub fn to_blocks(image: &Image, t: u8, double: bool) -> (r: String)
    requires
        image.wf(),
    ensures
        r@ == rendered(Mode::Blocks, *image, t, double),
{
    let mut out = String::new();
    let ch: u32 = image.height / 2 + (if image.height % 2 != 0 { 1u32 } else { 0u32 });
    let cw: u32 = image.width / 2 + image.width % 2;
    assert(ch == rows(Mode::Blocks, *image));
    assert(cw == cols(Mode::Blocks, *image));
    let mut cy: u32 = 0;
    while cy < ch
        invariant
            image.wf(),
            cy <= ch,
            ch == rows(Mode::Blocks, *image),
            cw == cols(Mode::Blocks, *image),
            out@ == lines(Mode::Blocks, *image, t, double, cy as nat),
        decreases ch - cy,
    {
        let mut cx: u32 = 0;
        while cx < cw
            invariant
                image.wf(),
                cy < ch,
                cx <= cw,
                ch == rows(Mode::Blocks, *image),
                cw == cols(Mode::Blocks, *image),
                out@ == lines(Mode::Blocks, *image, t, double, cy as nat) + row_text(
                    Mode::Blocks,
                    *image,
                    t,
                    double,
                    cy as int,
                    cx as nat,
                ),
            decreases cw - cx,
        {
            let x: u64 = cx as u64 * 2;
            let y: u64 = cy as u64 * 2;
            let c = block_char(
                is_dark(image, x, y, t),
                is_dark(image, x + 1, y, t),
                is_dark(image, x, y + 1, t),
                is_dark(image, x + 1, y + 1, t),
            );
            emit_char(&mut out, c, double);
            cx += 1;
            assert(out@ =~= lines(Mode::Blocks, *image, t, double, cy as nat) + row_text(
                Mode::Blocks,
                *image,
                t,
                double,
                cy as int,
                cx as nat,
            ));
        }
        push_char(&mut out, '\n');
        cy += 1;
        assert(out@ =~= lines(Mode::Blocks, *image, t, double, cy as nat));
    }
    out
}

/// The drawing mode chosen by the braille and blocks switches; `None` when both
/// are set, since they exclude each other.
pub fn mode_from_flags(braille: bool, blocks: bool) -> (r: Option<Mode>)
    ensures
        r == (if braille && blocks {
            None::<Mode>
        } else if braille {
            Some(Mode::Braille)
        } else if blocks {
            Some(Mode::Blocks)
        } else {
            Some(Mode::Ascii)
        }),
{
    if braille && blocks {
        None
    } else if braille {
        Some(Mode::Braille)
    } else if blocks {
        Some(Mode::Blocks)
    } else {
        Some(Mode::Ascii)
    }
}

/// The text of an image in the given mode.
pub fn render(image: &Image, mode: Mode, t: u8, double: bool) -> (r: String)
    requires
        image.wf(),
    ensures
        r@ == rendered(mode, *image, t, double),
{
    match mode {
        Mode::Ascii => to_ascii(image, double),
        Mode::Blocks => to_blocks(image, t, double),
        Mode::Braille => to_braille(image, t, double),
    }
}

/// Every glyph of a row is written twice when doubled and once otherwise, in
/// the order of the cells.
pub proof fn lemma_double_width(mode: Mode, img: Image, t: u8, cy: int, n: nat)
    ensures
        row_text(mode, img, t, true, cy, n).len() == 2 * n,
        row_text(mode, img, t, false, cy, n).len() == n,
        forall|i: int|
            0 <= i < n ==> {
                let g = glyph_at(mode, img, t, i, cy);
                &&& #[trigger] row_text(mode, img, t, true, cy, n)[2 * i] == g
                &&& row_text(mode, img, t, true, cy, n)[2 * i + 1] == g
                &&& row_text(mode, img, t, false, cy, n)[i] == g
            },
    decreases n,
{
    if n > 0 {
        lemma_double_width(mode, img, t, cy, (n - 1) as nat);
        let m = (n - 1) as nat;
        assert forall|i: int| 0 <= i < n implies {
            let g = glyph_at(mode, img, t, i, cy);
            &&& #[trigger] row_text(mode, img, t, true, cy, n)[2 * i] == g
            &&& row_text(mode, img, t, true, cy, n)[2 * i + 1] == g
            &&& row_text(mode, img, t, false, cy, n)[i] == g
        } by {
            if i < m {
                assert(row_text(mode, img, t, true, cy, m)[2 * i] == glyph_at(mode, img, t, i, cy));
            }
        }
    }
}

/// A block cell whose four pixels are all dark shows the full glyph of the
/// table; one whose four pixels are all light shows a blank.
pub proof fn lemma_uniform_block(img: Image, t: u8, cx: int, cy: int)
    ensures
        ({
            let (x, y) = (2 * cx, 2 * cy);
            dark(img, x, y, t) == 1 && dark(img, x + 1, y, t) == 1 && dark(img, x, y + 1, t) == 1
                && dark(img, x + 1, y + 1, t) == 1
        }) ==> glyph_at(Mode::Blocks, img, t, cx, cy) == box_glyph(1, 1, 1, 1)
            && glyph_at(Mode::Blocks, img, t, cx, cy) == '▋',
        ({
            let (x, y) = (2 * cx, 2 * cy);
            dark(img, x, y, t) == 0 && dark(img, x + 1, y, t) == 0 && dark(img, x, y + 1, t) == 0
                && dark(img, x + 1, y + 1, t) == 0
        }) ==> glyph_at(Mode::Blocks, img, t, cx, cy) == ' ',
{
}

/// A braille cell whose eight pixels are all dark shows all eight dots; one
/// whose eight pixels are all light shows the empty pattern.
pub proof fn lemma_uniform_braille(img: Image, t: u8, cx: int, cy: int)
    ensures
        (forall|i: int, j: int|
            0 <= i < 2 && 0 <= j < 4 ==> #[trigger] dark(img, 2 * cx + i, 4 * cy + j, t) == 1)
            ==> glyph_at(Mode::Braille, img, t, cx, cy) == '⣿',
        (forall|i: int, j: int|
            0 <= i < 2 && 0 <= j < 4 ==> #[trigger] dark(img, 2 * cx + i, 4 * cy + j, t) == 0)
            ==> glyph_at(Mode::Braille, img, t, cx, cy) == '⠀',
{
    let (x, y) = (2 * cx, 4 * cy);
    assert(x == 2 * cx + 0 && y == 4 * cy + 0);
    assert(x + 1 == 2 * cx + 1 && y + 1 == 4 * cy + 1 && y + 2 == 4 * cy + 2 && y + 3 == 4 * cy
        + 3);
}

} // verus!
