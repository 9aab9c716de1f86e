use vstd::prelude::*;

verus! {

/// The shading ramp, from sparse to dense.
pub open spec fn ramp(i: int) -> char {
    if i == 0 {
        ' '
    } else if i == 1 {
        '.'
    } else if i == 2 {
        ','
    } else if i == 3 {
        '-'
    } else if i == 4 {
        '/'
    } else if i == 5 {
        'O'
    } else if i == 6 {
        '#'
    } else {
        '@'
    }
}

/// The shading glyph of a luminance: bright pixels are sparse, dark ones dense.
pub open spec fn ascii_glyph(lum: int) -> char {
    ramp(7 - lum / 32)
}

/// The block element for a 2x2 cell, by darkness of its top-left, top-right,
/// bottom-left and bottom-right quarter, as the braille crate tabulates it.
/// That table shows a lone top-left quarter as the top-right one, and a full
/// cell as the left five-eighths block.
pub open spec fn box_glyph(tl: int, tr: int, bl: int, br: int) -> char {
    let k = 8 * tl + 4 * tr + 2 * bl + br;
    if k == 0 {
        ' '
    } else if k == 1 {
        '▗'
    } else if k == 2 {
        '▖'
    } else if k == 3 {
        '▄'
    } else if k == 4 {
        '▝'
    } else if k == 5 {
        '▐'
    } else if k == 6 {
        '▞'
    } else if k == 7 {
        '▟'
    } else if k == 8 {
        '▝'
    } else if k == 9 {
        '▚'
    } else if k == 10 {
        '▌'
    } else if k == 11 {
        '▙'
    } else if k == 12 {
        '▀'
    } else if k == 13 {
        '▜'
    } else if k == 14 {
        '▛'
    } else {
        '▋'
    }
}

/// The braille pattern for a 2x4 cell: each dark position raises one dot.
/// Arguments go row by row, left before right.
pub open spec fn braille_glyph(
    a: int,
    b: int,
    c: int,
    d: int,
    e: int,
    f: int,
    g: int,
    h: int,
) -> char {
    (0x2800 + a + 2 * c + 4 * e + 8 * b + 16 * d + 32 * f + 64 * g + 128 * h) as char
}

/// The shading glyph of a luminance.
pub fn ascii_char(lum: u8) -> (r: char)
    ensures
        r == ascii_glyph(lum as int),
{
    let level: u8 = lum / 32;
    match level {
        7 => ' ',
        6 => '.',
        5 => ',',
        4 => '-',
        3 => '/',
        2 => 'O',
        1 => '#',
        _ => '@',
    }
}

/// Relies on braille::BOX, the block element table indexed by the darkness
/// (0 or 1) of the top-left, top-right, bottom-left and bottom-right quarter.
#[verifier::external_body]
pub(crate) fn block_char(tl: usize, tr: usize, bl: usize, br: usize) -> (r: char)
    requires
        tl < 2,
        tr < 2,
        bl < 2,
        br < 2,
    ensures
        r == box_glyph(tl as int, tr as int, bl as int, br as int),
{
    braille::BOX[tl][tr][bl][br]
}

/// Relies on braille::BRAILLE, the braille pattern table indexed by the
/// darkness (0 or 1) of the eight dots of a 2x4 cell, row by row, left first.
#[verifier::external_body]
pub(crate) fn braille_char(
    a: usize,
    b: usize,
    c: usize,
    d: usize,
    e: usize,
    f: usize,
    g: usize,
    h: usize,
) -> (r: char)
    requires
        a < 2,
        b < 2,
        c < 2,
        d < 2,
        e < 2,
        f < 2,
        g < 2,
        h < 2,
    ensures
        r == braille_glyph(a as int, b as int, c as int, d as int, e as int, f as int, g as int, h as int),
{
    braille::BRAILLE[a][b][c][d][e][f][g][h]
}

} // verus!
