use vstd::prelude::*;

verus! {

/// Row `r` of the 4x5 glyph for the hexadecimal digit `d`, MSB-first: the
/// top four bits of the byte carry the four pixels of that glyph row.
///
/// These are the canonical glyph shapes; for instance digit 0 is a ring
/// (`F0 90 90 90 F0`) and digit 1 a vertical stroke with serifs
/// (`20 60 20 20 70`).
pub open spec fn spec_glyph_row(d: int, r: int) -> u8 {
    if d == 0 {
        if r == 0 { 0xF0 } else if r == 1 { 0x90 } else if r == 2 { 0x90 }
        else if r == 3 { 0x90 } else { 0xF0 }
    } else if d == 1 {
        if r == 0 { 0x20 } else if r == 1 { 0x60 } else if r == 2 { 0x20 }
        else if r == 3 { 0x20 } else { 0x70 }
    } else if d == 2 {
        if r == 0 { 0xF0 } else if r == 1 { 0x10 } else if r == 2 { 0xF0 }
        else if r == 3 { 0x80 } else { 0xF0 }
    } else if d == 3 {
        if r == 0 { 0xF0 } else if r == 1 { 0x10 } else if r == 2 { 0xF0 }
        else if r == 3 { 0x10 } else { 0xF0 }
    } else if d == 4 {
        if r == 0 { 0x90 } else if r == 1 { 0x90 } else if r == 2 { 0xF0 }
        else if r == 3 { 0x10 } else { 0x10 }
    } else if d == 5 {
        if r == 0 { 0xF0 } else if r == 1 { 0x80 } else if r == 2 { 0xF0 }
        else if r == 3 { 0x10 } else { 0xF0 }
    } else if d == 6 {
        if r == 0 { 0xF0 } else if r == 1 { 0x80 } else if r == 2 { 0xF0 }
        else if r == 3 { 0x90 } else { 0xF0 }
    } else if d == 7 {
        if r == 0 { 0xF0 } else if r == 1 { 0x10 } else if r == 2 { 0x20 }
        else if r == 3 { 0x40 } else { 0x40 }
    } else if d == 8 {
        if r == 0 { 0xF0 } else if r == 1 { 0x90 } else if r == 2 { 0xF0 }
        else if r == 3 { 0x90 } else { 0xF0 }
    } else if d == 9 {
        if r == 0 { 0xF0 } else if r == 1 { 0x90 } else if r == 2 { 0xF0 }
        else if r == 3 { 0x10 } else { 0xF0 }
    } else if d == 10 {
        if r == 0 { 0xF0 } else if r == 1 { 0x90 } else if r == 2 { 0xF0 }
        else if r == 3 { 0x90 } else { 0x90 }
    } else if d == 11 {
        if r == 0 { 0xE0 } else if r == 1 { 0x90 } else if r == 2 { 0xE0 }
        else if r == 3 { 0x90 } else { 0xE0 }
    } else if d == 12 {
        if r == 0 { 0xF0 } else if r == 1 { 0x80 } else if r == 2 { 0x80 }
        else if r == 3 { 0x80 } else { 0xF0 }
    } else if d == 13 {
        if r == 0 { 0xE0 } else if r == 1 { 0x90 } else if r == 2 { 0x90 }
        else if r == 3 { 0x90 } else { 0xE0 }
    } else if d == 14 {
        if r == 0 { 0xF0 } else if r == 1 { 0x80 } else if r == 2 { 0xF0 }
        else if r == 3 { 0x80 } else { 0xF0 }
    } else {
        if r == 0 { 0xF0 } else if r == 1 { 0x80 } else if r == 2 { 0xF0 }
        else if r == 3 { 0x80 } else { 0x80 }
    }
}

/// Byte `i` of the 80-byte font region: the glyphs stand back to back,
/// five bytes each, digit 0 first.
pub open spec fn spec_font_byte(i: int) -> u8 {
    spec_glyph_row(i / 5, i % 5)
}

/// Row `r` of the glyph for digit `d`, as executable code.
pub fn glyph_row(d: u8, r: u8) -> (b: u8)
    requires
        d < 16,
        r < 5,
    ensures
        b == spec_glyph_row(d as int, r as int),
{
    match d {
        0 => match r { 0 => 0xF0, 1 => 0x90, 2 => 0x90, 3 => 0x90, _ => 0xF0 },
        1 => match r { 0 => 0x20, 1 => 0x60, 2 => 0x20, 3 => 0x20, _ => 0x70 },
        2 => match r { 0 => 0xF0, 1 => 0x10, 2 => 0xF0, 3 => 0x80, _ => 0xF0 },
        3 => match r { 0 => 0xF0, 1 => 0x10, 2 => 0xF0, 3 => 0x10, _ => 0xF0 },
        4 => match r { 0 => 0x90, 1 => 0x90, 2 => 0xF0, 3 => 0x10, _ => 0x10 },
        5 => match r { 0 => 0xF0, 1 => 0x80, 2 => 0xF0, 3 => 0x10, _ => 0xF0 },
        6 => match r { 0 => 0xF0, 1 => 0x80, 2 => 0xF0, 3 => 0x90, _ => 0xF0 },
        7 => match r { 0 => 0xF0, 1 => 0x10, 2 => 0x20, 3 => 0x40, _ => 0x40 },
        8 => match r { 0 => 0xF0, 1 => 0x90, 2 => 0xF0, 3 => 0x90, _ => 0xF0 },
        9 => match r { 0 => 0xF0, 1 => 0x90, 2 => 0xF0, 3 => 0x10, _ => 0xF0 },
        10 => match r { 0 => 0xF0, 1 => 0x90, 2 => 0xF0, 3 => 0x90, _ => 0x90 },
        11 => match r { 0 => 0xE0, 1 => 0x90, 2 => 0xE0, 3 => 0x90, _ => 0xE0 },
        12 => match r { 0 => 0xF0, 1 => 0x80, 2 => 0x80, 3 => 0x80, _ => 0xF0 },
        13 => match r { 0 => 0xE0, 1 => 0x90, 2 => 0x90, 3 => 0x90, _ => 0xE0 },
        14 => match r { 0 => 0xF0, 1 => 0x80, 2 => 0xF0, 3 => 0x80, _ => 0xF0 },
        _ => match r { 0 => 0xF0, 1 => 0x80, 2 => 0xF0, 3 => 0x80, _ => 0x80 },
    }
}

} // verus!
