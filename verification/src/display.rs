//! Geometry of the display, and its pixels.

use vstd::prelude::*;

verus! {

/// Width in pixels.
pub const DISPLAY_WIDTH: u16 = 240;

/// Height in pixels.
pub const DISPLAY_HEIGHT: u16 = 320;

/// One pixel: where it stands, and its colour in 5, 6 and 5 bits.
#[derive(Clone, Copy, Debug, PartialEq, Eq, Structural)]
pub struct LinePixel {
    pub x: i32,
    pub y: i32,
    pub r: u8,
    pub g: u8,
    pub b: u8,
}

/// The pixel at `(x, y)` with the packed colour `raw`.
pub open spec fn pixel_at(x: int, y: int, raw: u16) -> LinePixel {
    LinePixel {
        x: x as i32,
        y: y as i32,
        r: (raw / 2048) as u8,
        g: (raw / 32 % 64) as u8,
        b: (raw % 32) as u8,
    }
}

/// The pixels of a rendered piece of line `line` that starts in column `start`.
pub fn process_line(line: usize, start: usize, raw: &[u16]) -> (r: Vec<LinePixel>)
    requires
        line <= i32::MAX,
        start + raw@.len() <= DISPLAY_WIDTH,
    ensures
        r@ == Seq::new(raw@.len(), |i: int| pixel_at(start + i, line as int, raw@[i])),
{
    let mut out: Vec<LinePixel> = Vec::new();
    let mut i: usize = 0;
    while i < raw.len()
        invariant
            i <= raw@.len(),
            line <= i32::MAX,
            start + raw@.len() <= DISPLAY_WIDTH,
            out@ == Seq::new(i as nat, |k: int| pixel_at(start + k, line as int, raw@[k])),
        decreases raw@.len() - i,
    {
        let p: u16 = raw[i];
        out.push(
            LinePixel {
                x: (start + i) as i32,
                y: line as i32,
                r: (p / 2048) as u8,
                g: (p / 32 % 64) as u8,
                b: (p % 32) as u8,
            },
        );
        i = i + 1;
        assert(out@ =~= Seq::new(i as nat, |k: int| pixel_at(start + k, line as int, raw@[k])));
    }
    out
}

/// The three parts of a colour make up the packed colour again.
pub proof fn law_colour_parts_are_lossless(x: int, y: int, raw: u16)
    ensures
        ({
            let p = pixel_at(x, y, raw);
            p.r * 2048 + p.g * 32 + p.b == raw && p.r < 32 && p.g < 64 && p.b < 32
        }),
{
}

/// A pixel stands where it was asked for.
pub proof fn law_pixel_stands_in_its_place(x: int, y: int, raw: u16)
    requires
        0 <= x < 240,
        0 <= y < 320,
    ensures
        pixel_at(x, y, raw).x == x,
        pixel_at(x, y, raw).y == y,
        pixel_at(x, y, raw).r == raw / 2048,
        pixel_at(x, y, raw).b == raw % 32,
{
}

} // verus!
