//! The characters that line drawing is shown with.

use vstd::prelude::*;

verus! {

/// The line styles towards the four neighbours of a cell, as the
/// two-bit numbers of the styles: 0 for no line, 1 for a single line,
/// 2 for a double line, 3 for a thick line.
#[derive(Clone, Copy, Debug, PartialEq, Eq, Structural)]
pub struct LineBits {
    pub north: u8,
    pub east: u8,
    pub south: u8,
    pub west: u8,
}

/// The two-bit number of a line style that the number `v` holds.
pub open spec fn style_of(v: u8) -> int {
    (v % 4) as int
}

/// The characters for single and thick lines. The place of a character
/// is made of the weights of its four arms, north first, then east,
/// south and west, each arm counting three times as much as the next:
/// 0 for no arm, 1 for a single one, 2 for a thick one.
pub open spec fn single_thick_chars() -> Seq<u32> {
    seq![
        0x0020, 0x2574, 0x2578, 0x2577, 0x2510, 0x2511, 0x257b, 0x2512, 0x2513,
        0x2576, 0x2500, 0x257e, 0x250c, 0x252c, 0x252d, 0x250e, 0x2530, 0x2531,
        0x257a, 0x257c, 0x2501, 0x250d, 0x252e, 0x252f, 0x250f, 0x2532, 0x2533,
        0x2575, 0x2518, 0x2519, 0x2502, 0x2524, 0x2525, 0x257d, 0x2527, 0x252a,
        0x2514, 0x2534, 0x2535, 0x251c, 0x253c, 0x253d, 0x251f, 0x2541, 0x2545,
        0x2515, 0x2536, 0x2537, 0x251d, 0x253e, 0x253f, 0x2522, 0x2546, 0x2548,
        0x2579, 0x251a, 0x251b, 0x257f, 0x2526, 0x2529, 0x2503, 0x2528, 0x252b,
        0x2516, 0x2538, 0x2539, 0x251e, 0x2540, 0x2543, 0x2520, 0x2542, 0x2549,
        0x2517, 0x253a, 0x253b, 0x2521, 0x2544, 0x2547, 0x2523, 0x254a, 0x254b,
    ]
}

/// The characters with double lines. The place of a character is
/// made of four flags for its arms, north, east, south and west, then
/// one for a double vertical axis and one for a double horizontal axis,
/// each flag counting twice as much as the next. All arms on a double
/// axis are double, all others single; an arm alone on a double axis
/// is shown as a line that goes through. Places without a double arm
/// hold a space.
pub open spec fn double_chars() -> Seq<u32> {
    seq![
        0x0020, 0x0020, 0x0020, 0x0020, 0x0020, 0x2550, 0x0020, 0x2550,
        0x0020, 0x0020, 0x2551, 0x2551, 0x0020, 0x2555, 0x2556, 0x2557,
        0x0020, 0x2550, 0x0020, 0x2550, 0x0020, 0x2550, 0x0020, 0x2550,
        0x0020, 0x2552, 0x2553, 0x2554, 0x0020, 0x2564, 0x2565, 0x2566,
        0x0020, 0x0020, 0x2551, 0x2551, 0x0020, 0x255b, 0x255c, 0x255d,
        0x0020, 0x0020, 0x2551, 0x2551, 0x0020, 0x2561, 0x2562, 0x2563,
        0x0020, 0x2558, 0x2559, 0x255a, 0x0020, 0x2567, 0x2568, 0x2569,
        0x0020, 0x255e, 0x255f, 0x2560, 0x0020, 0x256a, 0x256b, 0x256c,
    ]
}

/// The weight of a style among single and thick lines.
pub open spec fn weight(style: int) -> int {
    if style == 0 {
        0
    } else if style == 3 {
        2
    } else {
        1
    }
}

/// 1 if the condition holds, else 0.
pub open spec fn flag(b: bool) -> int {
    if b {
        1
    } else {
        0
    }
}

/// The character that shows lines of the styles `n`, `e`, `s` and `w`
/// towards the four neighbours of a cell, each style given as its
/// number. Single and thick lines combine in every way. Where a double
/// line meets another line, every line on the axis of a double line is
/// shown double and every other line single. No line is shown as a
/// space.
pub open spec fn glyph_of(n: int, e: int, s: int, w: int) -> u32 {
    if n == 2 || e == 2 || s == 2 || w == 2 {
        double_chars()[flag(n != 0) * 32 + flag(e != 0) * 16 + flag(s != 0) * 8 + flag(w != 0) * 4
            + flag(n == 2 || s == 2) * 2 + flag(e == 2 || w == 2)]
    } else {
        single_thick_chars()[weight(n) * 27 + weight(e) * 9 + weight(s) * 3 + weight(w)]
    }
}

/// The character that shows the line bits `bits`.
pub open spec fn line_glyph(bits: LineBits) -> u32 {
    glyph_of(style_of(bits.north), style_of(bits.east), style_of(bits.south), style_of(bits.west))
}

fn weight_of(style: u8) -> (r: usize)
    ensures
        r == weight(style as int),
        r <= 2,
{
    if style == 0 {
        0
    } else if style == 3 {
        2
    } else {
        1
    }
}

fn flag_of(b: bool) -> (r: usize)
    ensures
        r == flag(b),
{
    if b {
        1
    } else {
        0
    }
}

/// The character that shows the line bits `bits`.
pub fn line_char(bits: &LineBits) -> (cp: u32)
    ensures
        cp == line_glyph(*bits),
{
    let n = bits.north % 4;
    let e = bits.east % 4;
    let s = bits.south % 4;
    let w = bits.west % 4;
    if n == 2 || e == 2 || s == 2 || w == 2 {
        let chars: [u32; 64] = [
            0x0020, 0x0020, 0x0020, 0x0020, 0x0020, 0x2550, 0x0020, 0x2550,
            0x0020, 0x0020, 0x2551, 0x2551, 0x0020, 0x2555, 0x2556, 0x2557,
            0x0020, 0x2550, 0x0020, 0x2550, 0x0020, 0x2550, 0x0020, 0x2550,
            0x0020, 0x2552, 0x2553, 0x2554, 0x0020, 0x2564, 0x2565, 0x2566,
            0x0020, 0x0020, 0x2551, 0x2551, 0x0020, 0x255b, 0x255c, 0x255d,
            0x0020, 0x0020, 0x2551, 0x2551, 0x0020, 0x2561, 0x2562, 0x2563,
            0x0020, 0x2558, 0x2559, 0x255a, 0x0020, 0x2567, 0x2568, 0x2569,
            0x0020, 0x255e, 0x255f, 0x2560, 0x0020, 0x256a, 0x256b, 0x256c,
        ];
        assert(chars@ =~= double_chars());
        let i = flag_of(n != 0) * 32 + flag_of(e != 0) * 16 + flag_of(s != 0) * 8 + flag_of(w != 0)
            * 4 + flag_of(n == 2 || s == 2) * 2 + flag_of(e == 2 || w == 2);
        chars[i]
    } else {
        let chars: [u32; 81] = [
            0x0020, 0x2574, 0x2578, 0x2577, 0x2510, 0x2511, 0x257b, 0x2512, 0x2513,
            0x2576, 0x2500, 0x257e, 0x250c, 0x252c, 0x252d, 0x250e, 0x2530, 0x2531,
            0x257a, 0x257c, 0x2501, 0x250d, 0x252e, 0x252f, 0x250f, 0x2532, 0x2533,
            0x2575, 0x2518, 0x2519, 0x2502, 0x2524, 0x2525, 0x257d, 0x2527, 0x252a,
            0x2514, 0x2534, 0x2535, 0x251c, 0x253c, 0x253d, 0x251f, 0x2541, 0x2545,
            0x2515, 0x2536, 0x2537, 0x251d, 0x253e, 0x253f, 0x2522, 0x2546, 0x2548,
            0x2579, 0x251a, 0x251b, 0x257f, 0x2526, 0x2529, 0x2503, 0x2528, 0x252b,
            0x2516, 0x2538, 0x2539, 0x251e, 0x2540, 0x2543, 0x2520, 0x2542, 0x2549,
            0x2517, 0x253a, 0x253b, 0x2521, 0x2544, 0x2547, 0x2523, 0x254a, 0x254b,
        ];
        assert(chars@ =~= single_thick_chars());
        let i = weight_of(n) * 27 + weight_of(e) * 9 + weight_of(s) * 3 + weight_of(w);
        chars[i]
    }
}

} // verus!
