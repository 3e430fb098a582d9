//! Colours and the fixed rectangle palette.

use vstd::prelude::*;

verus! {

/// An RGB triple of 8-bit channels.
#[derive(Clone, Copy, Debug, PartialEq, Eq, Structural)]
pub struct Color {
    pub r: u8,
    pub g: u8,
    pub b: u8,
}

/// First palette entry.
#[verifier::allow_in_spec]
pub fn red() -> Color
    returns
        (Color { r: 0xFF, g: 0x00, b: 0x00 }),
{
    Color { r: 0xFF, g: 0x00, b: 0x00 }
}

/// Second palette entry.
#[verifier::allow_in_spec]
pub fn blue() -> Color
    returns
        (Color { r: 0x00, g: 0x00, b: 0xFF }),
{
    Color { r: 0x00, g: 0x00, b: 0xFF }
}

/// Third palette entry; only reachable after one widening.
#[verifier::allow_in_spec]
pub fn yellow() -> Color
    returns
        (Color { r: 0xFF, g: 0xFF, b: 0x00 }),
{
    Color { r: 0xFF, g: 0xFF, b: 0x00 }
}

/// Fourth palette entry; only reachable after two widenings.
#[verifier::allow_in_spec]
pub fn green() -> Color
    returns
        (Color { r: 0x00, g: 0xFF, b: 0x00 }),
{
    Color { r: 0x00, g: 0xFF, b: 0x00 }
}

/// Background of a fresh canvas and of the caption strip.
#[verifier::allow_in_spec]
pub fn white() -> Color
    returns
        (Color { r: 0xFF, g: 0xFF, b: 0xFF }),
{
    Color { r: 0xFF, g: 0xFF, b: 0xFF }
}

/// Caption ink.
#[verifier::allow_in_spec]
pub fn black() -> Color
    returns
        (Color { r: 0x00, g: 0x00, b: 0x00 }),
{
    Color { r: 0x00, g: 0x00, b: 0x00 }
}

/// Number of palette entries that every rectangle may use.
pub const BASE_PALETTE_LEN: usize = 2;

/// Number of entries of the whole palette.
pub const FULL_PALETTE_LEN: usize = 4;

/// The palette in its declared order.
pub open spec fn palette() -> Seq<Color> {
    seq![red(), blue(), yellow(), green()]
}

/// Whether `c` is one of the four palette colours.
pub open spec fn is_palette_color(c: Color) -> bool {
    c == red() || c == blue() || c == yellow() || c == green()
}

/// How many leading palette entries a rectangle may choose from: the base
/// two, and one more for each widening that occurred.
pub open spec fn widened_len(widen_first: bool, widen_second: bool) -> nat {
    (BASE_PALETTE_LEN + (if widen_first { 1nat } else { 0nat }) + (if widen_second { 1nat } else { 0nat })) as nat
}

/// The `index`-th palette colour.
pub fn palette_color(index: usize) -> (c: Color)
    requires
        index < FULL_PALETTE_LEN,
    ensures
        c == palette()[index as int],
{
    if index == 0 {
        red()
    } else if index == 1 {
        blue()
    } else if index == 2 {
        yellow()
    } else {
        green()
    }
}

/// Size of the palette slice after two widening draws. The draws count
/// separately: each one that came up adds one entry.
pub fn palette_size(widen_first: bool, widen_second: bool) -> (n: usize)
    ensures
        n == widened_len(widen_first, widen_second),
        BASE_PALETTE_LEN <= n <= FULL_PALETTE_LEN,
{
    let mut n: usize = BASE_PALETTE_LEN;
    if widen_first {
        n = n + 1;
    }
    if widen_second {
        n = n + 1;
    }
    n
}

/// The first `size` palette entries, in declared order.
pub fn extended_palette(size: usize) -> (choices: Vec<Color>)
    requires
        size <= FULL_PALETTE_LEN,
    ensures
        choices@ == palette().take(size as int),
{
    let mut choices: Vec<Color> = Vec::new();
    let mut i: usize = 0;
    while i < size
        invariant
            i <= size <= FULL_PALETTE_LEN,
            choices@ == palette().take(i as int),
        decreases size - i,
    {
        choices.push(palette_color(i));
        i = i + 1;
    }
    choices
}

} // verus!
