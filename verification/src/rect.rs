//! Rectangle draw requests.

use vstd::prelude::*;
use rand::rngs::ThreadRng;
use crate::canvas::HEIGHT;
use crate::canvas::WIDTH;
use crate::color::extended_palette;
use crate::color::is_palette_color;
use crate::color::palette;
use crate::color::palette_size;
use crate::color::Color;
use crate::random::chance;
use crate::random::pick;
use crate::random::uniform;

verus! {

/// Least width and height of a rectangle.
pub const MIN_SIDE: u32 = 50;

/// A rectangle is the third with odds of one in this many.
pub const THIRD_RECT_ODDS: u32 = 20;

/// Each palette widening occurs with odds of one in this many.
pub const WIDENING_ODDS: u32 = 1000;

/// A request to fill the pixels with `x0 <= x < x1` and `y0 <= y < y1`.
#[derive(Clone, Copy, Debug, PartialEq, Eq, Structural)]
pub struct RectRequest {
    pub x0: u32,
    pub y0: u32,
    pub x1: u32,
    pub y1: u32,
    pub color: Color,
}

impl RectRequest {
    /// At least `MIN_SIDE` wide and high, and entirely on the canvas.
    pub open spec fn valid(&self) -> bool {
        &&& self.x0 + MIN_SIDE <= self.x1 <= WIDTH
        &&& self.y0 + MIN_SIDE <= self.y1 <= HEIGHT
    }

    /// Whether the request fills the pixel in column `x` of row `y`.
    pub open spec fn covers(&self, x: int, y: int) -> bool {
        self.x0 <= x < self.x1 && self.y0 <= y < self.y1
    }

    /// Tests whether the request is valid.
    pub fn is_valid(&self) -> (ok: bool)
        ensures
            ok == self.valid(),
    {
        self.x1 <= WIDTH && self.y1 <= HEIGHT && self.x1 >= MIN_SIDE && self.y1 >= MIN_SIDE && self.x0 <= self.x1
            - MIN_SIDE && self.y0 <= self.y1 - MIN_SIDE
    }

    /// The request whose top-left corner is `(x0, y0)` and whose sides are
    /// `width` and `height` long.
    pub fn from_draws(x0: u32, y0: u32, width: u32, height: u32, color: Color) -> (rect: RectRequest)
        requires
            x0 < WIDTH - MIN_SIDE,
            y0 < HEIGHT - MIN_SIDE,
            MIN_SIDE <= width <= WIDTH - x0,
            MIN_SIDE <= height <= HEIGHT - y0,
        ensures
            rect == (RectRequest { x0, y0, x1: (x0 + width) as u32, y1: (y0 + height) as u32, color }),
            rect.valid(),
    {
        RectRequest { x0, y0, x1: x0 + width, y1: y0 + height, color }
    }
}

/// How many rectangles a slide gets: two, and a third when the draw for it
/// came up.
pub fn rect_count(include_third: bool) -> (count: usize)
    ensures
        count == if include_third { 3int } else { 2int },
{
    if include_third {
        3
    } else {
        2
    }
}

/// Draws the number of rectangles: three with odds of one in
/// `THIRD_RECT_ODDS`, else two.
pub fn random_rect_count(rng: &mut ThreadRng) -> (count: usize)
    ensures
        count == 2 || count == 3,
{
    let include_third = chance(rng, 1, THIRD_RECT_ODDS);
    rect_count(include_third)
}

/// Draws the size of the palette slice for one rectangle. The two widenings
/// are drawn one after the other, the second whatever the first gave.
pub fn random_palette_size(rng: &mut ThreadRng) -> (size: usize)
    ensures
        2 <= size <= 4,
{
    let widen_first = chance(rng, 1, WIDENING_ODDS);
    let widen_second = chance(rng, 1, WIDENING_ODDS);
    palette_size(widen_first, widen_second)
}

/// Draws a colour from the first `size` palette entries.
pub fn random_color(rng: &mut ThreadRng, size: usize) -> (color: Color)
    requires
        1 <= size <= 4,
    ensures
        exists|i: int| 0 <= i < size && color == palette()[i],
{
    let choices = extended_palette(size);
    let color = pick(rng, &choices).unwrap();
    proof {
        let i = choose|i: int| 0 <= i < choices@.len() && choices@[i] == color;
        assert(color == palette()[i]);
    }
    color
}

/// Draws one rectangle: its colour from a palette slice of random size, its
/// top-left corner anywhere that leaves room for the least sides, and its
/// sides anywhere between the least and what the canvas allows.
pub fn random_rect(rng: &mut ThreadRng) -> (rect: RectRequest)
    ensures
        rect.valid(),
        rect.x0 < WIDTH - MIN_SIDE,
        rect.y0 < HEIGHT - MIN_SIDE,
        is_palette_color(rect.color),
{
    let size = random_palette_size(rng);
    let color = random_color(rng, size);
    let x0 = uniform(rng, 0, WIDTH - MIN_SIDE - 1);
    let y0 = uniform(rng, 0, HEIGHT - MIN_SIDE - 1);
    let width = uniform(rng, MIN_SIDE, WIDTH - x0);
    let height = uniform(rng, MIN_SIDE, HEIGHT - y0);
    RectRequest::from_draws(x0, y0, width, height, color)
}

} // verus!
