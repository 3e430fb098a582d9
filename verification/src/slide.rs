//! Planning and composing a slide.
//!
//! A slide is planned by random draws and then composed from the plan alone:
//! the rectangles are painted in order over a white canvas, the caption strip
//! is blanked, and the caption's glyphs are drawn in black.

use vstd::prelude::*;
use rand::rngs::ThreadRng;
use crate::canvas::blank_rows;
use crate::canvas::in_caption_strip;
use crate::canvas::is_slide_grid;
use crate::canvas::with_blank_strip;
use crate::canvas::with_rect;
use crate::canvas::Canvas;
use crate::canvas::HEIGHT;
use crate::canvas::WIDTH;
use crate::caption::random_frame_number;
use crate::caption::FIRST_FRAME;
use crate::caption::LAST_FRAME;
use crate::color::black;
use crate::color::is_palette_color;
use crate::color::white;
use crate::color::Color;
use crate::rect::random_rect;
use crate::rect::random_rect_count;
use crate::rect::RectRequest;
use crate::text::draw_text;
use crate::text::lemma_text_inked_over;
use crate::text::with_glyphs;
use crate::text::GlyphMask;

verus! {

/// What the random draws for one slide came to.
#[derive(Clone, Debug)]
pub struct SlidePlan {
    /// The frame number that the caption names.
    pub frame: u32,
    /// The rectangles, in the order in which they are painted.
    pub rects: Vec<RectRequest>,
}

/// Whether every request of `rects` is valid.
pub open spec fn all_valid(rects: Seq<RectRequest>) -> bool {
    forall|i: int| 0 <= i < rects.len() ==> (#[trigger] rects[i]).valid()
}

impl SlidePlan {
    /// The plan of a slide as the draws can give it: a frame number in
    /// range, and two or three valid rectangles in palette colours.
    pub open spec fn valid(&self) -> bool {
        &&& FIRST_FRAME <= self.frame <= LAST_FRAME
        &&& 2 <= self.rects@.len() <= 3
        &&& all_valid(self.rects@)
        &&& forall|i: int| 0 <= i < self.rects@.len() ==> is_palette_color((#[trigger] self.rects@[i]).color)
    }
}

/// `rows` after the rectangles have been painted one after the other.
pub open spec fn with_rects(rows: Seq<Seq<Color>>, rects: Seq<RectRequest>) -> Seq<Seq<Color>>
    decreases rects.len(),
{
    if rects.len() == 0 {
        rows
    } else {
        with_rect(with_rects(rows, rects.drop_last()), rects.last())
    }
}

/// A slide before its caption is drawn: the rectangles over white, and the
/// caption strip blanked.
pub open spec fn background(rects: Seq<RectRequest>) -> Seq<Seq<Color>> {
    with_blank_strip(with_rects(blank_rows(), rects))
}

/// A whole slide: its background with the caption's glyphs in black.
pub open spec fn slide(rects: Seq<RectRequest>, masks: Seq<GlyphMask>) -> Seq<Seq<Color>> {
    with_glyphs(background(rects), black(), masks)
}

/// Painting rectangles keeps the shape of the grid. A pixel that no rectangle
/// covers stays as it was; any other pixel has the colour of the last
/// rectangle that covers it.
pub proof fn lemma_last_rect_wins(rows: Seq<Seq<Color>>, rects: Seq<RectRequest>)
    ensures
        with_rects(rows, rects).len() == rows.len(),
        forall|y: int| 0 <= y < rows.len() ==> (#[trigger] with_rects(rows, rects)[y]).len() == rows[y].len(),
        forall|y: int, x: int|
            0 <= y < rows.len() && 0 <= x < rows[y].len() && (forall|i: int|
                0 <= i < rects.len() ==> !(#[trigger] rects[i]).covers(x, y)) ==> #[trigger] with_rects(
                rows,
                rects,
            )[y][x] == rows[y][x],
        forall|y: int, x: int, i: int|
            0 <= y < rows.len() && 0 <= x < rows[y].len() && 0 <= i < rects.len() && rects[i].covers(x, y) && (
            forall|j: int| i < j < rects.len() ==> !(#[trigger] rects[j]).covers(x, y)) ==> #[trigger] with_rects(
                rows,
                rects,
            )[y][x] == (#[trigger] rects[i]).color,
    decreases rects.len(),
{
    if rects.len() > 0 {
        let front = rects.drop_last();
        let last = rects.last();
        let under = with_rects(rows, front);
        let over = with_rects(rows, rects);
        lemma_last_rect_wins(rows, front);
        assert forall|y: int, x: int|
            0 <= y < rows.len() && 0 <= x < rows[y].len() && (forall|i: int|
                0 <= i < rects.len() ==> !(#[trigger] rects[i]).covers(x, y)) implies #[trigger] over[y][x]
            == rows[y][x] by {
            assert(!last.covers(x, y));
            assert forall|i: int| 0 <= i < front.len() implies !(#[trigger] front[i]).covers(x, y) by {
                assert(front[i] == rects[i]);
            }
            assert(under[y][x] == rows[y][x]);
        }
        assert forall|y: int, x: int, i: int|
            0 <= y < rows.len() && 0 <= x < rows[y].len() && 0 <= i < rects.len() && rects[i].covers(x, y) && (
            forall|j: int| i < j < rects.len() ==> !(#[trigger] rects[j]).covers(x, y)) implies #[trigger] over[y][x]
            == (#[trigger] rects[i]).color by {
            if i == rects.len() - 1 {
                assert(over[y][x] == last.color);
            } else {
                assert(!last.covers(x, y));
                assert(front[i] == rects[i]);
                assert forall|j: int| i < j < front.len() implies !(#[trigger] front[j]).covers(x, y) by {
                    assert(front[j] == rects[j]);
                }
                assert(under[y][x] == front[i].color);
            }
        }
    }
}

/// On a slide's background every pixel of the caption strip is white,
/// whatever the rectangles cover, and every other pixel is as the rectangles
/// left it.
pub proof fn lemma_caption_strip_is_white(rects: Seq<RectRequest>)
    ensures
        is_slide_grid(background(rects)),
        forall|y: int, x: int|
            0 <= y < HEIGHT && 0 <= x < WIDTH ==> #[trigger] background(rects)[y][x] == if in_caption_strip(x, y) {
                white()
            } else {
                with_rects(blank_rows(), rects)[y][x]
            },
{
    lemma_last_rect_wins(blank_rows(), rects);
}

/// Before the caption is drawn, every pixel of a slide is white or has the
/// colour of one of its rectangles.
pub proof fn lemma_background_colors(rects: Seq<RectRequest>)
    ensures
        forall|y: int, x: int|
            0 <= y < HEIGHT && 0 <= x < WIDTH ==> {
                ||| #[trigger] background(rects)[y][x] == white()
                ||| exists|i: int| 0 <= i < rects.len() && background(rects)[y][x] == (#[trigger] rects[i]).color
            },
{
    lemma_caption_strip_is_white(rects);
    lemma_last_rect_wins(blank_rows(), rects);
    assert forall|y: int, x: int| 0 <= y < HEIGHT && 0 <= x < WIDTH implies {
        ||| #[trigger] background(rects)[y][x] == white()
        ||| exists|i: int| 0 <= i < rects.len() && background(rects)[y][x] == (#[trigger] rects[i]).color
    } by {
        if !in_caption_strip(x, y) {
            lemma_painted_color(blank_rows(), rects, x, y);
        }
    }
}

/// A painted pixel is as it was or has the colour of one of the rectangles.
proof fn lemma_painted_color(rows: Seq<Seq<Color>>, rects: Seq<RectRequest>, x: int, y: int)
    requires
        0 <= y < rows.len(),
        0 <= x < rows[y].len(),
    ensures
        with_rects(rows, rects)[y][x] == rows[y][x] || exists|i: int|
            0 <= i < rects.len() && with_rects(rows, rects)[y][x] == (#[trigger] rects[i]).color,
    decreases rects.len(),
{
    if rects.len() > 0 {
        let front = rects.drop_last();
        lemma_last_rect_wins(rows, front);
        lemma_painted_color(rows, front, x, y);
        if rects.last().covers(x, y) {
            assert(with_rects(rows, rects)[y][x] == rects[rects.len() - 1].color);
        } else if with_rects(rows, front)[y][x] != rows[y][x] {
            let i = choose|i: int| 0 <= i < front.len() && with_rects(rows, front)[y][x] == (#[trigger] front[i]).color;
            assert(front[i] == rects[i]);
        }
    }
}

/// Every slide has exactly the fixed dimensions, whatever was painted and
/// drawn on it.
pub proof fn lemma_slide_dimensions(rects: Seq<RectRequest>, masks: Seq<GlyphMask>)
    ensures
        is_slide_grid(slide(rects, masks)),
{
    lemma_caption_strip_is_white(rects);
    lemma_text_inked_over(background(rects), black(), masks);
}

/// Draws the plan of a slide: first the frame number, then the number of
/// rectangles, then the rectangles one by one.
pub fn random_plan(rng: &mut ThreadRng) -> (plan: SlidePlan)
    ensures
        plan.valid(),
{
    let frame = random_frame_number(rng);
    let count = random_rect_count(rng);
    let mut rects: Vec<RectRequest> = Vec::new();
    while rects.len() < count
        invariant
            rects@.len() <= count,
            all_valid(rects@),
            forall|i: int| 0 <= i < rects@.len() ==> is_palette_color((#[trigger] rects@[i]).color),
        decreases count - rects@.len(),
    {
        let rect = random_rect(rng);
        rects.push(rect);
    }
    SlidePlan { frame, rects }
}

/// Paints the rectangles in order, each over what is there.
pub fn paint_rects(canvas: &mut Canvas, rects: &Vec<RectRequest>)
    requires
        old(canvas).well_formed(),
        all_valid(rects@),
    ensures
        final(canvas).well_formed(),
        final(canvas)@ == with_rects(old(canvas)@, rects@),
{
    let ghost before = canvas@;
    let mut i: usize = 0;
    while i < rects.len()
        invariant
            i <= rects.len(),
            all_valid(rects@),
            canvas.well_formed(),
            canvas@ == with_rects(before, rects@.take(i as int)),
        decreases rects.len() - i,
    {
        assert(rects@.take(i + 1).drop_last() =~= rects@.take(i as int));
        canvas.fill_rect(&rects[i]);
        i = i + 1;
    }
    assert(rects@.take(i as int) =~= rects@);
}

/// Composes a slide without its caption: a white canvas, the rectangles, and
/// the blanked caption strip.
pub fn render_background(rects: &Vec<RectRequest>) -> (canvas: Canvas)
    requires
        all_valid(rects@),
    ensures
        canvas.well_formed(),
        canvas@ == background(rects@),
{
    let mut canvas = Canvas::new();
    paint_rects(&mut canvas, rects);
    canvas.blank_caption_strip();
    canvas
}

/// Composes a whole slide from its rectangles and the glyphs of its caption.
pub fn compose_slide(rects: &Vec<RectRequest>, masks: &Vec<GlyphMask>) -> (canvas: Canvas)
    requires
        all_valid(rects@),
    ensures
        canvas.well_formed(),
        canvas@ == slide(rects@, masks@),
{
    let mut canvas = render_background(rects);
    draw_text(&mut canvas, black(), masks);
    canvas
}

} // verus!
