//! Drawing rasterized glyphs onto the canvas.
//!
//! Laying out a caption and rasterizing its glyphs is the work of a font
//! engine. What it yields comes here as plain values: for each glyph the
//! corner of its pixel box on the canvas, if it has one, and the coverage of
//! the pixels inside that box.

use vstd::prelude::*;
use crate::canvas::Canvas;
use crate::canvas::HEIGHT;
use crate::canvas::LINE_HEIGHT;
use crate::color::Color;
use crate::coverage::blend;
use crate::coverage::coverage_from_bits;
use crate::coverage::coverage_of;
use crate::coverage::lemma_coverage_of_valid;
use crate::coverage::lemma_mixed_channel_between;
use crate::coverage::lemma_mixed_endpoints;
use crate::coverage::mixed;

verus! {

/// Column at which the caption starts.
pub const LEFT_MARGIN: u32 = 5;

/// Row at which the caption's line starts; its baseline lies below it by the
/// font's ascent.
pub const CAPTION_TOP: u32 = HEIGHT - LINE_HEIGHT;

/// Horizontal scale of the caption's glyphs in pixels. It is set apart from
/// the vertical scale, which is `LINE_HEIGHT`.
pub const GLYPH_WIDTH: u32 = 22;

/// The coverage of one pixel of a glyph: its column `gx` and row `gy` inside
/// the glyph's pixel box and, as a single precision bit pattern, how much of
/// it the glyph covers.
#[derive(Clone, Copy, Debug, PartialEq, Eq, Structural)]
pub struct CoverageSample {
    pub gx: u32,
    pub gy: u32,
    pub intensity: u32,
}

/// One laid-out glyph: the top-left corner of its pixel box on the canvas,
/// absent for a glyph without outline such as a space, and its samples.
#[derive(Clone, Debug)]
pub struct GlyphMask {
    pub origin: Option<(i32, i32)>,
    pub samples: Vec<CoverageSample>,
}

/// The canvas column that a sample falls on.
pub open spec fn target_x(origin: (i32, i32), sample: CoverageSample) -> int {
    origin.0 + sample.gx
}

/// The canvas row that a sample falls on.
pub open spec fn target_y(origin: (i32, i32), sample: CoverageSample) -> int {
    origin.1 + sample.gy
}

/// `rows` after one sample has been drawn: the pixel it falls on is blended
/// with `ink` at the sample's coverage level. A sample that falls outside
/// the grid changes nothing.
pub open spec fn with_sample(rows: Seq<Seq<Color>>, ink: Color, origin: (i32, i32), sample: CoverageSample) -> Seq<
    Seq<Color>,
> {
    let x = target_x(origin, sample);
    let y = target_y(origin, sample);
    if 0 <= y < rows.len() && 0 <= x < rows[y].len() {
        rows.update(y, rows[y].update(x, mixed(rows[y][x], ink, coverage_of(sample.intensity))))
    } else {
        rows
    }
}

/// `rows` after the samples have been drawn one after the other.
pub open spec fn with_samples(
    rows: Seq<Seq<Color>>,
    ink: Color,
    origin: (i32, i32),
    samples: Seq<CoverageSample>,
) -> Seq<Seq<Color>>
    decreases samples.len(),
{
    if samples.len() == 0 {
        rows
    } else {
        with_sample(with_samples(rows, ink, origin, samples.drop_last()), ink, origin, samples.last())
    }
}

/// `rows` after one glyph has been drawn. A glyph without pixel box is
/// skipped.
pub open spec fn with_glyph(rows: Seq<Seq<Color>>, ink: Color, mask: GlyphMask) -> Seq<Seq<Color>> {
    match mask.origin {
        Some(origin) => with_samples(rows, ink, origin, mask.samples@),
        None => rows,
    }
}

/// `rows` after the glyphs have been drawn one after the other.
pub open spec fn with_glyphs(rows: Seq<Seq<Color>>, ink: Color, masks: Seq<GlyphMask>) -> Seq<Seq<Color>>
    decreases masks.len(),
{
    if masks.len() == 0 {
        rows
    } else {
        with_glyph(with_glyphs(rows, ink, masks.drop_last()), ink, masks.last())
    }
}

/// Whether the channel `c` lies between the channels `a` and `b`.
pub open spec fn channel_between(c: u8, a: u8, b: u8) -> bool {
    a <= c <= b || b <= c <= a
}

/// Whether every channel of `c` lies between those of `a` and `b`.
pub open spec fn color_between(c: Color, a: Color, b: Color) -> bool {
    &&& channel_between(c.r, a.r, b.r)
    &&& channel_between(c.g, a.g, b.g)
    &&& channel_between(c.b, a.b, b.b)
}

/// Whether `after` may have come from `before` by drawing in `ink`: the two
/// grids have the same shape, and every pixel of `after` lies between what
/// it was in `before` and the ink.
pub open spec fn inked_over(after: Seq<Seq<Color>>, before: Seq<Seq<Color>>, ink: Color) -> bool {
    &&& after.len() == before.len()
    &&& forall|y: int| 0 <= y < before.len() ==> (#[trigger] after[y]).len() == before[y].len()
    &&& forall|y: int, x: int|
        0 <= y < before.len() && 0 <= x < before[y].len() ==> color_between(
            #[trigger] after[y][x],
            before[y][x],
            ink,
        )
}

proof fn lemma_sample_inked_over(rows: Seq<Seq<Color>>, ink: Color, origin: (i32, i32), sample: CoverageSample)
    ensures
        inked_over(with_sample(rows, ink, origin, sample), rows, ink),
{
    let x = target_x(origin, sample);
    let y = target_y(origin, sample);
    if 0 <= y < rows.len() && 0 <= x < rows[y].len() {
        let coverage = coverage_of(sample.intensity);
        let old_color = rows[y][x];
        lemma_coverage_of_valid(sample.intensity);
        lemma_mixed_channel_between(old_color.r, ink.r, coverage);
        lemma_mixed_channel_between(old_color.g, ink.g, coverage);
        lemma_mixed_channel_between(old_color.b, ink.b, coverage);
        assert(color_between(mixed(old_color, ink, coverage), old_color, ink));
    }
}

proof fn lemma_inked_over_twice(first: Seq<Seq<Color>>, second: Seq<Seq<Color>>, third: Seq<Seq<Color>>, ink: Color)
    requires
        inked_over(second, first, ink),
        inked_over(third, second, ink),
    ensures
        inked_over(third, first, ink),
{
    assert forall|y: int| 0 <= y < first.len() implies (#[trigger] third[y]).len() == first[y].len() by {
        assert(second[y].len() == first[y].len());
    }
    assert forall|y: int, x: int| 0 <= y < first.len() && 0 <= x < first[y].len() implies color_between(
        #[trigger] third[y][x],
        first[y][x],
        ink,
    ) by {
        assert(second[y].len() == first[y].len());
        assert(color_between(second[y][x], first[y][x], ink));
        assert(color_between(third[y][x], second[y][x], ink));
    }
}

proof fn lemma_samples_inked_over(
    rows: Seq<Seq<Color>>,
    ink: Color,
    origin: (i32, i32),
    samples: Seq<CoverageSample>,
)
    ensures
        inked_over(with_samples(rows, ink, origin, samples), rows, ink),
    decreases samples.len(),
{
    if samples.len() > 0 {
        let front = with_samples(rows, ink, origin, samples.drop_last());
        lemma_samples_inked_over(rows, ink, origin, samples.drop_last());
        lemma_sample_inked_over(front, ink, origin, samples.last());
        lemma_inked_over_twice(rows, front, with_sample(front, ink, origin, samples.last()), ink);
    }
}

/// Drawing text keeps the shape of the grid and moves every channel of every
/// pixel no further than to the ink: what comes out lies between what was
/// there and the ink colour.
pub proof fn lemma_text_inked_over(rows: Seq<Seq<Color>>, ink: Color, masks: Seq<GlyphMask>)
    ensures
        inked_over(with_glyphs(rows, ink, masks), rows, ink),
    decreases masks.len(),
{
    if masks.len() > 0 {
        let front = with_glyphs(rows, ink, masks.drop_last());
        lemma_text_inked_over(rows, ink, masks.drop_last());
        match masks.last().origin {
            Some(origin) => {
                lemma_samples_inked_over(front, ink, origin, masks.last().samples@);
            },
            None => {},
        }
        lemma_inked_over_twice(rows, front, with_glyph(front, ink, masks.last()), ink);
    }
}

/// A sample of intensity zero leaves the grid as it was. A sample of
/// intensity one that falls on the grid sets its pixel to the ink exactly and
/// leaves every other pixel as it was.
pub proof fn lemma_sample_endpoints(rows: Seq<Seq<Color>>, ink: Color, origin: (i32, i32), sample: CoverageSample)
    ensures
        coverage_of(sample.intensity).is_none() ==> with_sample(rows, ink, origin, sample) == rows,
        coverage_of(sample.intensity).is_full() && 0 <= target_y(origin, sample) < rows.len() && 0 <= target_x(
            origin,
            sample,
        ) < rows[target_y(origin, sample)].len() ==> with_sample(
            rows,
            ink,
            origin,
            sample,
        ) == rows.update(
            target_y(origin, sample),
            rows[target_y(origin, sample)].update(target_x(origin, sample), ink),
        ),
{
    let x = target_x(origin, sample);
    let y = target_y(origin, sample);
    if 0 <= y < rows.len() && 0 <= x < rows[y].len() {
        lemma_coverage_of_valid(sample.intensity);
        lemma_mixed_endpoints(rows[y][x], ink, coverage_of(sample.intensity));
        if coverage_of(sample.intensity).is_none() {
            assert(rows[y].update(x, rows[y][x]) =~= rows[y]);
            assert(rows.update(y, rows[y]) =~= rows);
        }
    }
}

/// Where a sample falls on a grid `width` wide and `height` high, or `None`
/// when it falls outside.
pub fn sample_target(origin: (i32, i32), sample: &CoverageSample, width: u32, height: u32) -> (target: Option<
    (u32, u32),
>)
    ensures
        target == if 0 <= target_x(origin, *sample) < width && 0 <= target_y(origin, *sample) < height {
            Some((target_x(origin, *sample) as u32, target_y(origin, *sample) as u32))
        } else {
            None
        },
{
    let x: i64 = origin.0 as i64 + sample.gx as i64;
    let y: i64 = origin.1 as i64 + sample.gy as i64;
    if 0 <= x && x < width as i64 && 0 <= y && y < height as i64 {
        Some((x as u32, y as u32))
    } else {
        None
    }
}

/// Draws one sample of a glyph whose pixel box has its corner at `origin`.
pub fn draw_sample(canvas: &mut Canvas, ink: Color, origin: (i32, i32), sample: &CoverageSample)
    requires
        old(canvas).well_formed(),
    ensures
        final(canvas).well_formed(),
        final(canvas)@ == with_sample(old(canvas)@, ink, origin, *sample),
{
    let width = canvas.width();
    let height = canvas.height();
    match sample_target(origin, sample, width, height) {
        Some((x, y)) => {
            let existing = canvas.get_pixel(x, y);
            let coverage = coverage_from_bits(sample.intensity);
            canvas.put_pixel(x, y, blend(existing, ink, coverage));
        },
        None => {},
    }
}

/// Draws one glyph in `ink`. A glyph without pixel box is skipped; samples
/// that fall outside the canvas are skipped.
pub fn draw_glyph(canvas: &mut Canvas, ink: Color, mask: &GlyphMask)
    requires
        old(canvas).well_formed(),
    ensures
        final(canvas).well_formed(),
        final(canvas)@ == with_glyph(old(canvas)@, ink, *mask),
{
    match mask.origin {
        Some(origin) => {
            let ghost before = canvas@;
            let mut i: usize = 0;
            while i < mask.samples.len()
                invariant
                    i <= mask.samples.len(),
                    canvas.well_formed(),
                    canvas@ == with_samples(before, ink, origin, mask.samples@.take(i as int)),
                decreases mask.samples.len() - i,
            {
                assert(mask.samples@.take(i + 1).drop_last() =~= mask.samples@.take(i as int));
                draw_sample(canvas, ink, origin, &mask.samples[i]);
                i = i + 1;
            }
            assert(mask.samples@.take(i as int) =~= mask.samples@);
        },
        None => {},
    }
}

/// Draws the glyphs of a laid-out text in `ink`, one after the other.
pub fn draw_text(canvas: &mut Canvas, ink: Color, masks: &Vec<GlyphMask>)
    requires
        old(canvas).well_formed(),
    ensures
        final(canvas).well_formed(),
        final(canvas)@ == with_glyphs(old(canvas)@, ink, masks@),
{
    let ghost before = canvas@;
    let mut i: usize = 0;
    while i < masks.len()
        invariant
            i <= masks.len(),
            canvas.well_formed(),
            canvas@ == with_glyphs(before, ink, masks@.take(i as int)),
        decreases masks.len() - i,
    {
        assert(masks@.take(i + 1).drop_last() =~= masks@.take(i as int));
        draw_glyph(canvas, ink, &masks[i]);
        i = i + 1;
    }
    assert(masks@.take(i as int) =~= masks@);
}

} // verus!
