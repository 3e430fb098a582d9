//! The slide canvas: a fixed-size pixel grid kept in an `image` buffer.

use vstd::prelude::*;
use image::Rgb;
use image::RgbImage;
use crate::color::Color;
use crate::color::white;
use crate::rect::RectRequest;

verus! {

/// Canvas width in pixels.
pub const WIDTH: u32 = 768;

/// Canvas height in pixels.
pub const HEIGHT: u32 = 512;

/// Width of the strip that is blanked for the caption.
pub const STRIP_WIDTH: u32 = 256;

/// Line height of the caption in pixels.
pub const LINE_HEIGHT: u32 = 30;

/// A pixel grid with its origin at the top left, backed by an
/// `image::RgbImage`. Verus does not look inside; what the buffer holds is
/// named by [`canvas_rows`].
#[verifier::external_body]
pub struct Canvas {
    image: RgbImage,
}

/// The rows of a canvas from top to bottom, each row from left to right.
pub uninterp spec fn canvas_rows(canvas: Canvas) -> Seq<Seq<Color>>;

/// `ImageBuffer::from_pixel`: a `width` by `height` buffer in which every
/// pixel is `color`. The buffer must fit a vector.
#[verifier::external_body]
fn raw_from_pixel(width: u32, height: u32, color: Color) -> (canvas: Canvas)
    requires
        3 * width * height <= isize::MAX,
    ensures
        canvas_rows(canvas) == Seq::new(height as nat, |y: int| Seq::new(width as nat, |x: int| color)),
{
    Canvas { image: RgbImage::from_pixel(width, height, Rgb([color.r, color.g, color.b])) }
}

/// `ImageBuffer::width`: the common length of all rows.
#[verifier::external_body]
fn raw_width(canvas: &Canvas) -> (width: u32)
    ensures
        forall|y: int| 0 <= y < canvas_rows(*canvas).len() ==> (#[trigger] canvas_rows(*canvas)[y]).len() == width,
{
    canvas.image.width()
}

/// `ImageBuffer::height`: the number of rows.
#[verifier::external_body]
fn raw_height(canvas: &Canvas) -> (height: u32)
    ensures
        canvas_rows(*canvas).len() == height,
{
    canvas.image.height()
}

/// `ImageBuffer::get_pixel`: the pixel in column `x` of row `y`, which must
/// lie inside the buffer.
#[verifier::external_body]
fn raw_get_pixel(canvas: &Canvas, x: u32, y: u32) -> (color: Color)
    requires
        y < canvas_rows(*canvas).len(),
        x < canvas_rows(*canvas)[y as int].len(),
    ensures
        color == canvas_rows(*canvas)[y as int][x as int],
{
    let Rgb([r, g, b]) = *canvas.image.get_pixel(x, y);
    Color { r, g, b }
}

/// `ImageBuffer::put_pixel`: overwrites the pixel in column `x` of row `y`,
/// which must lie inside the buffer, and leaves every other pixel as it was.
#[verifier::external_body]
fn raw_put_pixel(canvas: &mut Canvas, x: u32, y: u32, color: Color)
    requires
        y < canvas_rows(*old(canvas)).len(),
        x < canvas_rows(*old(canvas))[y as int].len(),
    ensures
        canvas_rows(*final(canvas)) == canvas_rows(*old(canvas)).update(
            y as int,
            canvas_rows(*old(canvas))[y as int].update(x as int, color),
        ),
{
    canvas.image.put_pixel(x, y, Rgb([color.r, color.g, color.b]));
}

/// The rows of a fresh canvas: all white, in the fixed slide dimensions.
pub open spec fn blank_rows() -> Seq<Seq<Color>> {
    Seq::new(HEIGHT as nat, |y: int| Seq::new(WIDTH as nat, |x: int| white()))
}

/// Whether `rows` has exactly the fixed slide dimensions.
pub open spec fn is_slide_grid(rows: Seq<Seq<Color>>) -> bool {
    &&& rows.len() == HEIGHT
    &&& forall|y: int| 0 <= y < HEIGHT ==> (#[trigger] rows[y]).len() == WIDTH
}

/// `rows` after every pixel with `x0 <= x < x1` and `y0 <= y < y1` has been
/// overwritten with `color`.
pub open spec fn filled(rows: Seq<Seq<Color>>, x0: int, y0: int, x1: int, y1: int, color: Color) -> Seq<
    Seq<Color>,
> {
    Seq::new(
        rows.len(),
        |y: int|
            Seq::new(
                rows[y].len(),
                |x: int|
                    if x0 <= x < x1 && y0 <= y < y1 {
                        color
                    } else {
                        rows[y][x]
                    },
            ),
    )
}

/// `rows` after `rect` has been painted over them.
pub open spec fn with_rect(rows: Seq<Seq<Color>>, rect: RectRequest) -> Seq<Seq<Color>> {
    filled(rows, rect.x0 as int, rect.y0 as int, rect.x1 as int, rect.y1 as int, rect.color)
}

/// Whether the pixel in column `x` of row `y` belongs to the caption strip:
/// the leftmost `STRIP_WIDTH` columns of the rows below `HEIGHT - LINE_HEIGHT`.
pub open spec fn in_caption_strip(x: int, y: int) -> bool {
    0 <= x < STRIP_WIDTH && HEIGHT - LINE_HEIGHT < y < HEIGHT
}

/// `rows` after the caption strip has been blanked.
pub open spec fn with_blank_strip(rows: Seq<Seq<Color>>) -> Seq<Seq<Color>> {
    filled(rows, 0, HEIGHT - LINE_HEIGHT + 1, STRIP_WIDTH as int, HEIGHT as int, white())
}

/// The channels of a row of pixels, three bytes for each pixel.
pub open spec fn row_bytes(row: Seq<Color>) -> Seq<u8>
    decreases row.len(),
{
    if row.len() == 0 {
        Seq::empty()
    } else {
        row_bytes(row.drop_last()) + seq![row.last().r, row.last().g, row.last().b]
    }
}

/// The channels of all pixels, row after row.
pub open spec fn grid_bytes(rows: Seq<Seq<Color>>) -> Seq<u8>
    decreases rows.len(),
{
    if rows.len() == 0 {
        Seq::empty()
    } else {
        grid_bytes(rows.drop_last()) + row_bytes(rows.last())
    }
}

/// Blanking the caption strip a second time changes nothing.
pub proof fn lemma_blank_strip_idempotent(rows: Seq<Seq<Color>>)
    ensures
        with_blank_strip(with_blank_strip(rows)) == with_blank_strip(rows),
{
    assert(with_blank_strip(with_blank_strip(rows)) =~~= with_blank_strip(rows));
}

/// Filling keeps the shape of the grid, gives every pixel of the region the
/// fill colour and leaves every other pixel as it was.
pub proof fn lemma_filled_pixels(rows: Seq<Seq<Color>>, x0: int, y0: int, x1: int, y1: int, color: Color)
    ensures
        filled(rows, x0, y0, x1, y1, color).len() == rows.len(),
        forall|y: int|
            0 <= y < rows.len() ==> (#[trigger] filled(rows, x0, y0, x1, y1, color)[y]).len() == rows[y].len(),
        forall|y: int, x: int|
            0 <= y < rows.len() && 0 <= x < rows[y].len() ==> #[trigger] filled(rows, x0, y0, x1, y1, color)[y][x]
                == if x0 <= x < x1 && y0 <= y < y1 {
                color
            } else {
                rows[y][x]
            },
{
}

/// A row of `n` pixels gives `3 * n` bytes, three for each pixel in order.
proof fn lemma_row_bytes_layout(row: Seq<Color>)
    ensures
        row_bytes(row).len() == 3 * row.len(),
        forall|x: int|
            0 <= x < row.len() ==> {
                &&& row_bytes(row)[3 * x] == (#[trigger] row[x]).r
                &&& row_bytes(row)[3 * x + 1] == row[x].g
                &&& row_bytes(row)[3 * x + 2] == row[x].b
            },
    decreases row.len(),
{
    if row.len() > 0 {
        let front = row.drop_last();
        lemma_row_bytes_layout(front);
        assert forall|x: int| 0 <= x < row.len() implies {
            &&& row_bytes(row)[3 * x] == (#[trigger] row[x]).r
            &&& row_bytes(row)[3 * x + 1] == row[x].g
            &&& row_bytes(row)[3 * x + 2] == row[x].b
        } by {
            if x < front.len() {
                assert(front[x] == row[x]);
            }
        }
    }
}

/// Rows of the slide width give `3 * WIDTH` bytes each, one row after the
/// other.
proof fn lemma_grid_bytes_layout(rows: Seq<Seq<Color>>)
    requires
        forall|y: int| 0 <= y < rows.len() ==> (#[trigger] rows[y]).len() == WIDTH,
    ensures
        grid_bytes(rows).len() == 3 * WIDTH * rows.len(),
        forall|y: int, x: int|
            0 <= y < rows.len() && 0 <= x < WIDTH ==> {
                &&& grid_bytes(rows)[3 * (y * WIDTH + x)] == (#[trigger] rows[y][x]).r
                &&& grid_bytes(rows)[3 * (y * WIDTH + x) + 1] == rows[y][x].g
                &&& grid_bytes(rows)[3 * (y * WIDTH + x) + 2] == rows[y][x].b
            },
    decreases rows.len(),
{
    if rows.len() > 0 {
        let front = rows.drop_last();
        assert forall|y: int| 0 <= y < front.len() implies (#[trigger] front[y]).len() == WIDTH by {
            assert(front[y] == rows[y]);
        }
        lemma_grid_bytes_layout(front);
        lemma_row_bytes_layout(rows.last());
        assert forall|y: int, x: int| 0 <= y < rows.len() && 0 <= x < WIDTH implies {
            &&& grid_bytes(rows)[3 * (y * WIDTH + x)] == (#[trigger] rows[y][x]).r
            &&& grid_bytes(rows)[3 * (y * WIDTH + x) + 1] == rows[y][x].g
            &&& grid_bytes(rows)[3 * (y * WIDTH + x) + 2] == rows[y][x].b
        } by {
            if y < front.len() {
                assert(front[y] == rows[y]);
                assert(front[y][x] == rows[y][x]);
            } else {
                assert(rows.last()[x] == rows[y][x]);
            }
        }
    }
}

/// The bytes of a slide: three for each pixel, and the pixel in column `x`
/// of row `y` at offset `3 * (y * WIDTH + x)`, red before green before blue.
pub proof fn lemma_rgb_bytes_layout(rows: Seq<Seq<Color>>)
    requires
        is_slide_grid(rows),
    ensures
        grid_bytes(rows).len() == 3 * WIDTH * HEIGHT,
        forall|y: int, x: int|
            0 <= y < HEIGHT && 0 <= x < WIDTH ==> {
                &&& grid_bytes(rows)[3 * (y * WIDTH + x)] == (#[trigger] rows[y][x]).r
                &&& grid_bytes(rows)[3 * (y * WIDTH + x) + 1] == rows[y][x].g
                &&& grid_bytes(rows)[3 * (y * WIDTH + x) + 2] == rows[y][x].b
            },
{
    lemma_grid_bytes_layout(rows);
}

impl View for Canvas {
    type V = Seq<Seq<Color>>;

    closed spec fn view(&self) -> Seq<Seq<Color>> {
        canvas_rows(*self)
    }
}

impl Canvas {
    /// The canvas has exactly the fixed slide dimensions.
    pub open spec fn well_formed(&self) -> bool {
        is_slide_grid(self@)
    }

    /// The pixel in column `x` of row `y`.
    pub open spec fn pixel(&self, x: int, y: int) -> Color {
        self@[y][x]
    }

    /// A white canvas of the fixed slide dimensions.
    pub fn new() -> (canvas: Canvas)
        ensures
            canvas.well_formed(),
            canvas@ == blank_rows(),
    {
        raw_from_pixel(WIDTH, HEIGHT, white())
    }

    /// The width of the canvas in pixels.
    pub fn width(&self) -> (w: u32)
        requires
            self.well_formed(),
        ensures
            w == WIDTH,
    {
        let w = raw_width(self);
        assert(self@[0].len() == w);
        w
    }

    /// The height of the canvas in pixels.
    pub fn height(&self) -> (h: u32)
        requires
            self.well_formed(),
        ensures
            h == HEIGHT,
    {
        raw_height(self)
    }

    /// The pixel in column `x` of row `y`.
    pub fn get_pixel(&self, x: u32, y: u32) -> (color: Color)
        requires
            self.well_formed(),
            x < WIDTH,
            y < HEIGHT,
        ensures
            color == self@[y as int][x as int],
    {
        raw_get_pixel(self, x, y)
    }

    /// Overwrites the pixel in column `x` of row `y`.
    pub fn put_pixel(&mut self, x: u32, y: u32, color: Color)
        requires
            old(self).well_formed(),
            x < WIDTH,
            y < HEIGHT,
        ensures
            final(self).well_formed(),
            final(self)@ == old(self)@.update(y as int, old(self)@[y as int].update(x as int, color)),
    {
        raw_put_pixel(self, x, y, color);
    }

    /// Overwrites every pixel with `x0 <= x < x1` and `y0 <= y < y1`.
    fn fill_region(&mut self, x0: u32, y0: u32, x1: u32, y1: u32, color: Color)
        requires
            old(self).well_formed(),
            x0 <= x1 <= WIDTH,
            y0 <= y1 <= HEIGHT,
        ensures
            final(self).well_formed(),
            final(self)@ == filled(old(self)@, x0 as int, y0 as int, x1 as int, y1 as int, color),
    {
        let ghost before = self@;
        let mut x = x0;
        while x < x1
            invariant
                x0 <= x <= x1 <= WIDTH,
                y0 <= y1 <= HEIGHT,
                self.well_formed(),
                forall|px: int, py: int|
                    0 <= px < WIDTH && 0 <= py < HEIGHT ==> #[trigger] self@[py][px] == if x0 <= px < x && y0 <= py
                        < y1 {
                        color
                    } else {
                        before[py][px]
                    },
            decreases x1 - x,
        {
            let mut y = y0;
            while y < y1
                invariant
                    x0 <= x < x1 <= WIDTH,
                    y0 <= y <= y1 <= HEIGHT,
                    self.well_formed(),
                    forall|px: int, py: int|
                        0 <= px < WIDTH && 0 <= py < HEIGHT ==> #[trigger] self@[py][px] == if (x0 <= px < x && y0
                            <= py < y1) || (px == x && y0 <= py < y) {
                            color
                        } else {
                            before[py][px]
                        },
                decreases y1 - y,
            {
                self.put_pixel(x, y, color);
                y = y + 1;
            }
            x = x + 1;
        }
        assert(self@ =~~= filled(before, x0 as int, y0 as int, x1 as int, y1 as int, color));
    }

    /// Paints `rect`, overwriting what was there.
    pub fn fill_rect(&mut self, rect: &RectRequest)
        requires
            old(self).well_formed(),
            rect.valid(),
        ensures
            final(self).well_formed(),
            final(self)@ == with_rect(old(self)@, *rect),
    {
        self.fill_region(rect.x0, rect.y0, rect.x1, rect.y1, rect.color);
    }

    /// Blanks the caption strip to white and leaves the rest as it was.
    pub fn blank_caption_strip(&mut self)
        requires
            old(self).well_formed(),
        ensures
            final(self).well_formed(),
            final(self)@ == with_blank_strip(old(self)@),
    {
        self.fill_region(0, HEIGHT - LINE_HEIGHT + 1, STRIP_WIDTH, HEIGHT, white());
    }

    /// The channels of all pixels as bytes, row after row from the top, each
    /// row from the left, red before green before blue.
    pub fn to_rgb_bytes(&self) -> (bytes: Vec<u8>)
        requires
            self.well_formed(),
        ensures
            bytes@ == grid_bytes(self@),
            bytes@.len() == 3 * WIDTH * HEIGHT,
    {
        proof {
            lemma_rgb_bytes_layout(self@);
        }
        let mut bytes: Vec<u8> = Vec::new();
        let mut y: u32 = 0;
        while y < HEIGHT
            invariant
                y <= HEIGHT,
                self.well_formed(),
                bytes@ == grid_bytes(self@.take(y as int)),
            decreases HEIGHT - y,
        {
            let ghost done = bytes@;
            let mut x: u32 = 0;
            while x < WIDTH
                invariant
                    x <= WIDTH,
                    y < HEIGHT,
                    self.well_formed(),
                    bytes@ == done + row_bytes(self@[y as int].take(x as int)),
                decreases WIDTH - x,
            {
                let color = self.get_pixel(x, y);
                bytes.push(color.r);
                bytes.push(color.g);
                bytes.push(color.b);
                proof {
                    let row = self@[y as int];
                    assert(row.take(x + 1).drop_last() =~= row.take(x as int));
                    assert(row.take(x + 1).last() == color);
                    assert(bytes@ =~= done + row_bytes(row.take(x + 1)));
                }
                x = x + 1;
            }
            proof {
                assert(self@[y as int].take(x as int) =~= self@[y as int]);
                assert(self@.take(y + 1).drop_last() =~= self@.take(y as int));
                assert(self@.take(y + 1).last() == self@[y as int]);
            }
            y = y + 1;
        }
        assert(self@.take(y as int) =~= self@);
        bytes
    }
}

} // verus!
