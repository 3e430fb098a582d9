use slide_generator::canvas::{Canvas, HEIGHT, WIDTH};
use slide_generator::caption::caption;
use slide_generator::color::{black, blue, green, red, white, yellow, Color};
use slide_generator::rect::{RectRequest, MIN_SIDE};
use slide_generator::slide::{compose_slide, paint_rects, random_plan, render_background};
use slide_generator::text::{CoverageSample, GlyphMask};

fn count(canvas: &Canvas, color: Color) -> usize {
    let mut n = 0;
    for y in 0..HEIGHT {
        for x in 0..WIDTH {
            if canvas.get_pixel(x, y) == color {
                n += 1;
            }
        }
    }
    n
}

/// A solid block of coverage, standing in for a rasterized glyph.
fn block(x: i32, y: i32, width: u32, height: u32) -> GlyphMask {
    let mut samples = Vec::new();
    for gy in 0..height {
        for gx in 0..width {
            samples.push(CoverageSample { gx, gy, intensity: 1.0f32.to_bits() });
        }
    }
    GlyphMask { origin: Some((x, y)), samples }
}

#[test]
fn random_plans_are_valid() {
    let mut rng = rand::thread_rng();
    let mut seen_two = false;
    let mut seen_three = false;
    for _ in 0..3000 {
        let plan = random_plan(&mut rng);
        assert!((1..=10000).contains(&plan.frame));
        assert!(plan.rects.len() == 2 || plan.rects.len() == 3);
        seen_two = seen_two || plan.rects.len() == 2;
        seen_three = seen_three || plan.rects.len() == 3;
        for rect in &plan.rects {
            assert!(rect.x1 - rect.x0 >= MIN_SIDE);
            assert!(rect.y1 - rect.y0 >= MIN_SIDE);
            assert!(rect.x1 <= WIDTH && rect.y1 <= HEIGHT);
            let c = rect.color;
            assert!(c == red() || c == blue() || c == yellow() || c == green());
        }
    }
    assert!(seen_two && seen_three);
}

#[test]
fn two_random_plans_differ() {
    let mut rng = rand::thread_rng();
    let first = random_plan(&mut rng);
    let mut differs = false;
    for _ in 0..20 {
        let next = random_plan(&mut rng);
        differs = differs || next.frame != first.frame || next.rects != first.rects;
    }
    assert!(differs);
}

#[test]
fn random_slides_have_the_fixed_dimensions() {
    let mut rng = rand::thread_rng();
    for _ in 0..3 {
        let plan = random_plan(&mut rng);
        let canvas = compose_slide(&plan.rects, &vec![block(5, 490, 8, 12)]);
        assert_eq!(canvas.width(), 768);
        assert_eq!(canvas.height(), 512);
        assert_eq!(canvas.to_rgb_bytes().len(), 768 * 512 * 3);
    }
}

#[test]
fn paint_rects_paints_in_order() {
    let mut canvas = Canvas::new();
    let rects = vec![
        RectRequest { x0: 0, y0: 0, x1: 100, y1: 100, color: red() },
        RectRequest { x0: 50, y0: 50, x1: 150, y1: 150, color: blue() },
        RectRequest { x0: 90, y0: 0, x1: 140, y1: 60, color: yellow() },
    ];
    paint_rects(&mut canvas, &rects);
    assert_eq!(canvas.get_pixel(0, 0), red());
    assert_eq!(canvas.get_pixel(60, 60), blue());
    assert_eq!(canvas.get_pixel(95, 55), yellow());
    assert_eq!(canvas.get_pixel(95, 60), blue());
    assert_eq!(canvas.get_pixel(95, 10), yellow());
    assert_eq!(canvas.get_pixel(145, 10), white());
    assert_eq!(count(&canvas, red()), 100 * 100 - 50 * 50 - 10 * 50);
    assert_eq!(count(&canvas, blue()), 100 * 100 - 50 * 10);
    assert_eq!(count(&canvas, yellow()), 50 * 60);
}

#[test]
fn paint_rects_with_no_rects_changes_nothing() {
    let mut canvas = Canvas::new();
    paint_rects(&mut canvas, &Vec::new());
    assert_eq!(count(&canvas, white()), 768 * 512);
}

#[test]
fn background_blanks_the_strip_over_the_rects() {
    let rects = vec![
        RectRequest { x0: 0, y0: 400, x1: 300, y1: 512, color: red() },
        RectRequest { x0: 200, y0: 450, x1: 400, y1: 512, color: blue() },
    ];
    let canvas = render_background(&rects);
    assert_eq!(canvas.get_pixel(0, 482), red());
    assert_eq!(canvas.get_pixel(0, 483), white());
    assert_eq!(canvas.get_pixel(255, 511), white());
    assert_eq!(canvas.get_pixel(256, 511), blue());
    assert_eq!(canvas.get_pixel(199, 483), white());
    assert_eq!(canvas.get_pixel(299, 449), red());
    assert_eq!(canvas.get_pixel(399, 511), blue());
}

#[test]
fn forced_slide_has_two_solid_regions_and_a_caption() {
    let rects = vec![
        RectRequest { x0: 40, y0: 30, x1: 240, y1: 180, color: red() },
        RectRequest { x0: 400, y0: 200, x1: 700, y1: 460, color: blue() },
    ];
    let text = caption(42);
    assert_eq!(text, "aqua.flv - synthetic frame #42");
    // One block of coverage for each character that is not a space.
    let mut masks = Vec::new();
    let mut inked = 0;
    for (i, c) in text.chars().enumerate() {
        if c == ' ' {
            masks.push(GlyphMask { origin: None, samples: Vec::new() });
        } else {
            masks.push(block(5 + 8 * i as i32, 490, 6, 14));
            inked += 6 * 14;
        }
    }
    let canvas = compose_slide(&rects, &masks);
    assert_eq!(canvas.width(), 768);
    assert_eq!(canvas.height(), 512);
    assert_eq!(count(&canvas, red()), 200 * 150);
    assert_eq!(count(&canvas, blue()), 300 * 260);
    assert_eq!(count(&canvas, black()), inked);
    assert_eq!(count(&canvas, white()), 768 * 512 - 200 * 150 - 300 * 260 - inked);
    for y in 30..180 {
        for x in 40..240 {
            assert_eq!(canvas.get_pixel(x, y), red());
        }
    }
    for y in 200..460 {
        for x in 400..700 {
            assert_eq!(canvas.get_pixel(x, y), blue());
        }
    }
    // The caption sits in the bottom-left strip, black on white.
    for y in 483..512 {
        for x in 0..256 {
            let c = canvas.get_pixel(x, y);
            assert!(c == white() || c == black());
        }
    }
    assert_eq!(canvas.get_pixel(5, 490), black());
    assert_eq!(canvas.get_pixel(4, 490), white());
    assert_eq!(canvas.get_pixel(5, 489), white());
}

#[test]
fn caption_is_drawn_over_the_blanked_strip() {
    let rects = vec![
        RectRequest { x0: 0, y0: 300, x1: 768, y1: 512, color: blue() },
        RectRequest { x0: 0, y0: 300, x1: 768, y1: 512, color: red() },
    ];
    let half = GlyphMask {
        origin: Some((10, 500)),
        samples: vec![
            CoverageSample { gx: 0, gy: 0, intensity: 0.5f32.to_bits() },
            CoverageSample { gx: 300, gy: 0, intensity: 0.5f32.to_bits() },
        ],
    };
    let canvas = compose_slide(&rects, &vec![half]);
    assert_eq!(canvas.get_pixel(10, 500), Color { r: 127, g: 127, b: 127 });
    assert_eq!(canvas.get_pixel(310, 500), Color { r: 127, g: 0, b: 0 });
    assert_eq!(canvas.get_pixel(11, 500), white());
    assert_eq!(canvas.get_pixel(311, 500), red());
}
