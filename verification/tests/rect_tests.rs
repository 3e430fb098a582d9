use slide_generator::canvas::{HEIGHT, WIDTH};
use slide_generator::color::{blue, green, red, yellow};
use slide_generator::rect::{
    random_color, random_palette_size, random_rect, random_rect_count, rect_count, RectRequest,
    MIN_SIDE,
};

#[test]
fn from_draws_adds_the_sides_to_the_corner() {
    let rect = RectRequest::from_draws(10, 20, 50, 60, red());
    assert_eq!(rect, RectRequest { x0: 10, y0: 20, x1: 60, y1: 80, color: red() });
}

#[test]
fn from_draws_reaches_the_canvas_edges() {
    let rect = RectRequest::from_draws(717, 461, 51, 51, blue());
    assert_eq!(rect, RectRequest { x0: 717, y0: 461, x1: WIDTH, y1: HEIGHT, color: blue() });
    let whole = RectRequest::from_draws(0, 0, WIDTH, HEIGHT, blue());
    assert_eq!(whole, RectRequest { x0: 0, y0: 0, x1: 768, y1: 512, color: blue() });
}

#[test]
fn rect_count_is_two_or_three() {
    assert_eq!(rect_count(false), 2);
    assert_eq!(rect_count(true), 3);
}

#[test]
fn random_rects_are_large_enough_and_on_the_canvas() {
    let mut rng = rand::thread_rng();
    for _ in 0..20000 {
        let rect = random_rect(&mut rng);
        assert!(rect.x1 >= rect.x0 + MIN_SIDE);
        assert!(rect.y1 >= rect.y0 + MIN_SIDE);
        assert!(rect.x1 <= WIDTH);
        assert!(rect.y1 <= HEIGHT);
        assert!(rect.x0 < WIDTH - MIN_SIDE);
        assert!(rect.y0 < HEIGHT - MIN_SIDE);
        let c = rect.color;
        assert!(c == red() || c == blue() || c == yellow() || c == green());
    }
}

#[test]
fn random_rects_vary() {
    let mut rng = rand::thread_rng();
    let first = random_rect(&mut rng);
    let mut differs = false;
    let mut wider_than_least = false;
    let mut off_origin = false;
    for _ in 0..200 {
        let rect = random_rect(&mut rng);
        differs = differs || rect != first;
        wider_than_least = wider_than_least || rect.x1 - rect.x0 > MIN_SIDE;
        off_origin = off_origin || rect.x0 > 0;
    }
    assert!(differs);
    assert!(wider_than_least);
    assert!(off_origin);
}

#[test]
fn third_rect_comes_about_once_in_twenty() {
    let mut rng = rand::thread_rng();
    let trials = 40000;
    let mut threes = 0;
    for _ in 0..trials {
        let count = random_rect_count(&mut rng);
        assert!(count == 2 || count == 3);
        if count == 3 {
            threes += 1;
        }
    }
    // Expected 2000; the bounds are more than ten standard deviations away.
    assert!(threes > 1500, "only {} of {} slides had three rectangles", threes, trials);
    assert!(threes < 2500, "{} of {} slides had three rectangles", threes, trials);
}

#[test]
fn palette_widens_by_two_separate_rare_draws() {
    let mut rng = rand::thread_rng();
    let trials = 400000;
    let mut twos = 0;
    let mut threes = 0;
    let mut fours = 0;
    for _ in 0..trials {
        match random_palette_size(&mut rng) {
            2 => twos += 1,
            3 => threes += 1,
            4 => fours += 1,
            other => panic!("palette size {}", other),
        }
    }
    // Two draws of one in a thousand each: exactly one of them comes up about
    // twice in a thousand trials, both about once in a million.
    assert!(twos > trials * 99 / 100);
    assert!(threes > 600, "{} widenings by one", threes);
    assert!(threes < 1000, "{} widenings by one", threes);
    assert!(fours < 8, "{} widenings by two", fours);
}

#[test]
fn random_color_stays_in_the_slice() {
    let mut rng = rand::thread_rng();
    let mut seen_red = false;
    let mut seen_blue = false;
    for _ in 0..2000 {
        let c = random_color(&mut rng, 2);
        assert!(c == red() || c == blue());
        seen_red = seen_red || c == red();
        seen_blue = seen_blue || c == blue();
    }
    assert!(seen_red && seen_blue);
    for _ in 0..200 {
        assert_eq!(random_color(&mut rng, 1), red());
    }
    let mut seen_green = false;
    for _ in 0..2000 {
        let c = random_color(&mut rng, 4);
        assert!(c == red() || c == blue() || c == yellow() || c == green());
        seen_green = seen_green || c == green();
    }
    assert!(seen_green);
}
