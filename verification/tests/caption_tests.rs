use slide_generator::caption::{caption, decimal_string, random_frame_number, FIRST_FRAME, LAST_FRAME};

#[test]
fn caption_names_the_frame() {
    assert_eq!(caption(42), "aqua.flv - synthetic frame #42");
    assert_eq!(caption(1), "aqua.flv - synthetic frame #1");
    assert_eq!(caption(10000), "aqua.flv - synthetic frame #10000");
    assert_eq!(caption(907), "aqua.flv - synthetic frame #907");
}

#[test]
fn caption_of_every_frame_number_matches_the_pattern() {
    for frame in FIRST_FRAME..=LAST_FRAME {
        let text = caption(frame);
        let number = text.strip_prefix("aqua.flv - synthetic frame #").unwrap();
        assert!(number.chars().all(|c| c.is_ascii_digit()));
        assert!(!number.starts_with('0'));
        assert_eq!(number.parse::<u32>().unwrap(), frame);
        assert_eq!(text, format!("aqua.flv - synthetic frame #{}", frame));
    }
}

#[test]
fn decimal_string_has_no_leading_zeros() {
    assert_eq!(decimal_string(0), "0");
    assert_eq!(decimal_string(7), "7");
    assert_eq!(decimal_string(10), "10");
    assert_eq!(decimal_string(1009), "1009");
    assert_eq!(decimal_string(4294967295), "4294967295");
}

#[test]
fn frame_numbers_stay_in_range() {
    assert_eq!(FIRST_FRAME, 1);
    assert_eq!(LAST_FRAME, 10000);
    let mut rng = rand::thread_rng();
    for _ in 0..50000 {
        let frame = random_frame_number(&mut rng);
        assert!((1..=10000).contains(&frame));
    }
}

#[test]
fn frame_numbers_vary() {
    let mut rng = rand::thread_rng();
    let mut least = LAST_FRAME;
    let mut greatest = FIRST_FRAME;
    for _ in 0..2000 {
        let frame = random_frame_number(&mut rng);
        least = least.min(frame);
        greatest = greatest.max(frame);
    }
    assert!(least < 500);
    assert!(greatest > 9500);
}
