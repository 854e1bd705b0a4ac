use sendme::progress::Progress;

#[test]
fn first_frame_before_any_sample() {
    let p = Progress::new(1000, 0);
    let expected = format!("\x1b[K   0 B/1000 B [{}]    0 B/s eta 0:00\r", " ".repeat(24));
    assert_eq!(p.frame(), expected);
}

#[test]
fn update_waits_for_the_interval() {
    let mut p = Progress::new(1000, 0);
    assert_eq!(p.update(100, 50_000_000), None);
    assert_eq!(p.received(), 100);
    assert_eq!(p.update(100, 99_999_999), None);
    assert_eq!(p.received(), 200);
}

#[test]
fn update_redraws_with_rate_and_bar() {
    let mut p = Progress::new(1000, 0);
    let frame = p.update(500, 200_000_000).unwrap();
    let expected = format!(
        "\x1b[K 500 B/1000 B [{}{}] 2.44 KiB/s eta 0:00\r",
        "█".repeat(12),
        " ".repeat(12)
    );
    assert_eq!(frame, expected);
}

#[test]
fn rate_is_smoothed() {
    let mut p = Progress::new(1_000_000, 0);
    // 1000 bytes over one second: 1000 B/s
    let f1 = p.update(1000, 1_000_000_000).unwrap();
    assert!(f1.contains("] 1000 B/s eta 16:39\r"));
    // then 21000 bytes over one second: 21000 B/s, smoothed (21000 + 19 * 1000) / 20 = 2000
    let f2 = p.update(21000, 2_000_000_000).unwrap();
    assert!(f2.contains("] 1000 B/s eta") == false);
    assert!(f2.contains("] 2000 B/s eta 8:09\r"));
}

#[test]
fn partial_cells_use_eighth_blocks() {
    let mut p = Progress::new(192, 0);
    let f = p.update(9, 100_000_000).unwrap();
    let expected_bar = format!("[█▏{}]", " ".repeat(22));
    assert!(f.contains(&expected_bar));
}

#[test]
fn bar_full_at_or_past_total_and_for_zero_total() {
    let mut p = Progress::new(100, 0);
    let f = p.update(150, 100_000_000).unwrap();
    assert!(f.contains(&format!("[{}]", "█".repeat(24))));
    assert!(f.ends_with("eta 0:00\r"));
    let z = Progress::new(0, 0);
    assert!(z.frame().contains(&format!("[{}]", "█".repeat(24))));
}

#[test]
fn bar_never_shrinks() {
    let mut p = Progress::new(1000, 0);
    let mut last = 0;
    let mut now = 0;
    for _ in 0..10 {
        now += 100_000_000;
        let f = p.update(97, now).unwrap();
        let full = f.matches('█').count();
        assert!(full >= last);
        last = full;
    }
    assert_eq!(p.received(), 970);
}

#[test]
fn new_file_announces_the_name() {
    let p = Progress::new(10, 0);
    let t = p.new_file("photo.jpg");
    assert!(t.starts_with("\x1b[Kphoto.jpg\n\x1b[K   0 B/  10 B ["));
}

#[test]
fn clock_going_backwards_counts_as_no_time() {
    let mut p = Progress::new(1000, 500_000_000);
    assert_eq!(p.update(10, 100), None);
    assert_eq!(p.received(), 10);
}

#[test]
fn frontier_glyph_rounds_down() {
    let glyphs = ['▏', '▎', '▍', '▌', '▋', '▊', '▉'];
    for (k, g) in glyphs.iter().enumerate() {
        let mut p = Progress::new(192, 0);
        let f = p.update(k + 1, 100_000_000).unwrap();
        assert!(f.contains(&format!("[{}{}]", g, " ".repeat(23))));
    }
}
