use circle_demo::digits::u64_to_string;
use circle_demo::fps::FpsCounter;

#[test]
fn decimal_rendering() {
    assert_eq!(u64_to_string(0), "0");
    assert_eq!(u64_to_string(7), "7");
    assert_eq!(u64_to_string(60), "60");
    assert_eq!(u64_to_string(215), "215");
    assert_eq!(u64_to_string(1000000), "1000000");
    assert_eq!(u64_to_string(u64::MAX), "18446744073709551615");
}

// Within the same second the label never changes, however many frames pass.
#[test]
fn label_unchanged_within_a_second() {
    let mut fps = FpsCounter::new(0);
    assert_eq!(fps.label, "FPS: ");
    for now in [0, 100, 250, 400, 999] {
        fps.frame(now);
        assert_eq!(fps.label, "FPS: ");
    }
    assert_eq!(fps.frame_count, 5);
}

// Running for 2.5 simulated seconds at 60 frames per second yields exactly
// two label updates, each reporting 60.
#[test]
fn two_updates_in_two_and_a_half_seconds() {
    let mut fps = FpsCounter::new(0);
    let mut updates: Vec<String> = Vec::new();
    let mut last_window = fps.window_start_ms;
    for i in 1..=150u64 {
        fps.frame(i * 1000 / 60);
        if fps.window_start_ms != last_window {
            updates.push(fps.label.clone());
            last_window = fps.window_start_ms;
        }
    }
    assert_eq!(updates, vec!["FPS: 60".to_string(), "FPS: 60".to_string()]);
}

// The first window counts from the counter's creation: there is no warm-up
// grace period.
#[test]
fn first_window_counts_from_start() {
    let mut fps = FpsCounter::new(0);
    fps.frame(400);
    fps.frame(800);
    fps.frame(1200);
    assert_eq!(fps.label, "FPS: 3");
    assert_eq!(fps.frame_count, 0);
    assert_eq!(fps.window_start_ms, 1200);
}

// An update happens exactly when a full second has elapsed, not before.
#[test]
fn update_at_exactly_one_second() {
    let mut fps = FpsCounter::new(500);
    fps.frame(1499);
    assert_eq!(fps.label, "FPS: ");
    fps.frame(1500);
    assert_eq!(fps.label, "FPS: 2");
}
