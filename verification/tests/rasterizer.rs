use circle_demo::raster::isqrt64;
use circle_demo::raster::raster_circle;

#[test]
fn integer_square_root_truncates() {
    assert_eq!(isqrt64(0), 0);
    assert_eq!(isqrt64(1), 1);
    assert_eq!(isqrt64(24), 4);
    assert_eq!(isqrt64(25), 5);
    assert_eq!(isqrt64(26), 5);
    assert_eq!(isqrt64(u64::MAX), 4294967295);
}

// Each pass emits exactly 4 * r pairs for r > 0: two per integer step over a
// range of length 2r, so the two passes together emit 8 * r.
#[test]
fn pass_emits_four_r_pairs() {
    for r in [1i32, 2, 5, 17, 100] {
        let pixels = raster_circle(300, 250, r);
        assert_eq!(pixels.len(), 8 * r as usize);
        // the x-driven pass is the first half, the y-driven pass the second
        assert_eq!(pixels.len() / 2, 4 * r as usize);
    }
}

#[test]
fn nonpositive_radius_emits_nothing() {
    assert_eq!(raster_circle(100, 100, 0).len(), 0);
    assert_eq!(raster_circle(100, 100, -1).len(), 0);
    assert_eq!(raster_circle(0, 0, -200).len(), 0);
}

// Every pixel of the x-driven pass satisfies the circle equation up to the
// truncation of the square root.
#[test]
fn x_pass_lies_on_circle() {
    let (cx, cy, r) = (100i64, 100i64, 5i64);
    let pixels = raster_circle(cx as i32, cy as i32, r as i32);
    let x_pass = &pixels[..(4 * r) as usize];
    for &(x, y) in x_pass {
        let dx = x - cx;
        let dy = (y - cy).abs();
        assert!(dx * dx + dy * dy <= r * r, "pixel ({x}, {y}) overshoots");
        assert!(r * r < dx * dx + (dy + 1) * (dy + 1), "pixel ({x}, {y}) undershoots");
    }
}

// If (x, y) is emitted by the x-driven pass, so is its vertical mirror
// (x, 2*cy - y).
#[test]
fn x_pass_emits_mirrors() {
    let (cx, cy, r) = (40i64, -7i64, 9i64);
    let pixels = raster_circle(cx as i32, cy as i32, r as i32);
    let x_pass = &pixels[..(4 * r) as usize];
    for &(x, y) in x_pass {
        assert!(x_pass.contains(&(x, 2 * cy - y)), "mirror of ({x}, {y}) missing");
    }
}

// If (x, y) is emitted by the y-driven pass, so is its horizontal mirror
// (2*cx - x, y).
#[test]
fn y_pass_emits_mirrors() {
    let (cx, cy, r) = (40i64, -7i64, 9i64);
    let pixels = raster_circle(cx as i32, cy as i32, r as i32);
    let y_pass = &pixels[(4 * r) as usize..];
    for &(x, y) in y_pass {
        assert!(y_pass.contains(&(2 * cx - x, y)), "mirror of ({x}, {y}) missing");
    }
}

// With radius 5 and center (100, 100), the x-driven pass at x = 100 yields
// y = 105 and the mirror y = 95, since sqrt(25 - 0) = 5.
#[test]
fn x_pass_center_column_scenario() {
    let pixels = raster_circle(100, 100, 5);
    // x = 100 is the 5th step of the x pass; each step emits two pixels
    assert_eq!(pixels[10], (100, 105));
    assert_eq!(pixels[11], (100, 95));
}

// The two passes are not deduplicated: the extreme columns and rows of a
// circle appear in both.
#[test]
fn passes_may_repeat_pixels() {
    let pixels = raster_circle(0, 0, 2);
    let leftmost = (-2i64, 0i64);
    let times = pixels.iter().filter(|&&p| p == leftmost).count();
    assert!(times >= 2);
}
