use circle_demo::driver::BackgroundMode;
use circle_demo::driver::Demo;
use circle_demo::driver::PacingMode;
use circle_demo::driver::events_in_bounds;
use circle_demo::driver::next_hue;
use circle_demo::error::SDLError;
use circle_demo::events::Event;
use circle_demo::events::apply_events;

// One scroll-wheel notch of +3 grows a radius of 200 to 215.
#[test]
fn one_wheel_event_scenario() {
    let mut demo = Demo::new(200, BackgroundMode::StaticColor, PacingMode::ExternalVsync, 0);
    let events = vec![Event::ScrollWheel { delta_y: 3 }];
    let out = demo.frame(&events, 400, 400, 16);
    assert!(!out.stop);
    assert_eq!(demo.state.radius, 215);
}

// Wheel deltas add up by five per notch, however they are batched.
#[test]
fn wheel_batching_is_immaterial() {
    let all_at_once = vec![
        Event::ScrollWheel { delta_y: 1 },
        Event::ScrollWheel { delta_y: -4 },
        Event::ScrollWheel { delta_y: 2 },
    ];
    let (r1, stop1) = apply_events(100, &all_at_once);
    assert!(!stop1);
    assert_eq!(r1, 100 + 5 * (1 - 4 + 2));

    let (r2a, _) = apply_events(100, &vec![Event::ScrollWheel { delta_y: 1 }]);
    let (r2b, _) = apply_events(r2a, &vec![
        Event::ScrollWheel { delta_y: -4 },
        Event::ScrollWheel { delta_y: 2 },
    ]);
    assert_eq!(r2b, r1);
}

// A quit event arriving mid-batch stops event processing at once: events
// after it are abandoned.
#[test]
fn quit_mid_batch_stops_processing() {
    let events = vec![
        Event::ScrollWheel { delta_y: 2 },
        Event::Quit,
        Event::ScrollWheel { delta_y: 7 },
    ];
    let (radius, stop) = apply_events(200, &events);
    assert!(stop);
    assert_eq!(radius, 210);

    let mut demo = Demo::new(200, BackgroundMode::StaticColor, PacingMode::ExternalVsync, 0);
    let out = demo.frame(&events, 400, 400, 16);
    assert!(out.stop);
    assert_eq!(demo.state.radius, 200);
    assert!(out.pixels.is_empty());
}

// The escape key stops the loop; other keys do not.
#[test]
fn escape_key_stops_the_loop() {
    let (_, stop) = apply_events(10, &vec![Event::KeyDown { escape: true }]);
    assert!(stop);
    let (_, stop) = apply_events(10, &vec![Event::KeyDown { escape: false }, Event::Other]);
    assert!(!stop);
}

// The circle's center follows the cursor, and the frame emits the circle's
// pixels at the new radius.
#[test]
fn center_tracks_cursor() {
    let mut demo = Demo::new(5, BackgroundMode::StaticColor, PacingMode::ManualSleep, 0);
    let out = demo.frame(&Vec::new(), 100, 100, 16);
    assert!(!out.stop);
    assert_eq!(demo.state.center_x, 100);
    assert_eq!(demo.state.center_y, 100);
    assert_eq!(out.pixels.len(), 40);
    assert!(out.pixels.contains(&(100, 105)));
    assert!(out.pixels.contains(&(100, 95)));
    assert_eq!((out.bg_red, out.bg_green, out.bg_blue), (0, 0, 0));
}

// The hue counter steps once per frame when the background cycles, and wraps
// from 254 back to 0.
#[test]
fn hue_cycles_and_wraps() {
    assert_eq!(next_hue(0), 1);
    assert_eq!(next_hue(253), 254);
    assert_eq!(next_hue(254), 0);

    let mut demo = Demo::new(1, BackgroundMode::CyclingHue, PacingMode::ManualSleep, 0);
    let out = demo.frame(&Vec::new(), 0, 0, 16);
    assert_eq!(demo.hue, 1);
    assert_eq!((out.bg_red, out.bg_green, out.bg_blue), (1, 0, 254));
    let mut now = 32;
    for _ in 0..254 {
        demo.frame(&Vec::new(), 0, 0, now);
        now += 16;
    }
    assert_eq!(demo.hue, 0);
}

// A batch that would push the radius past the machine bounds is refused
// before any frame processes it; a harmless batch is accepted.
#[test]
fn out_of_bounds_radius_is_refused() {
    let blowup = vec![Event::ScrollWheel { delta_y: i32::MAX }];
    assert!(!events_in_bounds(i32::MAX, &blowup));
    assert!(events_in_bounds(0, &vec![Event::ScrollWheel { delta_y: -100 }]));

    let mut demo = Demo::new(i32::MAX, BackgroundMode::StaticColor, PacingMode::ExternalVsync, 0);
    let out = demo.try_frame(&vec![Event::ScrollWheel { delta_y: 1 }], 0, 0, 16);
    assert!(out.is_none());
    assert_eq!(demo.state.radius, i32::MAX);

    let mut demo = Demo::new(200, BackgroundMode::StaticColor, PacingMode::ExternalVsync, 0);
    let out = demo.try_frame(&vec![Event::ScrollWheel { delta_y: 3 }], 7, 9, 16);
    assert!(out.is_some());
    assert_eq!(demo.state.radius, 215);
}

// The radius may go negative and recover: it is never clamped.
#[test]
fn radius_may_go_negative() {
    let (r, stop) = apply_events(10, &vec![Event::ScrollWheel { delta_y: -10 }]);
    assert!(!stop);
    assert_eq!(r, -40);
    let (r, _) = apply_events(r, &vec![Event::ScrollWheel { delta_y: 20 }]);
    assert_eq!(r, 60);
}

// Each startup failure carries its own diagnostic text.
#[test]
fn startup_error_messages() {
    assert_eq!(SDLError::LoadSDLContext.message(), "Failt at loading SDL context.");
    assert_eq!(SDLError::LoadVideoSubsystem.message(), "Fail at loading SDL video subsystem.");
    assert_eq!(SDLError::LoadTtfContext.message(), "Failt at loading ttf context.");
    assert_eq!(SDLError::BuildWindow.message(), "Fail at building window.");
    assert_eq!(SDLError::BuildCanvas.message(), "Fail at building canvas.");
}
