use mandelbrot::fixed::FP_ONE;
use mandelbrot::mandelbrot_settings::{MandelbrotSettings, MouseButton};
use mandelbrot::palette::Palette;
use mandelbrot::render::render;
use mandelbrot::session::Session;

fn small_view(max_iterations: u32) -> MandelbrotSettings {
    MandelbrotSettings {
        width: 64,
        height: 48,
        max_iterations,
        zoom_exp: 3 * FP_ONE / 2,
        zoom_level: 0,
        offset_x: 0,
        offset_y: 0,
    }
}

/// The original shading: (count / cap) ^ gamma scaled to 8 bits.
fn gamma_levels(max_iterations: u32, gamma: f32) -> Vec<u8> {
    (0..=max_iterations)
        .map(|i| ((i as f32 / max_iterations as f32).powf(gamma) * 255.0) as u8)
        .collect()
}

#[test]
fn the_gamma_curve_is_a_valid_palette() {
    let levels = gamma_levels(300, 0.22);
    let p = Palette::from_levels(levels.clone(), 300).expect("curve should be accepted");
    assert_eq!(p.levels, levels);
    assert_eq!(p.levels[0], 0);
    assert_eq!(p.levels[300], 255);
}

#[test]
fn malformed_palettes_are_rejected() {
    // Wrong length for the cap.
    assert!(Palette::from_levels(vec![0, 255], 2).is_none());
    // First entry must be 0.
    assert!(Palette::from_levels(vec![1, 128, 255], 2).is_none());
    // Last entry must be 255.
    assert!(Palette::from_levels(vec![0, 128, 254], 2).is_none());
    // Entries must never descend.
    assert!(Palette::from_levels(vec![0, 200, 100, 255], 3).is_none());
    // A well-formed table is accepted.
    assert!(Palette::from_levels(vec![0, 100, 200, 255], 3).is_some());
}

#[test]
fn rendering_is_deterministic() {
    let s = small_view(60);
    let palette = Palette::from_levels(gamma_levels(60, 0.22), 60).unwrap();
    let a = render(&s, &palette);
    let b = render(&s, &palette);
    assert_eq!(a, b);
    assert_eq!(a.len(), 64 * 48 * 4);
}

#[test]
fn worker_count_does_not_change_the_frame() {
    let s = small_view(60);
    let palette = Palette::from_levels(gamma_levels(60, 0.22), 60).unwrap();
    let one_worker = rayon::ThreadPoolBuilder::new()
        .num_threads(1)
        .build()
        .unwrap()
        .install(|| render(&s, &palette));
    let four_workers = rayon::ThreadPoolBuilder::new()
        .num_threads(4)
        .build()
        .unwrap()
        .install(|| render(&s, &palette));
    assert_eq!(one_worker, four_workers);
}

#[test]
fn interior_pixel_renders_opaque_white() {
    let s = small_view(300);
    let palette = Palette::from_levels(gamma_levels(300, 0.22), 300).unwrap();
    let buf = render(&s, &palette);
    // The frame center maps to the plane origin, which never escapes.
    let at = ((24 * 64) + 32) * 4;
    assert_eq!(&buf[at..at + 4], &[255, 255, 255, 255]);
}

#[test]
fn immediately_escaping_pixel_renders_opaque_black() {
    let mut s = small_view(300);
    // Recenter the view on (3, 3), far outside the set.
    s.offset_x = 3 * FP_ONE;
    s.offset_y = 3 * FP_ONE;
    let palette = Palette::from_levels(gamma_levels(300, 0.22), 300).unwrap();
    let buf = render(&s, &palette);
    let at = ((24 * 64) + 32) * 4;
    assert_eq!(&buf[at..at + 4], &[0, 0, 0, 255]);
}

#[test]
fn every_pixel_is_opaque() {
    let s = small_view(40);
    let palette = Palette::from_levels(gamma_levels(40, 0.22), 40).unwrap();
    let buf = render(&s, &palette);
    for px in 0..(64 * 48) {
        assert_eq!(buf[px * 4 + 3], 255);
        assert_eq!(buf[px * 4], buf[px * 4 + 1]);
        assert_eq!(buf[px * 4 + 1], buf[px * 4 + 2]);
    }
}

#[test]
fn a_session_renders_once_per_change() {
    let palette = Palette::from_levels(gamma_levels(50, 0.22), 50).unwrap();
    let mut session = Session::new(small_view(50));
    // The initial frame is owed.
    let first = session.take_frame(&palette);
    assert!(first.is_some());
    // Nothing changed: no frame is owed.
    assert!(session.take_frame(&palette).is_none());
    // A single press changes nothing either.
    assert!(!session.on_mouse_press(MouseButton::Left, 1000));
    assert!(session.take_frame(&palette).is_none());
    // A double-click recenters, zooms and makes the frame dirty.
    session.on_mouse_move(32, 24);
    assert!(session.on_mouse_press(MouseButton::Left, 1100));
    assert_eq!(session.settings.zoom_level, 1);
    let second = session.take_frame(&palette);
    assert!(second.is_some());
    assert!(session.take_frame(&palette).is_none());
}

#[test]
fn center_double_click_end_to_end() {
    // width=640, height=480, zoom 1, offset (0,0): a left double-click at
    // the screen center recenters on the center itself and zooms in once.
    let palette = Palette::from_levels(gamma_levels(50, 0.22), 50).unwrap();
    let mut session = Session::new(MandelbrotSettings {
        width: 640,
        height: 480,
        max_iterations: 50,
        zoom_exp: 3 * FP_ONE / 2,
        zoom_level: 0,
        offset_x: 0,
        offset_y: 0,
    });
    session.take_frame(&palette);
    session.on_mouse_move(320, 240);
    assert!(!session.on_mouse_press(MouseButton::Left, 500));
    assert!(session.on_mouse_press(MouseButton::Left, 600));
    assert_eq!(session.settings.offset_x, 0);
    assert_eq!(session.settings.offset_y, 0);
    assert_eq!(session.settings.zoom_level, 1);
    assert_eq!(session.settings.zoom_value(), 3 * FP_ONE / 2);
    assert!(session.take_frame(&palette).is_some());
}
