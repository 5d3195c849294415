use mandelbrot::fixed::FP_ONE;
use mandelbrot::mandelbrot_settings::{MandelbrotSettings, MouseButton};

fn standard_view() -> MandelbrotSettings {
    MandelbrotSettings {
        width: 640,
        height: 480,
        max_iterations: 300,
        // 1.5 in Q32.32.
        zoom_exp: 3 * FP_ONE / 2,
        zoom_level: 0,
        offset_x: 0,
        offset_y: 0,
    }
}

#[test]
fn zoom_value_at_level_zero_is_one() {
    let s = standard_view();
    assert_eq!(s.zoom_value(), FP_ONE);
}

#[test]
fn zoom_value_after_one_step_is_the_zoom_exp() {
    let mut s = standard_view();
    s.zoom_level = 1;
    assert_eq!(s.zoom_value(), 3 * FP_ONE / 2);
}

#[test]
fn zoom_value_one_step_out() {
    let mut s = standard_view();
    s.zoom_level = -1;
    // 1 / 1.5 in Q32.32, truncated: floor(2^64 / 6442450944).
    assert_eq!(s.zoom_value(), 2863311530);
}

#[test]
fn frame_center_maps_to_the_offset() {
    let s = standard_view();
    assert_eq!(s.pixel_to_plane(320, 240), (0, 0));
    let mut moved = s;
    moved.offset_x = 7 * FP_ONE;
    moved.offset_y = -2 * FP_ONE;
    assert_eq!(moved.pixel_to_plane(320, 240), (7 * FP_ONE, -2 * FP_ONE));
}

#[test]
fn one_pixel_is_one_scale_step() {
    let s = standard_view();
    // scale_x = 4 / zoom / width = floor(4 * 2^64 / (2^32 * 640)).
    let step = (4u128 * (FP_ONE as u128) * (FP_ONE as u128) / ((FP_ONE as u128) * 640)) as i64;
    assert_eq!(step, 26843545);
    assert_eq!(s.pixel_to_plane(321, 240).0, step);
    assert_eq!(s.pixel_to_plane(319, 240).0, -step);
}

#[test]
fn plane_to_pixel_inverts_pixel_to_plane() {
    let s = standard_view();
    let (x, y) = s.pixel_to_plane(123, 45);
    assert_eq!(s.plane_to_pixel(x, y), (123, 45));
    let (x, y) = s.pixel_to_plane(0, 479);
    assert_eq!(s.plane_to_pixel(x, y), (0, 479));
}

#[test]
fn left_double_click_at_center_keeps_the_offset_and_steps_the_zoom() {
    let mut s = standard_view();
    s.apply_double_click(MouseButton::Left, 320, 240);
    assert_eq!(s.offset_x, 0);
    assert_eq!(s.offset_y, 0);
    assert_eq!(s.zoom_level, 1);
    assert_eq!(s.zoom_value(), 3 * FP_ONE / 2);
    assert_eq!(s.width, 640);
    assert_eq!(s.height, 480);
}

#[test]
fn zoom_out_then_in_at_the_same_pixel_restores_the_zoom() {
    let mut s = standard_view();
    let original_zoom = s.zoom_value();
    s.apply_double_click(MouseButton::Right, 100, 100);
    assert_eq!(s.zoom_level, -1);
    s.apply_double_click(MouseButton::Left, 100, 100);
    assert_eq!(s.zoom_level, 0);
    assert_eq!(s.zoom_value(), original_zoom);
}

#[test]
fn recentering_uses_the_mapping_before_the_zoom_step() {
    let mut s = standard_view();
    // Under the pre-click mapping, pixel (480, 240) is a quarter frame
    // right of center: (480 - 320) * scale = 160 * 26843545.
    let expected = 160 * 26843545;
    s.apply_double_click(MouseButton::Left, 480, 240);
    assert_eq!(s.offset_x, expected);
    assert_eq!(s.offset_y, 0);
    assert_eq!(s.zoom_level, 1);
}
