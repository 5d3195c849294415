use mandelbrot::click_handler::DoubleClickHandler;
use mandelbrot::mandelbrot_settings::MouseButton;

#[test]
fn first_press_is_never_a_double_click() {
    let mut h = DoubleClickHandler::new(MouseButton::Left, None);
    assert!(!h.is_double_click(10));
}

#[test]
fn presses_100ms_apart_pair_up() {
    let mut h = DoubleClickHandler::new(MouseButton::Left, None);
    assert!(!h.is_double_click(1000));
    assert!(h.is_double_click(1100));
}

#[test]
fn presses_600ms_apart_do_not_pair() {
    let mut h = DoubleClickHandler::new(MouseButton::Left, None);
    assert!(!h.is_double_click(1000));
    assert!(!h.is_double_click(1600));
}

#[test]
fn window_restarts_at_every_press() {
    let mut h = DoubleClickHandler::new(MouseButton::Left, None);
    assert!(!h.is_double_click(0));
    assert!(h.is_double_click(400));
    // 100ms after the second press: within the window of the *second*
    // press, though 500ms past the first.
    assert!(h.is_double_click(500));
    // 600ms after the third press: the window has lapsed.
    assert!(!h.is_double_click(1100));
}

#[test]
fn press_at_exact_timeout_does_not_pair() {
    let mut h = DoubleClickHandler::new(MouseButton::Left, Some(500));
    assert!(!h.is_double_click(0));
    // The gap must be strictly below the timeout.
    assert!(!h.is_double_click(500));
}

#[test]
fn custom_timeout_is_honored() {
    let mut h = DoubleClickHandler::new(MouseButton::Right, Some(50));
    assert!(!h.is_double_click(0));
    assert!(!h.is_double_click(100));
    assert!(h.is_double_click(120));
}

#[test]
fn other_buttons_leave_the_detector_untouched() {
    let mut h = DoubleClickHandler::new(MouseButton::Left, None);
    assert!(!h.handle_if_button_pressed(MouseButton::Left, 0));
    // A right press in between neither pairs nor restarts the window.
    assert!(!h.handle_if_button_pressed(MouseButton::Right, 100));
    assert!(h.handle_if_button_pressed(MouseButton::Left, 200));
}
