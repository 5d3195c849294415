//! The double-click gesture detector.
//!
//! One detector tracks one mouse button.  A press is a double-click iff
//! it lands strictly within the timeout window after the previous press
//! of the same button, and every press restarts the window, so three
//! rapid presses yield exactly one double-click.

use vstd::prelude::*;

use crate::mandelbrot_settings::MouseButton;

verus! {

/// Milliseconds a second press may lag the first and still pair with it.
pub const DEFAULT_TIMEOUT_MS: u64 = 500;

/// Handles double click events for one mouse button.  Timestamps are
/// milliseconds on the caller's clock.
#[derive(Clone, Copy, Debug)]
pub struct DoubleClickHandler {
    /// The button this detector tracks.
    pub button: MouseButton,
    /// Width of the double-click window in milliseconds.
    pub click_timeout: u64,
    /// Time of the most recent press of the tracked button, if any.
    pub last_click: Option<u64>,
}

impl DoubleClickHandler {
    /// Whether a press of the tracked button at `now` completes a
    /// double-click: a previous press exists, lies at or before `now`,
    /// and the gap is strictly below the timeout.
    pub open spec fn is_double_spec(self, now: u64) -> bool {
        match self.last_click {
            Some(t) => t <= now && now - t < self.click_timeout,
            None => false,
        }
    }

    /// Makes a detector for `button`, with the given window in
    /// milliseconds, or the default of 500.  No press is on record yet,
    /// so the first press can never register as a double-click.
    pub fn new(button: MouseButton, timeout: Option<u64>) -> (r: DoubleClickHandler)
        ensures
            r.button == button,
            r.click_timeout == (match timeout {
                Some(t) => t,
                None => DEFAULT_TIMEOUT_MS,
            }),
            r.last_click is None,
    {
        let click_timeout = match timeout {
            Some(t) => t,
            None => DEFAULT_TIMEOUT_MS,
        };
        DoubleClickHandler { button, click_timeout, last_click: None }
    }

    /// Records a press of the tracked button at `now` and reports whether
    /// it completed a double-click; the press always restarts the window.
    pub fn is_double_click(&mut self, now: u64) -> (r: bool)
        ensures
            r == old(self).is_double_spec(now),
            final(self).last_click == Some(now),
            final(self).button == old(self).button,
            final(self).click_timeout == old(self).click_timeout,
    {
        let is_double = match self.last_click {
            Some(t) => t <= now && now - t < self.click_timeout,
            None => false,
        };
        self.last_click = Some(now);
        is_double
    }

    /// Feeds a raw press of `button` at `now` to the detector.  Presses
    /// of other buttons leave it untouched; a press of the tracked button
    /// is recorded, and the result says whether it completed a
    /// double-click.
    pub fn handle_if_button_pressed(&mut self, button: MouseButton, now: u64) -> (r: bool)
        ensures
            r == (button == old(self).button && old(self).is_double_spec(now)),
            button == old(self).button ==> final(self).last_click == Some(now),
            button != old(self).button ==> *final(self) == *old(self),
            final(self).button == old(self).button,
            final(self).click_timeout == old(self).click_timeout,
    {
        if button == self.button {
            self.is_double_click(now)
        } else {
            false
        }
    }
}

} // verus!
