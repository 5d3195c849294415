//! One interactive viewing session: the viewport, a double-click
//! detector per mouse button, the last seen mouse position, and the
//! dirty flag that says the displayed frame is stale.
//!
//! The event loop that owns the window feeds raw events in — mouse
//! moves and button presses with timestamps — and asks for a frame once
//! per tick; everything decided here is verified.

use vstd::prelude::*;

use crate::click_handler::DoubleClickHandler;
use crate::mandelbrot_settings::{double_click_spec, MandelbrotSettings, MouseButton};
use crate::palette::Palette;
use crate::render::{frame_spec, render};

verus! {

/// The interaction state one window drives.
pub struct Session {
    /// The viewport the next frame will show.
    pub settings: MandelbrotSettings,
    /// Double-click detector for the left button (zoom in).
    pub left: DoubleClickHandler,
    /// Double-click detector for the right button (zoom out).
    pub right: DoubleClickHandler,
    /// Most recently seen mouse position, in pixels.
    pub mouse_x: i32,
    /// Most recently seen mouse position, in pixels.
    pub mouse_y: i32,
    /// Whether the displayed frame is stale and must be recomputed.
    pub dirty: bool,
}

impl Session {
    /// A session is well formed when its viewport is and each detector
    /// tracks its own button.
    pub open spec fn wf(self) -> bool {
        &&& self.settings.wf()
        &&& self.left.button == MouseButton::Left
        &&& self.right.button == MouseButton::Right
    }

    /// Starts a session on the given viewport with the default click
    /// timeout, the mouse at the frame origin, and the first frame
    /// owed: the dirty flag is set so the initial frame gets rendered.
    pub fn new(settings: MandelbrotSettings) -> (r: Session)
        requires
            settings.wf(),
        ensures
            r.wf(),
            r.settings == settings,
            r.left.last_click is None,
            r.right.last_click is None,
            r.mouse_x == 0 && r.mouse_y == 0,
            r.dirty,
    {
        Session {
            settings,
            left: DoubleClickHandler::new(MouseButton::Left, None),
            right: DoubleClickHandler::new(MouseButton::Right, None),
            mouse_x: 0,
            mouse_y: 0,
            dirty: true,
        }
    }

    /// Notes where the mouse is; nothing else changes.
    pub fn on_mouse_move(&mut self, x: i32, y: i32)
        ensures
            *final(self) == (Session { mouse_x: x, mouse_y: y, ..*old(self) }),
    {
        self.mouse_x = x;
        self.mouse_y = y;
    }

    /// Feeds a raw press of `button` at `now` (milliseconds) through the
    /// gesture detectors.  A press completing a double-click recenters
    /// the viewport on the mouse position, steps the zoom — in for left,
    /// out for right — and marks the frame dirty; any other press only
    /// restarts that button's click window.
    pub fn on_mouse_press(&mut self, button: MouseButton, now: u64) -> (zoomed: bool)
        requires
            old(self).wf(),
        ensures
            final(self).wf(),
            zoomed == (match button {
                MouseButton::Left => old(self).left.is_double_spec(now),
                MouseButton::Right => old(self).right.is_double_spec(now),
            }),
            zoomed ==> final(self).settings == double_click_spec(
                old(self).settings,
                button,
                old(self).mouse_x as int,
                old(self).mouse_y as int,
            ) && final(self).dirty,
            !zoomed ==> final(self).settings == old(self).settings,
            !zoomed ==> final(self).dirty == old(self).dirty,
            button == MouseButton::Left ==> final(self).left.last_click == Some(now),
            button == MouseButton::Left ==> final(self).right == old(self).right,
            button == MouseButton::Right ==> final(self).right.last_click == Some(now),
            button == MouseButton::Right ==> final(self).left == old(self).left,
            final(self).mouse_x == old(self).mouse_x && final(self).mouse_y == old(self).mouse_y,
            final(self).left.click_timeout == old(self).left.click_timeout,
            final(self).right.click_timeout == old(self).right.click_timeout,
    {
        let is_double = self.left.handle_if_button_pressed(button, now) || {
            self.right.handle_if_button_pressed(button, now)
        };
        if is_double {
            self.settings.apply_double_click(button, self.mouse_x, self.mouse_y);
            self.dirty = true;
        }
        is_double
    }

    /// Hands out a fresh frame when one is owed: if the viewport changed
    /// since the last frame (or none was rendered yet), renders it and
    /// clears the dirty flag; otherwise there is nothing to do.
    pub fn take_frame(&mut self, palette: &Palette) -> (r: Option<Vec<u8>>)
        requires
            old(self).wf(),
            palette.wf(old(self).settings.max_iterations as nat),
        ensures
            *final(self) == (Session { dirty: false, ..*old(self) }),
            old(self).dirty ==> (r matches Some(buf) && buf@ == frame_spec(
                old(self).settings,
                palette.levels@,
            )),
            !old(self).dirty ==> r is None,
    {
        if self.dirty {
            let buf = render(&self.settings, palette);
            self.dirty = false;
            Some(buf)
        } else {
            None
        }
    }
}

} // verus!
