//! A Mandelbrot-set viewer core: an escape-time evaluator, a viewport that
//! maps pixels to points of the complex plane, a frame renderer, a
//! double-click gesture detector, and the interaction state machine that
//! pans and zooms the viewport between frames.
//!
//! All plane coordinates, zoom factors and scale factors are held in a
//! signed Q32.32 fixed-point representation (see [`fixed`]), so every
//! computation has an exact integer meaning.

pub mod click_handler;
pub mod evaluate;
pub mod fixed;
pub mod mandelbrot_settings;
pub mod palette;
pub mod render;
pub mod session;
