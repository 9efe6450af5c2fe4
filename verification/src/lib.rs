//! The drawing core of a small paint program: a pool of widget identifiers,
//! the pointer state machine that turns presses and drags into strokes, the
//! surface that keeps the strokes and lists them for the renderer, and the
//! rule by which the window's own events end the program.
//!
//! Nothing here opens a window or draws: the program around this library
//! reads the input, hands it over tick by tick, and renders what it gets
//! back.

pub mod paint;
pub mod shell;
pub mod support;
