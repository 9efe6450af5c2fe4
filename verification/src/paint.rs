//! The paint widgets: the window and the area that is drawn on.

pub mod gesture;
pub mod model;
pub mod paint_area;
pub mod paint_window;

pub use self::paint_area::PaintArea;
pub use self::paint_window::PaintWindow;
pub use self::paint_window::WindowAction;
