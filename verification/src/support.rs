//! Helpers shared by the widgets.

pub mod id;
