//! Decision logic of an Alt+Tab workspace switcher for the i3 window manager.

pub mod events;
pub mod i3wm;
pub mod overlay;
pub mod screenshot;
pub mod state;
pub mod style;
pub mod tabs;
pub mod text;
