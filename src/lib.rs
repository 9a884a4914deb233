//! Brightness control for backlight and LED devices: device selection,
//! the adjustment grammar, and the saved-state records.

pub mod text;
pub mod device;
pub mod adjust;
pub mod catalog;
pub mod state;
pub mod session;
