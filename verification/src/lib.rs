//! Verified core of the Ergodox overlay: layout-source parsing, layout
//! validation, keycode label maps and the Oryx raw-HID protocol decisions.

pub mod build_info;
pub mod hid;
pub mod json;
pub mod layoutstore;
pub mod oskeymap;
pub mod text;
