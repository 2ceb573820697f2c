//! Turns text into the USB HID boot-keyboard reports that type it on a
//! machine whose keyboard follows a given national layout.
//!
//! Each character is resolved to a keycode of the layout (printable ASCII,
//! Enter and Tab directly, other control characters as Ctrl held with a
//! printable key), preceded by a dead key where the layout composes the
//! character. The key events are then framed as 8-byte HID reports.
pub mod encoder;
pub mod keycode;
pub mod layout;
pub mod report_buffer;
pub mod theorems;

pub use encoder::{
    string_to_hid_packets, string_to_keys_and_modifiers, Error, KeyMod, Release, HID_PACKET_LEN,
};
pub use layout::{available_layouts, DeadKeys, Layout, LayoutTable};
