//! Verified core of a live viewer for the Sofle Plus 2 keyboard: the switch
//! matrix and its key layout, keycode classification and labels, layer
//! tracking, raw-HID telemetry decoding and the viewer's live state.
pub mod matrix;
pub mod keycode;
pub mod layer;
pub mod text;
pub mod label;
pub mod report;
pub mod telemetry;
pub mod protocol;
pub mod state;
pub mod worker;
