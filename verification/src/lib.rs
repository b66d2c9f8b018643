//! Codec for the wire protocol of a USB HID macro-keypad accessory.
//!
//! Outbound commands (subscriptions, screen and wheel settings, key labels,
//! scrolling overlay text) are encoded as fixed 32-byte report buffers;
//! inbound 16-byte reports are decoded into typed events (button states,
//! wheel rotation, battery level). The codec is pure: it performs no I/O,
//! and the transport that carries the buffers lives outside this crate.

pub mod decode;
pub mod encode;
pub mod text;
