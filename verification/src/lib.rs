//! Verified core of a controller for a USB-attached liquid-cooler display.
//!
//! The crate covers the deterministic logic of the device: parsing textual
//! gauge input, planning the 320x320 framebuffer rendering, choosing device
//! image slots, building the fixed-layout command and bulk-header frames,
//! ordering the transfer sequence that writes an image into the device, and
//! decoding the fixed-offset status responses.  Transport I/O, font
//! rasterisation and image decoding live outside this crate and consume the
//! plans and frames built here.

pub mod clock;
pub mod codec;
pub mod color;
pub mod device;
pub mod framebuffer;
pub mod input;
pub mod number;
pub mod render;
pub mod settings;
pub mod slots;
pub mod status;
pub mod strutil;
pub mod text;
pub mod transfer;
