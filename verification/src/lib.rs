//! Decoder library for the UT61E+ handheld multimeter's USB-HID protocol.
//!
//! The device is polled with a fixed command; it answers with a
//! length-framed byte sequence whose payload describes one measurement:
//! display digits, mode, range, and status flags.  This crate holds the
//! protocol core — command framing, response frame validation, and the
//! payload decode tables — as verified code.  Device I/O and rendering
//! live outside the library and only hand byte buffers in and out.
//!
//! - [`framer`]: the outbound poll command and the inbound frame.
//! - [`display`]: the seven-character display field and its numeric parse.
//! - [`decoder`]: the mode, unit and flag tables, and the full payload
//!   decode into a [`decoder::Measurement`].

pub mod decoder;
pub mod display;
pub mod framer;
