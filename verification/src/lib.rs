//! Verified core of a Teensy 4.1 firmware loader.
//!
//! The crate parses Intel HEX firmware images, models flash targets
//! (HalfKay bootloader HID devices and PJRC USB serial ports), resolves
//! target selections, builds the HID report frames, and drives the
//! operation runner that coordinates pausing and resuming the serial
//! bridge around per-target work.

pub mod api;
pub mod bootloader;
pub mod bridge_control;
pub mod halfkay;
pub mod hex;
pub mod operation;
pub mod operation_runner;
pub mod reboot_api;
pub mod report;
pub mod selector;
pub mod strutil;
pub mod targets;
pub mod teensy41;
