//! Constants of the Teensy 4.1 target: USB identifiers, flash geometry,
//! HID report sizes, and the FlexSPI execute-in-place base address.

use vstd::prelude::*;

verus! {

/// PJRC vendor id shared by HalfKay devices and Teensy USB serial ports.
pub const VID: u16 = 0x16C0;

/// Product id of a device in HalfKay bootloader mode.
pub const PID_HALFKAY: u16 = 0x0478;

/// Size of the programmable flash region, in bytes.
pub const CODE_SIZE: usize = 8_126_464;

/// Size of one programming block, in bytes.
pub const BLOCK_SIZE: usize = 1024;

/// Size of the report header preceding the block payload, in bytes.
pub const HEADER_SIZE: usize = 64;

/// Size of the report payload: header plus one block.
pub const PACKET_SIZE: usize = 1088;

/// Base address of the FlexSPI window through which HEX files address code.
pub const FLEXSPI_BASE: u32 = 0x6000_0000;

/// Number of programming blocks in the flash region.
pub const NUM_BLOCKS: usize = 7936;

} // verus!
