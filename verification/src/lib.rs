//! Real-time link between a desktop host and a microcontroller client over a
//! fixed-size 64-byte HID-style packet channel.
//!
//! Two services share the channel: a precision timing protocol that estimates
//! the offset between the two clocks, and a real-time numerical task manager
//! that configures, synchronizes and executes up to 32 compute nodes per
//! endpoint.

use vstd::prelude::*;

pub mod host;
pub mod ptp;
pub mod rtnt;

verus! {

/// HID packet size in bytes.
pub const RID_PACKET_SIZE: usize = 64;

/// One wire packet: a fixed buffer of [`RID_PACKET_SIZE`] bytes.
pub type RIDReport = [u8; RID_PACKET_SIZE];

/// Byte offset of the task selector (0 = non-node packet, else node id + 1).
pub const RID_TASK_INDEX: usize = 0;

/// Byte offset of the packet type.
pub const RID_MODE_INDEX: usize = 1;

/// Bytes at the tail of every packet reserved for the timing protocol.
pub const RID_PTP_RESERVED_BYTES: usize = 16;

/// Default vendor id of the HID device.
pub const RID_DEFAULT_VID: u16 = 0x1331;

/// Default product id of the HID device.
pub const RID_DEFAULT_PID: u16 = 0x0001;

} // verus!
