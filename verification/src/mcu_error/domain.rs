//! Top-level domain registry: the high byte of every error code.
use vstd::prelude::*;

verus! {

/// Reserved: `0x00` never appears in an error.
pub const RESERVED: u8 = 0x00;

/// Kernel syscall passthrough.
pub const KERNEL: u8 = 0x01;

/// SPDM protocol.
pub const SPDM: u8 = 0x03;

/// PLDM protocol.
pub const PLDM: u8 = 0x04;

/// MCU to Caliptra mailbox protocol.
pub const MAILBOX: u8 = 0x06;

/// Attestation and measurement API.
pub const ATTESTATION: u8 = 0x07;

/// Caliptra mailbox API wrappers.
pub const CALIPTRA_API: u8 = 0x08;

/// Memory and allocator failures.
pub const MEMORY: u8 = 0x10;

/// Internal invariants; these indicate bugs.
pub const INTERNAL: u8 = 0xFF;

} // verus!
