//! User-mode client for the `dbk64` kernel driver's out-of-process memory
//! interface.
//!
//! The crate is purely protocol-level: it builds bit-exact request buffers for
//! the driver's device-control commands, splits large transfers into
//! driver-legal chunks, and turns driver responses into typed results. The
//! device itself is reached through the [`device::Device`] interface; the
//! driver's behaviour is out of scope and never emulated here.

use vstd::prelude::*;

pub mod chunking;
pub mod client;
pub mod codec;
pub mod device;
pub mod text;
pub mod types;

pub use client::DBK64;
pub use codec::OpenProcessOutput;
pub use types::Pointer;

verus! {

/// Every failure the client can report.
#[derive(Clone, Copy, Debug, PartialEq, Eq, Structural)]
pub enum Error {
    /// The device object could not be opened: absent (driver not loaded) or
    /// access denied. Carries the OS error code. Fatal to the channel.
    DeviceOpen(u32),
    /// A device control call failed; carries the OS-reported failure code.
    Ioctl(u32),
    /// The process id was rejected: zero, or refused by the driver.
    ProcessNotFound,
    /// A single request was larger than the protocol allows; a client-side
    /// defect, surfaced immediately and never silently clamped.
    SizeLimitExceeded,
    /// Text read from the target was not valid UTF-8.
    Utf8Decode,
}

} // verus!
