//! Firmware status codes.

use vstd::prelude::*;

verus! {

/// The error codes that the boot logic tells apart; every other code of the
/// firmware is carried through as a number.
#[derive(Debug, Clone, Copy, PartialEq, Eq, Structural)]
pub enum Status {
    InvalidParameter,
    LoadError,
    NotFound,
    NotReady,
    OutOfResources,
    ProtocolError,
    Unsupported,
    VolumeCorrupted,
    WriteProtected,
    Other(u64),
}

} // verus!
