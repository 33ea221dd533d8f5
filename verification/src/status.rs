use vstd::prelude::*;

verus! {

/// Status codes mirroring the firmware's stable status encoding.
#[derive(Clone, Copy, Debug, PartialEq, Eq, Structural)]
pub enum EfiStatus {
    Success,
    NotReady,
    InvalidParameter,
    Unsupported,
    DeviceError,
    BufferTooSmall,
    NotStarted,
    AccessDenied,
    NotFound,
    OutOfResources,
}

} // verus!
