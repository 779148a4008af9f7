//! Typed errors for transaction construction, validation and dispatch,
//! and the mapping from raw OS error codes to them.

use vstd::prelude::*;

verus! {

/// Operation not permitted.
pub const EPERM: i32 = 1;
/// No such device or address: the slave did not acknowledge.
pub const ENXIO: i32 = 6;
/// Resource temporarily unavailable.
pub const EAGAIN: i32 = 11;
/// Permission denied.
pub const EACCES: i32 = 13;
/// Device or resource busy.
pub const EBUSY: i32 = 16;
/// No such device.
pub const ENODEV: i32 = 19;
/// Connection timed out.
pub const ETIMEDOUT: i32 = 110;
/// Remote I/O error: the adapter saw no device answer.
pub const EREMOTEIO: i32 = 121;

/// Every failure a caller can see, from construction through dispatch.
#[derive(Clone, Copy, Debug, PartialEq, Eq, Structural)]
pub enum Error {
    /// An operation's buffer is longer than the 8192-byte driver limit.
    LengthExceeded,
    /// A transaction holds no operation, or more than the 42 the driver takes.
    TooManyOperations,
    /// Opening the adapter's device node failed.
    DeviceUnavailable,
    /// The OS refused access to the adapter.
    PermissionDenied,
    /// No device acknowledged at the addressed slave.
    DeviceNotPresent,
    /// The adapter or the bus is busy.
    DeviceBusy,
    /// The adapter's own timeout elapsed.
    BusTimeout,
    /// Any other OS failure, with the raw error code kept for diagnostics.
    ProtocolError(i32),
}

/// The error a given OS error code maps to.
pub open spec fn spec_error_of_code(code: i32) -> Error {
    if code == EPERM || code == EACCES {
        Error::PermissionDenied
    } else if code == ENXIO || code == ENODEV || code == EREMOTEIO {
        Error::DeviceNotPresent
    } else if code == EBUSY || code == EAGAIN {
        Error::DeviceBusy
    } else if code == ETIMEDOUT {
        Error::BusTimeout
    } else {
        Error::ProtocolError(code)
    }
}

impl Error {
    /// Translates the raw error code of a failed OS call into a typed error.
    pub fn from_os_code(code: i32) -> (r: Error)
        ensures
            r == spec_error_of_code(code),
    {
        if code == EPERM || code == EACCES {
            Error::PermissionDenied
        } else if code == ENXIO || code == ENODEV || code == EREMOTEIO {
            Error::DeviceNotPresent
        } else if code == EBUSY || code == EAGAIN {
            Error::DeviceBusy
        } else if code == ETIMEDOUT {
            Error::BusTimeout
        } else {
            Error::ProtocolError(code)
        }
    }
}

} // verus!
