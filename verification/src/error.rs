//! Error types of the DRM subsystem.
use vstd::prelude::*;

verus! {

/// Error type for GPU device registry operations.
#[derive(Clone, Copy, PartialEq, Eq, Debug, Structural)]
pub enum Error {
    AlreadyRegistered,
    NotFound,
}

/// Errors reported by DRM object and KMS operations.
#[derive(Debug, Clone, Copy, PartialEq, Eq, Structural)]
pub enum DrmError {
    /// Generic invalid argument or state
    Invalid,
    /// Object not found (CRTC / FB / GEM handle / connector, etc.)
    NotFound,
    /// Operation not supported by this driver / device
    NotSupported,
    /// Resource temporarily unavailable (busy, in use)
    Busy,
    /// Permission or access violation
    PermissionDenied,
    /// Memory allocation or mapping failure
    NoMemory,
}

/// Error numbers reported to userspace by the DRM character device.
#[derive(Debug, Clone, Copy, PartialEq, Eq, Structural)]
pub enum Errno {
    EINVAL,
    ENOENT,
    ENODEV,
    EOVERFLOW,
    EACCES,
    EPERM,
    EOPNOTSUPP,
    ENOSYS,
    EFAULT,
    ENOMEM,
    EBUSY,
    ENONET,
    ENOSPC,
    ENOTTY,
    EAGAIN,
    EIO,
}

/// Errors of framebuffer memory accesses.
#[derive(Debug, Clone, Copy, PartialEq, Eq, Structural)]
pub enum FbError {
    /// An offset or length lies outside the buffer.
    InvalidArgs,
}

/// Why an ioctl of an open DRM file fails: an error number of the file
/// layer itself, or a DRM error passed on from the device.
#[derive(Debug, Clone, Copy, PartialEq, Eq, Structural)]
pub enum DrmFileError {
    Errno(Errno),
    Drm(DrmError),
}

} // verus!
