use vstd::prelude::*;

verus! {

/// Errors surfaced by the filesystem services.
#[derive(Clone, Copy, Debug, PartialEq, Eq, Structural)]
pub enum FsError {
    /// A path component, directory entry or handle id is absent.
    NotFound,
    /// Malformed path, bad enum value, or an address below the shared base.
    InvalidArgs,
    /// Driver failure, bad-cluster sentinel, or unexpected end of a cluster chain.
    IoError,
    /// An on-disk structural invariant was violated.
    DeviceError,
    /// A caller-provided buffer is smaller than the required payload.
    MessageTooLong,
    /// The operation is not implemented by this engine.
    NotImplemented,
    /// The operation is declined by this engine.
    NotSupported,
    /// The caller may not perform this operation.
    PermissionDenied,
    /// A request arrived before initialisation completed.
    NotInitialized,
    /// An internal limitation was hit (for example a write into an unallocated block).
    InternalError,
}

impl FsError {
    /// Numeric code used in completion-queue entries, always positive.
    pub fn code(&self) -> (r: i32)
        ensures
            r == self.spec_code(),
            1 <= r <= 10,
    {
        match self {
            FsError::NotFound => 1,
            FsError::InvalidArgs => 2,
            FsError::IoError => 3,
            FsError::DeviceError => 4,
            FsError::MessageTooLong => 5,
            FsError::NotImplemented => 6,
            FsError::NotSupported => 7,
            FsError::PermissionDenied => 8,
            FsError::NotInitialized => 9,
            FsError::InternalError => 10,
        }
    }

    pub open spec fn spec_code(&self) -> i32 {
        match self {
            FsError::NotFound => 1,
            FsError::InvalidArgs => 2,
            FsError::IoError => 3,
            FsError::DeviceError => 4,
            FsError::MessageTooLong => 5,
            FsError::NotImplemented => 6,
            FsError::NotSupported => 7,
            FsError::PermissionDenied => 8,
            FsError::NotInitialized => 9,
            FsError::InternalError => 10,
        }
    }
}

} // verus!
