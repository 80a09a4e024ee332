use vstd::prelude::*;

verus! {

/// Failure taxonomy of the daemon's control plane.  Every fallible
/// operation of this crate returns one of these; the dispatch loop treats
/// each as a per-message failure and keeps running.
#[derive(Clone, Copy, Debug, PartialEq, Eq, Structural)]
pub enum Error {
    /// A fixed-capacity allocator has no free slot left.
    AllocationExhausted,
    /// A specific slot was requested but is already taken.
    AlreadyAllocated,
    /// A token, group or registration lookup missed.
    NotFound,
    /// A product id matches no known controller model.
    UnknownModel,
    /// Opening, reading, writing or controlling a device failed.
    DeviceIo,
    /// An event of an unexpected class reached a handler.
    ProtocolViolation,
    /// A device notification carried no usable device path.
    MissingPath,
}

} // verus!
