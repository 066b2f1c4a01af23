use vstd::prelude::*;

verus! {

/// Reasons a page-table mapping request is refused.
#[derive(Debug, Clone, Copy, PartialEq, Eq, Structural)]
pub enum MapError {
    /// The physical and virtual regions differ in size.
    SizeMismatch,
    /// A descriptor on the way already maps or points somewhere.
    AlreadyMapped,
    /// No last-level mapping exists for the address.
    NotL3Mapped,
}

/// Kernel-wide error type.
#[derive(Debug, Clone, Copy, PartialEq, Eq, Structural)]
pub enum KernelError {
    /// A page-table operation failed.
    Mapping(MapError),
    /// No memory (or no page-table frame) is left.
    NoMemory,
    /// A user-memory access faulted.
    Fault,
    /// The resource is already initialised or in use.
    InUse,
    /// The operation is not supported on this architecture.
    NotSupported,
    /// An argument is out of range.
    InvalidValue,
    /// No such device.
    NoDevice,
    /// Any other failure, described by its message.
    Other(ErrorMessage),
}

/// The failures that carry only a message.
#[derive(Debug, Clone, Copy, PartialEq, Eq, Structural)]
pub enum ErrorMessage {
    SchedGetAffinityNotImplemented,
    SchedSetAffinityNotImplemented,
    LapicTimerMapFailed,
    LapicTimerNoInterruptRoot,
    HpetNoInterruptRoot,
}

impl ErrorMessage {
    /// The message's text.
    pub fn text(&self) -> (r: &'static str)
        ensures
            r@ == match self {
                ErrorMessage::SchedGetAffinityNotImplemented => "sched_getaffinity not implemented"@,
                ErrorMessage::SchedSetAffinityNotImplemented => "sched_setaffinity not implemented"@,
                ErrorMessage::LapicTimerMapFailed => "Failed to map LAPIC timer MMIO"@,
                ErrorMessage::LapicTimerNoInterruptRoot => "LAPIC timer: no interrupt root"@,
                ErrorMessage::HpetNoInterruptRoot => "HPET: no interrupt root"@,
            },
    {
        match self {
            ErrorMessage::SchedGetAffinityNotImplemented => "sched_getaffinity not implemented",
            ErrorMessage::SchedSetAffinityNotImplemented => "sched_setaffinity not implemented",
            ErrorMessage::LapicTimerMapFailed => "Failed to map LAPIC timer MMIO",
            ErrorMessage::LapicTimerNoInterruptRoot => "LAPIC timer: no interrupt root",
            ErrorMessage::HpetNoInterruptRoot => "HPET: no interrupt root",
        }
    }
}

} // verus!
