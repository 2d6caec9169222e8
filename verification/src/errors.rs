//! What goes wrong in a syscall and after a run.
use vstd::prelude::*;
use crate::relocatable::Relocatable;

verus! {

/// Why a state could not be read.
#[derive(Clone, Copy, Debug, PartialEq, Eq, Structural)]
pub enum StateError {
    /// Nothing is stored under the key.
    NoneStorage,
}

/// Why a syscall failed.
#[derive(Debug, PartialEq, Eq)]
pub enum SyscallHandlerError {
    /// No syscall has this name.
    UnknownSyscall(String),
    /// The request of an `emit_event` could not be read.
    InvalidSyscallReadRequest,
    /// A memory cell holds no integer.
    ExpectedInteger,
    /// A memory cell holds no address.
    ExpectedRelocatable,
    /// An integer does not fit in a `usize`.
    FeltToUsizeFail,
    /// A value could not be written to memory.
    SegmentationFault,
    ExpectedDeployRequestStruct,
    /// The flag of a `deploy` is neither zero nor one.
    DeployFromZero(usize),
    ExpectedCallContract,
    ExpectedGetCallerAddressRequest,
    ExpectedGetContractAddressRequest,
    ExpectedSendMessageToL1,
    StateError(StateError),
}

/// Why the checks after a run failed.
#[derive(Clone, Copy, Debug, PartialEq, Eq, Structural)]
pub enum ExecutionError {
    /// The machine has no size for a read-only segment.
    InvalidSegmentSize,
    /// The recorded size of a read-only segment is no integer.
    NotAnInt,
    /// A read-only segment has not the size it was made with.
    OutOfBound,
    /// The syscall pointer did not stop where it was expected: the expected address, then
    /// the one where it stopped.
    InvalidStopPointer(Relocatable, Relocatable),
    /// Addresses cannot be marked as accessed before the run has ended.
    RunNotFinished,
}

} // verus!
