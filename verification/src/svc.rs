//! Kernel service queries: process handles and process-information codes.

use vstd::prelude::*;

verus! {

/// A kernel object handle.
pub type Handle = u32;

/// The pseudo-handle that always refers to the current process.
pub const CUR_PROCESS_HANDLE: Handle = 0xFFFF8001;

/// The handle of the calling process.
pub fn get_current_process() -> (h: Handle)
    ensures
        h == CUR_PROCESS_HANDLE,
{
    CUR_PROCESS_HANDLE
}

/// Which quantity a process-information query asks for.
#[derive(Debug, Clone, Copy, PartialEq, Eq)]
pub enum ProcessInfoType {
    TotalPhysicalMemory,
    _Mem1,
    _Mem2,
    _Mem3,
    NumHandles,
    HighestSimultaneousHandles,
    _KProcess0x234,
    NumThreads,
    MaxThreads,
    MemRegion,
    LinearMemoryOffset,
    QTMOffset,
    QTMBase,
    QTMSize,
}

impl ProcessInfoType {
    /// The numeric code the kernel call takes for this query. Codes 9
    /// through 18 are stubbed out by the system and have no variant.
    pub open spec fn code_spec(self) -> u32 {
        match self {
            ProcessInfoType::TotalPhysicalMemory => 0,
            ProcessInfoType::_Mem1 => 1,
            ProcessInfoType::_Mem2 => 2,
            ProcessInfoType::_Mem3 => 3,
            ProcessInfoType::NumHandles => 4,
            ProcessInfoType::HighestSimultaneousHandles => 5,
            ProcessInfoType::_KProcess0x234 => 6,
            ProcessInfoType::NumThreads => 7,
            ProcessInfoType::MaxThreads => 8,
            ProcessInfoType::MemRegion => 19,
            ProcessInfoType::LinearMemoryOffset => 20,
            ProcessInfoType::QTMOffset => 21,
            ProcessInfoType::QTMBase => 22,
            ProcessInfoType::QTMSize => 23,
        }
    }

    /// The numeric code as passed to the kernel call.
    pub fn code(self) -> (c: u32)
        ensures
            c == self.code_spec(),
    {
        match self {
            ProcessInfoType::TotalPhysicalMemory => 0,
            ProcessInfoType::_Mem1 => 1,
            ProcessInfoType::_Mem2 => 2,
            ProcessInfoType::_Mem3 => 3,
            ProcessInfoType::NumHandles => 4,
            ProcessInfoType::HighestSimultaneousHandles => 5,
            ProcessInfoType::_KProcess0x234 => 6,
            ProcessInfoType::NumThreads => 7,
            ProcessInfoType::MaxThreads => 8,
            ProcessInfoType::MemRegion => 19,
            ProcessInfoType::LinearMemoryOffset => 20,
            ProcessInfoType::QTMOffset => 21,
            ProcessInfoType::QTMBase => 22,
            ProcessInfoType::QTMSize => 23,
        }
    }
}

} // verus!
