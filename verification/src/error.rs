//! The error kinds carried end to end through the hypervisor core.

use vstd::prelude::*;

verus! {

/// Names of the host-kernel ioctl requests, used to report which one failed.
#[derive(Clone, Copy, Debug, PartialEq, Eq)]
pub enum NameIOCTL {
    GetVersion,
    CreateVM,
    GetMsrIndexList,
    CheckExtension,
    GetVcpuMmapSize,
    GetSupportedCpuID,
    SetCpuID2,
    CreateIRQChip,
    GetIRQChip,
    SetIRQChip,
    GetClock,
    SetClock,
    SetTssIdentity,
    SetTssAddr,
    SetUserMemoryRegion,
    EnableCap,
    CreateVcpu,
    GetSRegs,
    SetSRegs,
    GetRegs,
    SetRegs,
    GetMPState,
    SetMPState,
    GetMSRS,
    SetMSRS,
    GetFPU,
    SetFPU,
    GetLapic,
    SetLapic,
    GetVCPUEvents,
    SetVCPUEvents,
    GetXSave,
    SetXSave,
    GetXCRS,
    SetXCRS,
    SetSignalMask,
    IRQFD,
    Run,
}

/// Everything that can go wrong while building, running, checkpointing or
/// migrating a virtual machine.
#[derive(Clone, Debug, PartialEq, Eq)]
pub enum Error {
    InvalidFile(String),
    NotEnoughMemory,
    KernelNotLoaded,
    IOCTL(NameIOCTL),
    TranslationFault(u64),
    Protocol(String),
    KVMDebug,
    NetworkInterface,
    IRQFD,
    CAPIRQFD,
    NoCheckpointFile,
    InvalidCheckpoint,
    WriteCheckpoint,
    MigrationConnection,
    MigrationStream,
    UnsupportedMigrationType(String),
    VCPUStatesNotInitialized,
    ThreadError,
    MissingFrequency,
    ParseMemory,
}

} // verus!
