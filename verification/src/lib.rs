//! A user-space hypervisor core for a lightweight unikernel: guest memory
//! layout, boot-time page tables and descriptor tables, the port-I/O
//! hypercall protocol, checkpoint and migration encodings, and the
//! decision logic of the run loop.

pub mod bytes;
pub mod checkpoint;
pub mod error;
pub mod gdt;
pub mod kvm;
pub mod mem;
pub mod elf;
pub mod migration;
pub mod net;
pub mod paging;
pub mod vm;
pub mod proto;
pub mod text;
pub mod utils;
