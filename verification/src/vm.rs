//! The virtual machine: guest RAM layout, boot descriptor tables and page
//! tables, capability handling, and the checkpoint and shutdown logic.

use vstd::prelude::*;

use crate::bytes::{le64_val, lemma_le64_roundtrip, lemma_splice_index, splice, u64_le};
use crate::checkpoint::CheckpointConfig;
use crate::error::Error;
use crate::gdt;
use crate::kvm::{kvm_segment, kvm_sregs};
use crate::mem::{
    GuestMemory, BOOT_PDE, BOOT_PDPTE, BOOT_PML4, KVM_32BIT_GAP_SIZE, KVM_32BIT_GAP_START,
};
use crate::paging::{LARGE_PAGE_SIZE, PAGE_HUGE, PAGE_PRESENT, PAGE_WRITABLE};

verus! {

/// Protected-mode enable bit of `cr0`.
pub const X86_CR0_PE: u64 = 0x1;

/// Paging enable bit of `cr0`.
pub const X86_CR0_PG: u64 = 0x80000000;

/// Physical-address-extension bit of `cr4`.
pub const X86_CR4_PAE: u64 = 0x20;

/// Long-mode-enable bit of `efer`.
pub const EFER_LME: u64 = 0x100;

/// Long-mode-active bit of `efer`.
pub const EFER_LMA: u64 = 0x400;

/// The host-kernel capabilities the core cares about.
#[derive(Clone, Copy, Debug, PartialEq, Eq, Structural)]
pub struct KVMExtensions {
    pub cap_tsc_deadline: bool,
    pub cap_irqchip: bool,
    pub cap_adjust_clock_stable: bool,
    pub cap_irqfd: bool,
    pub cap_vapic: bool,
}

/// The run state shared between the main loop and the vCPU threads:
/// whether the guest is live, and whether a checkpoint or migration
/// freeze is in progress.
#[derive(Clone, Copy, Debug, PartialEq, Eq, Structural)]
pub struct ControlData {
    pub running: bool,
    pub interrupt: bool,
}

/// What one vCPU thread ended with.
#[derive(Debug, PartialEq, Eq)]
pub enum ExitCode {
    Cause(Result<i32, Error>),
    Innocent,
}

/// A signal the main loop reacts to.
#[derive(Clone, Copy, Debug, PartialEq, Eq, Structural)]
pub enum Signal {
    Int,
    Term,
    Usr1,
    Other,
}

/// The core state of one virtual machine.
pub struct VirtualMachine {
    pub mem: GuestMemory,
    pub elf_entry: Option<u64>,
    pub num_cpus: u32,
    pub checkpoint_num: u32,
    pub extensions: KVMExtensions,
    pub control: ControlData,
    pub full_checkpoint: bool,
    pub checkpoint_interval: u32,
    pub verbose: bool,
}

/// One memory slot handed to the host kernel.
#[derive(Clone, Copy, Debug, PartialEq, Eq, Structural)]
pub struct MemRegion {
    pub slot: u32,
    pub guest_phys_addr: u64,
    pub memory_size: u64,
    pub userspace_offset: u64,
}

/// The 64-bit entry read from the table at `table`, index `i`.
pub open spec fn entry_at(m: Seq<u8>, table: int, i: int) -> u64 {
    le64_val(m.subrange(table + 8 * i, table + 8 * i + 8))
}

impl VirtualMachine {
    /// Builds a machine with zeroed guest RAM of the given size and all
    /// counters at their start.
    pub fn new(
        mem_size: u64,
        num_cpus: u32,
        full_checkpoint: bool,
        checkpoint_interval: u32,
        verbose: bool,
    ) -> (r: VirtualMachine)
        requires
            mem_size + KVM_32BIT_GAP_START <= usize::MAX,
        ensures
            mem_size <= KVM_32BIT_GAP_START ==> r.mem@.len() == mem_size,
            mem_size > KVM_32BIT_GAP_START ==> r.mem@.len() == mem_size + KVM_32BIT_GAP_START,
            r.mem@ == crate::mem::zeros(r.mem@.len()),
            r.elf_entry is None,
            r.num_cpus == num_cpus,
            r.checkpoint_num == 0,
            r.control == (ControlData { running: false, interrupt: false }),
            r.full_checkpoint == full_checkpoint,
            r.checkpoint_interval == checkpoint_interval,
            r.verbose == verbose,
    {
        VirtualMachine {
            mem: GuestMemory::new(mem_size),
            elf_entry: None,
            num_cpus,
            checkpoint_num: 0,
            extensions: KVMExtensions {
                cap_tsc_deadline: false,
                cap_irqchip: false,
                cap_adjust_clock_stable: false,
                cap_irqfd: false,
                cap_vapic: false,
            },
            control: ControlData { running: false, interrupt: false },
            full_checkpoint,
            checkpoint_interval,
            verbose,
        }
    }

    pub fn is_running(&self) -> (r: bool)
        ensures
            r == self.control.running,
    {
        self.control.running
    }

    pub fn mem_size(&self) -> (r: u64)
        ensures
            r == self.mem@.len(),
    {
        self.mem.len()
    }

    /// Publishes the real CPU count in the boot info block just before
    /// the guest starts; the block held a provisional count of one until
    /// now.
    pub fn announce_cpus(&mut self, pstart: u64) -> (r: Result<(), Error>)
        requires
            pstart + 0x28 <= old(self).mem@.len(),
        ensures
            r is Ok,
            final(self).mem@ == crate::bytes::splice(
                old(self).mem@,
                pstart + 0x24,
                crate::bytes::u32_le(old(self).num_cpus),
            ),
            final(self).num_cpus == old(self).num_cpus,
            final(self).elf_entry == old(self).elf_entry,
            final(self).checkpoint_num == old(self).checkpoint_num,
            final(self).control == old(self).control,
    {
        let total = self.mem.len();
        let n = self.num_cpus;
        self.mem.write_u32(pstart + 0x24, n);
        Ok(())
    }

    /// The memory slots the guest RAM is registered under: one slot when
    /// the RAM ends below the MMIO gap, else one slot below the gap and
    /// one above the 32-bit space.
    pub fn memory_regions(&self) -> (r: Vec<MemRegion>)
        requires
            self.mem@.len() > KVM_32BIT_GAP_START ==> self.mem@.len() >= KVM_32BIT_GAP_START
                + KVM_32BIT_GAP_START,
        ensures
            self.mem@.len() <= KVM_32BIT_GAP_START ==> r@ =~= seq![
                MemRegion {
                    slot: 0,
                    guest_phys_addr: 0,
                    memory_size: self.mem@.len() as u64,
                    userspace_offset: 0,
                },
            ],
            self.mem@.len() > KVM_32BIT_GAP_START ==> r@ =~= seq![
                MemRegion {
                    slot: 0,
                    guest_phys_addr: 0,
                    memory_size: KVM_32BIT_GAP_START,
                    userspace_offset: 0,
                },
                MemRegion {
                    slot: 1,
                    guest_phys_addr: (KVM_32BIT_GAP_START + KVM_32BIT_GAP_SIZE) as u64,
                    memory_size: (self.mem@.len() - KVM_32BIT_GAP_SIZE
                        - KVM_32BIT_GAP_START) as u64,
                    userspace_offset: (KVM_32BIT_GAP_START + KVM_32BIT_GAP_SIZE) as u64,
                },
            ],
    {
        let len = self.mem.len();
        let mut r: Vec<MemRegion> = Vec::new();
        if len <= KVM_32BIT_GAP_START {
            r.push(
                MemRegion { slot: 0, guest_phys_addr: 0, memory_size: len, userspace_offset: 0 },
            );
        } else {
            r.push(
                MemRegion {
                    slot: 0,
                    guest_phys_addr: 0,
                    memory_size: KVM_32BIT_GAP_START,
                    userspace_offset: 0,
                },
            );
            r.push(
                MemRegion {
                    slot: 1,
                    guest_phys_addr: KVM_32BIT_GAP_START + KVM_32BIT_GAP_SIZE,
                    memory_size: len - KVM_32BIT_GAP_SIZE - KVM_32BIT_GAP_START,
                    userspace_offset: KVM_32BIT_GAP_START + KVM_32BIT_GAP_SIZE,
                },
            );
        }
        r
    }

    /// Accepts a capability probe: the machine cannot run without the
    /// interrupt eventfd capability.
    pub fn accept_extensions(&mut self, ext: KVMExtensions) -> (r: Result<(), Error>)
        ensures
            ext.cap_irqfd ==> r is Ok && final(self).extensions == ext,
            !ext.cap_irqfd ==> r == Err::<(), Error>(Error::CAPIRQFD),
            final(self).mem@ == old(self).mem@,
            final(self).checkpoint_num == old(self).checkpoint_num,
    {
        if !ext.cap_irqfd {
            return Err(Error::CAPIRQFD);
        }
        self.extensions = ext;
        Ok(())
    }

    /// The configuration a checkpoint taken now would carry.
    pub fn get_checkpoint_config(&self) -> (r: Result<CheckpointConfig, Error>)
        ensures
            match r {
                Ok(c) => self.elf_entry is Some && c == (CheckpointConfig {
                    num_cpus: self.num_cpus,
                    mem_size: self.mem@.len() as u64,
                    checkpoint_number: self.checkpoint_num,
                    elf_entry: self.elf_entry.unwrap(),
                    full: self.full_checkpoint,
                }),
                Err(e) => self.elf_entry is None && e == Error::KernelNotLoaded,
            },
    {
        match self.elf_entry {
            Some(entry) => Ok(
                CheckpointConfig {
                    num_cpus: self.num_cpus,
                    mem_size: self.mem.len(),
                    checkpoint_number: self.checkpoint_num,
                    elf_entry: entry,
                    full: self.full_checkpoint,
                },
            ),
            None => Err(Error::KernelNotLoaded),
        }
    }

    /// Finishes one checkpoint generation: the written configuration is
    /// handed back and the generation counter advances by one.
    pub fn complete_checkpoint(&mut self) -> (r: Result<CheckpointConfig, Error>)
        requires
            old(self).checkpoint_num < u32::MAX,
        ensures
            match r {
                Ok(c) => old(self).elf_entry is Some && c == (CheckpointConfig {
                    num_cpus: old(self).num_cpus,
                    mem_size: old(self).mem@.len() as u64,
                    checkpoint_number: old(self).checkpoint_num,
                    elf_entry: old(self).elf_entry.unwrap(),
                    full: old(self).full_checkpoint,
                }) && final(self).checkpoint_num == old(self).checkpoint_num + 1,
                Err(e) => old(self).elf_entry is None && e == Error::KernelNotLoaded
                    && final(self).checkpoint_num == old(self).checkpoint_num,
            },
            final(self).mem@ == old(self).mem@,
            final(self).control == old(self).control,
            final(self).num_cpus == old(self).num_cpus,
            final(self).elf_entry == old(self).elf_entry,
            final(self).full_checkpoint == old(self).full_checkpoint,
    {
        let cfg = match self.get_checkpoint_config() {
            Ok(c) => c,
            Err(e) => {
                return Err(e);
            },
        };
        self.checkpoint_num = self.checkpoint_num + 1;
        Ok(cfg)
    }

    /// Begins a checkpoint or migration freeze: every vCPU must reach the
    /// barrier before the snapshot work may start.
    pub fn begin_freeze(&mut self)
        ensures
            final(self).control.interrupt == true,
            final(self).control.running == old(self).control.running,
            final(self).mem@ == old(self).mem@,
            final(self).checkpoint_num == old(self).checkpoint_num,
            final(self).elf_entry == old(self).elf_entry,
            final(self).num_cpus == old(self).num_cpus,
            final(self).full_checkpoint == old(self).full_checkpoint,
    {
        self.control.interrupt = true;
    }

    /// Ends a freeze: the vCPUs run on after the second barrier arrival.
    pub fn end_freeze(&mut self)
        ensures
            final(self).control.interrupt == false,
            final(self).control.running == old(self).control.running,
            final(self).mem@ == old(self).mem@,
            final(self).checkpoint_num == old(self).checkpoint_num,
            final(self).elf_entry == old(self).elf_entry,
            final(self).num_cpus == old(self).num_cpus,
            final(self).full_checkpoint == old(self).full_checkpoint,
    {
        self.control.interrupt = false;
    }

    /// One whole checkpoint turn as the main loop performs it between the
    /// two barrier arrivals: the freeze flag is raised, the generation is
    /// completed, and the flag is dropped again, so the vCPUs run on.
    /// The host side sends the wake-up signal and waits on the barrier
    /// around this call.
    pub fn handle_checkpoint(&mut self) -> (r: Result<CheckpointConfig, Error>)
        requires
            old(self).checkpoint_num < u32::MAX,
        ensures
            final(self).control.interrupt == false,
            final(self).control.running == old(self).control.running,
            final(self).mem@ == old(self).mem@,
            final(self).num_cpus == old(self).num_cpus,
            final(self).elf_entry == old(self).elf_entry,
            final(self).full_checkpoint == old(self).full_checkpoint,
            match r {
                Ok(c) => old(self).elf_entry is Some && c == (CheckpointConfig {
                    num_cpus: old(self).num_cpus,
                    mem_size: old(self).mem@.len() as u64,
                    checkpoint_number: old(self).checkpoint_num,
                    elf_entry: old(self).elf_entry.unwrap(),
                    full: old(self).full_checkpoint,
                }) && final(self).checkpoint_num == old(self).checkpoint_num + 1,
                Err(e) => old(self).elf_entry is None && e == Error::KernelNotLoaded
                    && final(self).checkpoint_num == old(self).checkpoint_num,
            },
    {
        self.begin_freeze();
        let r = self.complete_checkpoint();
        self.end_freeze();
        r
    }

    /// Adopts a loaded checkpoint: the entry point is taken over and the
    /// next checkpoint generation follows the loaded one.
    pub fn adopt_checkpoint(&mut self, cfg: &CheckpointConfig)
        requires
            cfg.checkpoint_number < u32::MAX,
        ensures
            final(self).elf_entry == Some(cfg.elf_entry),
            final(self).checkpoint_num == cfg.checkpoint_number + 1,
            final(self).mem@ == old(self).mem@,
            final(self).num_cpus == old(self).num_cpus,
            final(self).full_checkpoint == old(self).full_checkpoint,
            final(self).control == old(self).control,
    {
        self.elf_entry = Some(cfg.elf_entry);
        self.checkpoint_num = cfg.checkpoint_number + 1;
    }

    /// What the main loop does with a signal: interrupt and terminate end
    /// the guest, the migration signal hands over to the migration path,
    /// anything else is ignored.
    pub fn handle_signal(sig: Signal) -> (r: bool)
        ensures
            r == !(sig == Signal::Int || sig == Signal::Term),
    {
        match sig {
            Signal::Int => false,
            Signal::Term => false,
            Signal::Usr1 => true,
            Signal::Other => true,
        }
    }

    /// Whether the periodic tick calls for a checkpoint.
    pub fn should_checkpoint(&self, tick: u32) -> (r: bool)
        ensures
            r == (self.checkpoint_interval > 0 && tick % self.checkpoint_interval == 0),
    {
        self.checkpoint_interval > 0 && tick % self.checkpoint_interval == 0
    }

    /// Joins the vCPU outcomes: a thread that failed makes the whole run
    /// report a thread error; clean exits and innocent threads do not.
    pub fn stop_result(results: &Vec<ExitCode>) -> (r: Result<(), Error>)
        ensures
            match r {
                Ok(_) => forall|i: int|
                    0 <= i < results@.len() ==> !(#[trigger] results@[i] matches ExitCode::Cause(
                        Err(_),
                    )),
                Err(e) => e == Error::ThreadError && exists|i: int|
                    0 <= i < results@.len() && (#[trigger] results@[i] matches ExitCode::Cause(
                        Err(_),
                    )),
            },
    {
        let n = results.len();
        let mut failed = false;
        let mut i: usize = 0;
        while i < n
            invariant
                i <= n,
                n == results@.len(),
                failed ==> exists|t: int|
                    0 <= t < i && (#[trigger] results@[t] matches ExitCode::Cause(Err(_))),
                !failed ==> forall|t: int|
                    0 <= t < i ==> !(#[trigger] results@[t] matches ExitCode::Cause(Err(_))),
            decreases n - i,
        {
            match &results[i] {
                ExitCode::Cause(res) => {
                    if res.is_err() {
                        failed = true;
                    }
                },
                ExitCode::Innocent => {},
            }
            i += 1;
        }
        if failed {
            Err(Error::ThreadError)
        } else {
            Ok(())
        }
    }
}

/// The 64-bit word stored at byte address `a`.
pub open spec fn le64_at(m: Seq<u8>, a: int) -> u64 {
    le64_val(m.subrange(a, a + 8))
}

/// The 32-bit word stored at byte address `a`.
pub open spec fn le32_at(m: Seq<u8>, a: int) -> u32 {
    crate::bytes::le32_val(m.subrange(a, a + 4))
}

/// The head of the boot info block: physical start, memory limit,
/// frequency, the provisional CPU count, the startup slot, the kernel
/// size, the node count and the hypervisor announcement.
#[verifier::rlimit(100)]
#[verifier::spinoff_prover]
fn write_boot_info_head(mem: &mut GuestMemory, pstart: u64, kernel_size: u64, freq_mhz: u32)
    requires
        pstart + 0x98 <= old(mem)@.len(),
    ensures
        final(mem)@.len() == old(mem)@.len(),
        le64_at(final(mem)@, pstart + 0x08) == pstart,
        le64_at(final(mem)@, pstart + 0x10) == old(mem)@.len() as u64,
        le32_at(final(mem)@, pstart + 0x18) == freq_mhz,
        le32_at(final(mem)@, pstart + 0x24) == 1,
        le32_at(final(mem)@, pstart + 0x30) == 0,
        le64_at(final(mem)@, pstart + 0x38) == kernel_size,
        le32_at(final(mem)@, pstart + 0x60) == 1,
        le32_at(final(mem)@, pstart + 0x94) == 1,
        forall|a: int|
            0 <= a < old(mem)@.len() && !(pstart + 0x08 <= a < pstart + 0x98) ==> final(mem)@[a]
                == old(mem)@[a],
{
    let total = mem.len();
    mem.write_u64(pstart + 0x08, pstart);
    mem.write_u64(pstart + 0x10, total);
    mem.write_u32(pstart + 0x18, freq_mhz);
    mem.write_u32(pstart + 0x24, 1);
    mem.write_u32(pstart + 0x30, 0);
    mem.write_u64(pstart + 0x38, kernel_size);
    mem.write_u32(pstart + 0x60, 1);
    mem.write_u32(pstart + 0x94, 1);
    proof {
        lemma_le64_roundtrip(pstart);
        lemma_le64_roundtrip(total as u64);
        lemma_le64_roundtrip(kernel_size);
        crate::bytes::lemma_le32_roundtrip(freq_mhz);
        crate::bytes::lemma_le32_roundtrip(1);
        crate::bytes::lemma_le32_roundtrip(0);
        assert(mem@.subrange(pstart + 0x08, pstart + 0x10) =~= u64_le(pstart));
        assert(mem@.subrange(pstart + 0x10, pstart + 0x18) =~= u64_le(total as u64));
        assert(mem@.subrange(pstart + 0x18, pstart + 0x1c) =~= crate::bytes::u32_le(freq_mhz));
        assert(mem@.subrange(pstart + 0x24, pstart + 0x28) =~= crate::bytes::u32_le(1));
        assert(mem@.subrange(pstart + 0x30, pstart + 0x34) =~= crate::bytes::u32_le(0));
        assert(mem@.subrange(pstart + 0x38, pstart + 0x40) =~= u64_le(kernel_size));
        assert(mem@.subrange(pstart + 0x60, pstart + 0x64) =~= crate::bytes::u32_le(1));
        assert(mem@.subrange(pstart + 0x94, pstart + 0x98) =~= crate::bytes::u32_le(1));
    }
}

/// Writes four address octets when they were given; otherwise memory
/// stays as it was.
fn write_opt_octets(mem: &mut GuestMemory, addr: u64, o: Option<(u8, u8, u8, u8)>)
    requires
        addr + 4 <= old(mem)@.len(),
    ensures
        final(mem)@.len() == old(mem)@.len(),
        match o {
            Some(v) => final(mem)@.subrange(addr as int, addr + 4) == seq![v.0, v.1, v.2, v.3],
            None => final(mem)@ == old(mem)@,
        },
        forall|a: int|
            0 <= a < old(mem)@.len() && !(addr <= a < addr + 4) ==> final(mem)@[a] == old(
                mem,
            )@[a],
{
    if let Some(v) = o {
        let mut buf: Vec<u8> = Vec::new();
        buf.push(v.0);
        buf.push(v.1);
        buf.push(v.2);
        buf.push(v.3);
        mem.write_bytes(addr, buf.as_slice());
        proof {
            lemma_splice_index(old(mem)@, addr as int, buf@);
            assert(mem@.subrange(addr as int, addr + 4) =~= seq![v.0, v.1, v.2, v.3]);
        }
    }
}

/// Writes the console port word when the run is verbose; otherwise
/// memory stays as it was.
fn write_opt_port(mem: &mut GuestMemory, addr: u64, verbose: bool)
    requires
        addr + 8 <= old(mem)@.len(),
    ensures
        final(mem)@.len() == old(mem)@.len(),
        verbose ==> le64_at(final(mem)@, addr as int) == crate::proto::PORT_UART as u64,
        !verbose ==> final(mem)@ == old(mem)@,
        forall|a: int|
            0 <= a < old(mem)@.len() && !(addr <= a < addr + 8) ==> final(mem)@[a] == old(
                mem,
            )@[a],
{
    if verbose {
        mem.write_u64(addr, crate::proto::PORT_UART as u64);
        proof {
            lemma_splice_index(
                old(mem)@,
                addr as int,
                u64_le(crate::proto::PORT_UART as u64),
            );
            lemma_le64_roundtrip(crate::proto::PORT_UART as u64);
            assert(mem@.subrange(addr as int, addr + 8) =~= u64_le(
                crate::proto::PORT_UART as u64,
            ));
        }
    }
}

/// Writes one 64-bit word.
fn write_word_at(mem: &mut GuestMemory, addr: u64, v: u64)
    requires
        addr + 8 <= old(mem)@.len(),
    ensures
        final(mem)@.len() == old(mem)@.len(),
        le64_at(final(mem)@, addr as int) == v,
        forall|a: int|
            0 <= a < old(mem)@.len() && !(addr <= a < addr + 8) ==> final(mem)@[a] == old(
                mem,
            )@[a],
{
    mem.write_u64(addr, v);
    proof {
        lemma_splice_index(old(mem)@, addr as int, u64_le(v));
        lemma_le64_roundtrip(v);
        assert(mem@.subrange(addr as int, addr + 8) =~= u64_le(v));
    }
}

/// Writes the boot info block at the start of the loaded kernel: the
/// physical start and memory limit, the CPU frequency, one provisional
/// CPU, one memory node, the hypervisor announcement, the console port
/// when the run is verbose, the optional network addresses, and the
/// host-side base of guest RAM.  Everything else in the block stays.
#[verifier::rlimit(100)]
#[verifier::spinoff_prover]
pub fn write_boot_info(
    mem: &mut GuestMemory,
    pstart: u64,
    kernel_size: u64,
    freq_mhz: u32,
    verbose: bool,
    ip: Option<(u8, u8, u8, u8)>,
    gateway: Option<(u8, u8, u8, u8)>,
    mask: Option<(u8, u8, u8, u8)>,
    host_base: u64,
) -> (r: Result<(), Error>)
    requires
        pstart + 0xc4 <= old(mem)@.len(),
    ensures
        r is Ok,
        final(mem)@.len() == old(mem)@.len(),
        le64_at(final(mem)@, pstart + 0x08) == pstart,
        le64_at(final(mem)@, pstart + 0x10) == old(mem)@.len() as u64,
        le32_at(final(mem)@, pstart + 0x18) == freq_mhz,
        le32_at(final(mem)@, pstart + 0x24) == 1,
        le32_at(final(mem)@, pstart + 0x30) == 0,
        le64_at(final(mem)@, pstart + 0x38) == kernel_size,
        le32_at(final(mem)@, pstart + 0x60) == 1,
        le32_at(final(mem)@, pstart + 0x94) == 1,
        verbose ==> le64_at(final(mem)@, pstart + 0x98) == crate::proto::PORT_UART as u64,
        !verbose ==> forall|a: int|
            pstart + 0x98 <= a < pstart + 0xa0 ==> final(mem)@[a] == old(mem)@[a],
        match ip {
            Some(o) => final(mem)@.subrange(pstart + 0xb0, pstart + 0xb4) == seq![
                o.0,
                o.1,
                o.2,
                o.3,
            ],
            None => final(mem)@.subrange(pstart + 0xb0, pstart + 0xb4) == old(mem)@.subrange(
                pstart + 0xb0,
                pstart + 0xb4,
            ),
        },
        match gateway {
            Some(o) => final(mem)@.subrange(pstart + 0xb4, pstart + 0xb8) == seq![
                o.0,
                o.1,
                o.2,
                o.3,
            ],
            None => final(mem)@.subrange(pstart + 0xb4, pstart + 0xb8) == old(mem)@.subrange(
                pstart + 0xb4,
                pstart + 0xb8,
            ),
        },
        match mask {
            Some(o) => final(mem)@.subrange(pstart + 0xb8, pstart + 0xbc) == seq![
                o.0,
                o.1,
                o.2,
                o.3,
            ],
            None => final(mem)@.subrange(pstart + 0xb8, pstart + 0xbc) == old(mem)@.subrange(
                pstart + 0xb8,
                pstart + 0xbc,
            ),
        },
        le64_at(final(mem)@, pstart + 0xbc) == host_base,
        forall|a: int|
            0 <= a < old(mem)@.len() && !(pstart + 0x08 <= a < pstart + 0xc4) ==> final(mem)@[a]
                == old(mem)@[a],
{
    let total = mem.len();
    write_boot_info_head(mem, pstart, kernel_size, freq_mhz);
    let ghost m1 = mem@;
    write_opt_port(mem, pstart + 0x98, verbose);
    proof {
        assert(mem@.subrange(pstart + 0x08, pstart + 0x10) =~= m1.subrange(pstart + 0x08, pstart + 0x10));
        assert(mem@.subrange(pstart + 0x10, pstart + 0x18) =~= m1.subrange(pstart + 0x10, pstart + 0x18));
        assert(mem@.subrange(pstart + 0x18, pstart + 0x1c) =~= m1.subrange(pstart + 0x18, pstart + 0x1c));
        assert(mem@.subrange(pstart + 0x24, pstart + 0x28) =~= m1.subrange(pstart + 0x24, pstart + 0x28));
        assert(mem@.subrange(pstart + 0x30, pstart + 0x34) =~= m1.subrange(pstart + 0x30, pstart + 0x34));
        assert(mem@.subrange(pstart + 0x38, pstart + 0x40) =~= m1.subrange(pstart + 0x38, pstart + 0x40));
        assert(mem@.subrange(pstart + 0x60, pstart + 0x64) =~= m1.subrange(pstart + 0x60, pstart + 0x64));
        assert(mem@.subrange(pstart + 0x94, pstart + 0x98) =~= m1.subrange(pstart + 0x94, pstart + 0x98));
    }
    let ghost m2 = mem@;
    write_opt_octets(mem, pstart + 0xb0, ip);
    proof {
        assert(mem@.subrange(pstart + 0x08, pstart + 0x10) =~= m2.subrange(pstart + 0x08, pstart + 0x10));
        assert(mem@.subrange(pstart + 0x10, pstart + 0x18) =~= m2.subrange(pstart + 0x10, pstart + 0x18));
        assert(mem@.subrange(pstart + 0x18, pstart + 0x1c) =~= m2.subrange(pstart + 0x18, pstart + 0x1c));
        assert(mem@.subrange(pstart + 0x24, pstart + 0x28) =~= m2.subrange(pstart + 0x24, pstart + 0x28));
        assert(mem@.subrange(pstart + 0x30, pstart + 0x34) =~= m2.subrange(pstart + 0x30, pstart + 0x34));
        assert(mem@.subrange(pstart + 0x38, pstart + 0x40) =~= m2.subrange(pstart + 0x38, pstart + 0x40));
        assert(mem@.subrange(pstart + 0x60, pstart + 0x64) =~= m2.subrange(pstart + 0x60, pstart + 0x64));
        assert(mem@.subrange(pstart + 0x94, pstart + 0x98) =~= m2.subrange(pstart + 0x94, pstart + 0x98));
        if verbose {
            assert(mem@.subrange(pstart + 0x98, pstart + 0xa0) =~= m2.subrange(
                pstart + 0x98,
                pstart + 0xa0,
            ));
        }
    }
    let ghost m3 = mem@;
    write_opt_octets(mem, pstart + 0xb4, gateway);
    proof {
        assert(mem@.subrange(pstart + 0x08, pstart + 0x10) =~= m3.subrange(pstart + 0x08, pstart + 0x10));
        assert(mem@.subrange(pstart + 0x10, pstart + 0x18) =~= m3.subrange(pstart + 0x10, pstart + 0x18));
        assert(mem@.subrange(pstart + 0x18, pstart + 0x1c) =~= m3.subrange(pstart + 0x18, pstart + 0x1c));
        assert(mem@.subrange(pstart + 0x24, pstart + 0x28) =~= m3.subrange(pstart + 0x24, pstart + 0x28));
        assert(mem@.subrange(pstart + 0x30, pstart + 0x34) =~= m3.subrange(pstart + 0x30, pstart + 0x34));
        assert(mem@.subrange(pstart + 0x38, pstart + 0x40) =~= m3.subrange(pstart + 0x38, pstart + 0x40));
        assert(mem@.subrange(pstart + 0x60, pstart + 0x64) =~= m3.subrange(pstart + 0x60, pstart + 0x64));
        assert(mem@.subrange(pstart + 0x94, pstart + 0x98) =~= m3.subrange(pstart + 0x94, pstart + 0x98));
        if verbose {
            assert(mem@.subrange(pstart + 0x98, pstart + 0xa0) =~= m3.subrange(
                pstart + 0x98,
                pstart + 0xa0,
            ));
        }
        if ip is Some {
            assert(mem@.subrange(pstart + 0xb0, pstart + 0xb4) =~= m3.subrange(
                pstart + 0xb0,
                pstart + 0xb4,
            ));
        }
    }
    let ghost m4 = mem@;
    write_opt_octets(mem, pstart + 0xb8, mask);
    proof {
        assert(mem@.subrange(pstart + 0x08, pstart + 0x10) =~= m4.subrange(pstart + 0x08, pstart + 0x10));
        assert(mem@.subrange(pstart + 0x10, pstart + 0x18) =~= m4.subrange(pstart + 0x10, pstart + 0x18));
        assert(mem@.subrange(pstart + 0x18, pstart + 0x1c) =~= m4.subrange(pstart + 0x18, pstart + 0x1c));
        assert(mem@.subrange(pstart + 0x24, pstart + 0x28) =~= m4.subrange(pstart + 0x24, pstart + 0x28));
        assert(mem@.subrange(pstart + 0x30, pstart + 0x34) =~= m4.subrange(pstart + 0x30, pstart + 0x34));
        assert(mem@.subrange(pstart + 0x38, pstart + 0x40) =~= m4.subrange(pstart + 0x38, pstart + 0x40));
        assert(mem@.subrange(pstart + 0x60, pstart + 0x64) =~= m4.subrange(pstart + 0x60, pstart + 0x64));
        assert(mem@.subrange(pstart + 0x94, pstart + 0x98) =~= m4.subrange(pstart + 0x94, pstart + 0x98));
        if verbose {
            assert(mem@.subrange(pstart + 0x98, pstart + 0xa0) =~= m4.subrange(
                pstart + 0x98,
                pstart + 0xa0,
            ));
        }
        if ip is Some {
            assert(mem@.subrange(pstart + 0xb0, pstart + 0xb4) =~= m4.subrange(
                pstart + 0xb0,
                pstart + 0xb4,
            ));
        }
        if gateway is Some {
            assert(mem@.subrange(pstart + 0xb4, pstart + 0xb8) =~= m4.subrange(
                pstart + 0xb4,
                pstart + 0xb8,
            ));
        }
    }
    let ghost m5 = mem@;
    write_word_at(mem, pstart + 0xbc, host_base);
    proof {
        assert(mem@.subrange(pstart + 0x08, pstart + 0x10) =~= m5.subrange(pstart + 0x08, pstart + 0x10));
        assert(mem@.subrange(pstart + 0x10, pstart + 0x18) =~= m5.subrange(pstart + 0x10, pstart + 0x18));
        assert(mem@.subrange(pstart + 0x18, pstart + 0x1c) =~= m5.subrange(pstart + 0x18, pstart + 0x1c));
        assert(mem@.subrange(pstart + 0x24, pstart + 0x28) =~= m5.subrange(pstart + 0x24, pstart + 0x28));
        assert(mem@.subrange(pstart + 0x30, pstart + 0x34) =~= m5.subrange(pstart + 0x30, pstart + 0x34));
        assert(mem@.subrange(pstart + 0x38, pstart + 0x40) =~= m5.subrange(pstart + 0x38, pstart + 0x40));
        assert(mem@.subrange(pstart + 0x60, pstart + 0x64) =~= m5.subrange(pstart + 0x60, pstart + 0x64));
        assert(mem@.subrange(pstart + 0x94, pstart + 0x98) =~= m5.subrange(pstart + 0x94, pstart + 0x98));
        if verbose {
            assert(mem@.subrange(pstart + 0x98, pstart + 0xa0) =~= m5.subrange(
                pstart + 0x98,
                pstart + 0xa0,
            ));
        }
        if ip is Some {
            assert(mem@.subrange(pstart + 0xb0, pstart + 0xb4) =~= m5.subrange(
                pstart + 0xb0,
                pstart + 0xb4,
            ));
        }
        if gateway is Some {
            assert(mem@.subrange(pstart + 0xb4, pstart + 0xb8) =~= m5.subrange(
                pstart + 0xb4,
                pstart + 0xb8,
            ));
        }
        if mask is Some {
            assert(mem@.subrange(pstart + 0xb8, pstart + 0xbc) =~= m5.subrange(
                pstart + 0xb8,
                pstart + 0xbc,
            ));
        }
        if ip is None {
            assert(mem@.subrange(pstart + 0xb0, pstart + 0xb4) =~= old(mem)@.subrange(
                pstart + 0xb0,
                pstart + 0xb4,
            ));
        }
        if gateway is None {
            assert(mem@.subrange(pstart + 0xb4, pstart + 0xb8) =~= old(mem)@.subrange(
                pstart + 0xb4,
                pstart + 0xb8,
            ));
        }
        if mask is None {
            assert(mem@.subrange(pstart + 0xb8, pstart + 0xbc) =~= old(mem)@.subrange(
                pstart + 0xb8,
                pstart + 0xbc,
            ));
        }
    }
    Ok(())
}

/// The flat code segment the guest boots with./// The flat code segment the guest boots with.
pub open spec fn code_segment() -> kvm_segment {
    kvm_segment {
        base: 0,
        limit: 0xffffffff,
        selector: 8,
        type_: 0xb,
        present: 1,
        dpl: 0,
        db: 0,
        s: 1,
        l: 1,
        g: 1,
        avl: 0,
        unusable: 0,
    }
}

/// The flat data segment the guest boots with.
pub open spec fn data_segment() -> kvm_segment {
    kvm_segment {
        base: 0,
        limit: 0xffffffff,
        selector: 16,
        type_: 0x3,
        present: 1,
        dpl: 0,
        db: 1,
        s: 1,
        l: 0,
        g: 1,
        avl: 0,
        unusable: 0,
    }
}

/// Writes the three boot descriptors at `offset` and projects the code
/// and data descriptors into the segment registers.
pub fn setup_system_gdt(mem: &mut GuestMemory, sregs: &mut kvm_sregs, offset: u64) -> (r: Result<
    (),
    Error,
>)
    requires
        offset + 24 <= old(mem)@.len(),
    ensures
        r is Ok,
        final(mem)@.len() == old(mem)@.len(),
        entry_at(final(mem)@, offset as int, 0) == 0,
        entry_at(final(mem)@, offset as int, 1) == gdt::descriptor(0xa09b, 0, 0xfffff),
        entry_at(final(mem)@, offset as int, 2) == gdt::descriptor(0xc093, 0, 0xfffff),
        forall|a: int|
            0 <= a < old(mem)@.len() && !(offset <= a < offset + 24) ==> final(mem)@[a] == old(mem)@[a],
        *final(sregs) == (kvm_sregs {
            gdt: (crate::kvm::kvm_dtable { base: offset, limit: 23 }),
            cs: code_segment(),
            ds: data_segment(),
            es: data_segment(),
            fs: data_segment(),
            gs: data_segment(),
            ss: data_segment(),
            ..*old(sregs)
        }),
{
    let total = mem.len();
    let gdt_null = gdt::Entry::new(0, 0, 0);
    let gdt_code = gdt::Entry::new(0xa09b, 0, 0xfffff);
    let gdt_data = gdt::Entry::new(0xc093, 0, 0xfffff);

    let ghost m0 = mem@;
    mem.write_u64(offset, gdt_null.as_u64());
    let ghost m1 = mem@;
    mem.write_u64(offset + 8, gdt_code.as_u64());
    let ghost m2 = mem@;
    mem.write_u64(offset + 16, gdt_data.as_u64());
    proof {
        assert(gdt::descriptor(0, 0, 0) == 0) by (bit_vector);
        lemma_splice_index(m0, offset as int, u64_le(gdt::descriptor(0, 0, 0)));
        lemma_splice_index(m1, offset + 8, u64_le(gdt::descriptor(0xa09b, 0, 0xfffff)));
        lemma_splice_index(m2, offset + 16, u64_le(gdt::descriptor(0xc093, 0, 0xfffff)));
        lemma_le64_roundtrip(0);
        lemma_le64_roundtrip(gdt::descriptor(0xa09b, 0, 0xfffff));
        lemma_le64_roundtrip(gdt::descriptor(0xc093, 0, 0xfffff));
        assert(mem@.subrange(offset as int, offset + 8) =~= u64_le(gdt::descriptor(0, 0, 0)));
        assert(mem@.subrange(offset + 8, offset + 16) =~= u64_le(
            gdt::descriptor(0xa09b, 0, 0xfffff),
        ));
        assert(mem@.subrange(offset + 16, offset + 24) =~= u64_le(
            gdt::descriptor(0xc093, 0, 0xfffff),
        ));
    }

    let mut code_seg = kvm_segment::default();
    let mut data_seg = kvm_segment::default();
    gdt_code.apply_to_kvm(gdt::BOOT_CODE, &mut code_seg);
    gdt_data.apply_to_kvm(gdt::BOOT_DATA, &mut data_seg);
    proof {
        assert(gdt::desc_base(gdt::descriptor(0xa09b, 0, 0xfffff)) == 0 && gdt::desc_limit(
            gdt::descriptor(0xa09b, 0, 0xfffff),
        ) == 0xfffff && ((gdt::descriptor(0xa09b, 0, 0xfffff) >> 55) & 1) == 1 && ((
        gdt::descriptor(0xa09b, 0, 0xfffff) >> 40) & 0xf) == 0xb && ((gdt::descriptor(
            0xa09b,
            0,
            0xfffff,
        ) >> 44) & 0x1) == 1 && ((gdt::descriptor(0xa09b, 0, 0xfffff) >> 45) & 0x3) == 0 && ((
        gdt::descriptor(0xa09b, 0, 0xfffff) >> 47) & 0x1) == 1 && ((gdt::descriptor(
            0xa09b,
            0,
            0xfffff,
        ) >> 52) & 0x1) == 0 && ((gdt::descriptor(0xa09b, 0, 0xfffff) >> 53) & 0x1) == 1 && ((
        gdt::descriptor(0xa09b, 0, 0xfffff) >> 54) & 0x1) == 0 && ((0xfffffu64 << 12) | 0xfff)
            == 0xffffffff) by (bit_vector);
        assert(gdt::desc_base(gdt::descriptor(0xc093, 0, 0xfffff)) == 0 && gdt::desc_limit(
            gdt::descriptor(0xc093, 0, 0xfffff),
        ) == 0xfffff && ((gdt::descriptor(0xc093, 0, 0xfffff) >> 55) & 1) == 1 && ((
        gdt::descriptor(0xc093, 0, 0xfffff) >> 40) & 0xf) == 0x3 && ((gdt::descriptor(
            0xc093,
            0,
            0xfffff,
        ) >> 44) & 0x1) == 1 && ((gdt::descriptor(0xc093, 0, 0xfffff) >> 45) & 0x3) == 0 && ((
        gdt::descriptor(0xc093, 0, 0xfffff) >> 47) & 0x1) == 1 && ((gdt::descriptor(
            0xc093,
            0,
            0xfffff,
        ) >> 52) & 0x1) == 0 && ((gdt::descriptor(0xc093, 0, 0xfffff) >> 53) & 0x1) == 0 && ((
        gdt::descriptor(0xc093, 0, 0xfffff) >> 54) & 0x1) == 1) by (bit_vector);
        assert(code_seg == code_segment());
        assert(data_seg == data_segment());
    }

    sregs.gdt.base = offset;
    sregs.gdt.limit = 23;
    sregs.cs = code_seg;
    sregs.ds = data_seg;
    sregs.es = data_seg;
    sregs.fs = data_seg;
    sregs.gs = data_seg;
    sregs.ss = data_seg;

    Ok(())
}

/// Builds the identity-mapped boot page tables: the first table points at
/// the second, and the second maps every large page below `GUEST_SIZE` as
/// present, writable and huge.  The control registers turn paging on.
#[verifier::rlimit(100)]
#[verifier::spinoff_prover]
pub fn setup_system_page_tables(mem: &mut GuestMemory, sregs: &mut kvm_sregs) -> (r: Result<
    (),
    Error,
>)
    requires
        BOOT_PDE + 0x1000 <= old(mem)@.len(),
    ensures
        r is Ok,
        final(mem)@.len() == old(mem)@.len(),
        entry_at(final(mem)@, BOOT_PML4 as int, 0) == BOOT_PDPTE | (PAGE_PRESENT
            | PAGE_WRITABLE),
        forall|i: int|
            1 <= i < 512 ==> entry_at(final(mem)@, BOOT_PML4 as int, i) == 0,
        forall|i: int|
            0 <= i < 256 ==> entry_at(final(mem)@, BOOT_PDPTE as int, i) == (i
                * LARGE_PAGE_SIZE) as u64 | (PAGE_PRESENT | PAGE_WRITABLE | PAGE_HUGE),
        forall|i: int|
            256 <= i < 512 ==> entry_at(final(mem)@, BOOT_PDPTE as int, i) == 0,
        forall|a: int|
            0 <= a < old(mem)@.len() && !(BOOT_PML4 <= a < BOOT_PDE + 0x1000) ==> final(mem)@[a] == old(mem)@[a],
        *final(sregs) == (kvm_sregs {
            cr3: BOOT_PML4,
            cr4: old(sregs).cr4 | X86_CR4_PAE,
            cr0: old(sregs).cr0 | X86_CR0_PG,
            ..*old(sregs)
        }),
{
    mem.zero_fill(BOOT_PML4, 0x3000);
    let ghost m0 = mem@;
    proof {
        lemma_splice_index(old(mem)@, BOOT_PML4 as int, crate::mem::zeros(0x3000));
    }
    mem.write_u64(BOOT_PML4, BOOT_PDPTE | (PAGE_PRESENT | PAGE_WRITABLE));
    proof {
        lemma_splice_index(m0, BOOT_PML4 as int, u64_le(
            BOOT_PDPTE | (PAGE_PRESENT | PAGE_WRITABLE),
        ));
        lemma_le64_roundtrip(BOOT_PDPTE | (PAGE_PRESENT | PAGE_WRITABLE));
        assert(mem@.subrange(BOOT_PML4 as int, BOOT_PML4 + 8) =~= u64_le(
            BOOT_PDPTE | (PAGE_PRESENT | PAGE_WRITABLE),
        ));
    }
    let ghost m1 = mem@;

    let mut i: u64 = 0;
    while i < 256
        invariant
            i <= 256,
            mem@.len() == old(mem)@.len(),
            BOOT_PDE + 0x1000 <= mem@.len(),
            mem@.subrange(BOOT_PML4 as int, BOOT_PML4 + 8) == u64_le(
                BOOT_PDPTE | (PAGE_PRESENT | PAGE_WRITABLE),
            ),
            forall|a: int|
                BOOT_PML4 + 8 <= a < BOOT_PDPTE ==> #[trigger] mem@[a] == 0,
            forall|t: int|
                0 <= t < i ==> #[trigger] entry_at(mem@, BOOT_PDPTE as int, t) == (t
                    * LARGE_PAGE_SIZE) as u64 | (PAGE_PRESENT | PAGE_WRITABLE | PAGE_HUGE),
            forall|a: int|
                BOOT_PDPTE + 8 * i <= a < BOOT_PDE + 0x1000 ==> #[trigger] mem@[a] == 0,
            forall|a: int|
                0 <= a < mem@.len() && !(BOOT_PML4 <= a < BOOT_PDE + 0x1000) ==> mem@[a] == old(mem)@[a],
        decreases 256 - i,
    {
        let ghost mprev = mem@;
        let e: u64 = (i * LARGE_PAGE_SIZE) | (PAGE_PRESENT | PAGE_WRITABLE | PAGE_HUGE);
        mem.write_u64(BOOT_PDPTE + 8 * i, e);
        proof {
            lemma_splice_index(mprev, BOOT_PDPTE + 8 * i, u64_le(e));
            assert(mem@.subrange(BOOT_PML4 as int, BOOT_PML4 + 8) =~= mprev.subrange(
                BOOT_PML4 as int,
                BOOT_PML4 + 8,
            ));
            assert forall|t: int| 0 <= t < i + 1 implies #[trigger] entry_at(
                mem@,
                BOOT_PDPTE as int,
                t,
            ) == (t * LARGE_PAGE_SIZE) as u64 | (PAGE_PRESENT | PAGE_WRITABLE | PAGE_HUGE) by {
                if t < i {
                    assert(entry_at(mprev, BOOT_PDPTE as int, t) == (t * LARGE_PAGE_SIZE) as u64
                        | (PAGE_PRESENT | PAGE_WRITABLE | PAGE_HUGE));
                    assert(mem@.subrange(BOOT_PDPTE + 8 * t, BOOT_PDPTE + 8 * t + 8)
                        =~= mprev.subrange(BOOT_PDPTE + 8 * t, BOOT_PDPTE + 8 * t + 8));
                } else {
                    assert(mem@.subrange(BOOT_PDPTE + 8 * t, BOOT_PDPTE + 8 * t + 8) =~= u64_le(
                        e,
                    ));
                    lemma_le64_roundtrip(e);
                    assert(e == (t * LARGE_PAGE_SIZE) as u64 | (PAGE_PRESENT | PAGE_WRITABLE
                        | PAGE_HUGE));
                }
            }
        }
        i += 1;
    }

    proof {
        lemma_le64_roundtrip(BOOT_PDPTE | (PAGE_PRESENT | PAGE_WRITABLE));
        assert forall|t: int| 1 <= t < 512 implies entry_at(mem@, BOOT_PML4 as int, t) == 0 by {
            lemma_le64_zero(mem@.subrange(BOOT_PML4 + 8 * t, BOOT_PML4 + 8 * t + 8));
        }
        assert forall|t: int| 256 <= t < 512 implies entry_at(mem@, BOOT_PDPTE as int, t)
            == 0 by {
            lemma_le64_zero(mem@.subrange(BOOT_PDPTE + 8 * t, BOOT_PDPTE + 8 * t + 8));
        }
    }

    sregs.cr3 = BOOT_PML4;
    sregs.cr4 = sregs.cr4 | X86_CR4_PAE;
    sregs.cr0 = sregs.cr0 | X86_CR0_PG;

    Ok(())
}

/// Eight zero bytes read back as the zero word.
proof fn lemma_le64_zero(s: Seq<u8>)
    requires
        s.len() == 8,
        forall|i: int| 0 <= i < 8 ==> #[trigger] s[i] == 0,
    ensures
        le64_val(s) == 0,
{
    crate::bytes::lemma_le64_roundtrip(0);
    assert((0u64 & 0xff) == 0 && ((0u64 >> 8) & 0xff) == 0 && ((0u64 >> 16) & 0xff) == 0 && ((
    0u64 >> 24) & 0xff) == 0 && ((0u64 >> 32) & 0xff) == 0 && ((0u64 >> 40) & 0xff) == 0 && ((
    0u64 >> 48) & 0xff) == 0 && ((0u64 >> 56) & 0xff) == 0) by (bit_vector);
    assert(s =~= u64_le(0));
}

/// Turns on long mode: protected mode, physical address extension, and
/// the long-mode bits of the extended feature register.
pub fn setup_system_64bit(sregs: &mut kvm_sregs) -> (r: Result<(), Error>)
    ensures
        r is Ok,
        *final(sregs) == (kvm_sregs {
            cr0: old(sregs).cr0 | X86_CR0_PE,
            cr4: old(sregs).cr4 | X86_CR4_PAE,
            efer: old(sregs).efer | (EFER_LME | EFER_LMA),
            ..*old(sregs)
        }),
{
    sregs.cr0 = sregs.cr0 | X86_CR0_PE;
    sregs.cr4 = sregs.cr4 | X86_CR4_PAE;
    sregs.efer = sregs.efer | (EFER_LME | EFER_LMA);
    Ok(())
}

/// After a restored or freshly checkpointed machine writes its next
/// checkpoint, the configuration text is the same as the one the source
/// machine would write next: restoring loses nothing that the checkpoint
/// text carries.
pub proof fn lemma_checkpoint_restore_checkpoint(
    src: VirtualMachine,
    dst: VirtualMachine,
    cfg: CheckpointConfig,
)
    requires
        src.elf_entry is Some,
        src.checkpoint_num < u32::MAX,
        cfg == (CheckpointConfig {
            num_cpus: src.num_cpus,
            mem_size: src.mem@.len() as u64,
            checkpoint_number: src.checkpoint_num,
            elf_entry: src.elf_entry.unwrap(),
            full: src.full_checkpoint,
        }),
        dst.elf_entry == Some(cfg.elf_entry),
        dst.checkpoint_num == cfg.checkpoint_number + 1,
        dst.num_cpus == src.num_cpus,
        dst.mem@.len() == src.mem@.len(),
        dst.full_checkpoint == src.full_checkpoint,
    ensures
        crate::checkpoint::config_text(
            CheckpointConfig {
                num_cpus: dst.num_cpus,
                mem_size: dst.mem@.len() as u64,
                checkpoint_number: dst.checkpoint_num,
                elf_entry: dst.elf_entry.unwrap(),
                full: dst.full_checkpoint,
            },
        ) == crate::checkpoint::config_text(
            CheckpointConfig {
                num_cpus: src.num_cpus,
                mem_size: src.mem@.len() as u64,
                checkpoint_number: (src.checkpoint_num + 1) as u32,
                elf_entry: src.elf_entry.unwrap(),
                full: src.full_checkpoint,
            },
        ),
{
}

} // verus!
// The snapshot side of checkpointing: walking the guest's own page
// tables for the pages worth recording.

verus! {

/// The flag that marks a page worth recording: the dirty bit once an
/// incremental run is past its first generation, else the accessed bit.
pub open spec fn scan_witness(full: bool, checkpoint_num: u32) -> u64 {
    if !full && checkpoint_num > 0 {
        crate::paging::PAGE_DIRTY
    } else {
        crate::paging::PAGE_ACCESSED
    }
}

/// The entries and page bytes of a run of records, as plain values.
pub open spec fn record_views(rs: Seq<crate::checkpoint::PageRecord>) -> Seq<(u64, Seq<u8>)> {
    Seq::new(rs.len(), |i: int| (rs[i].entry, rs[i].data@))
}

/// One recorded leaf: on an incremental snapshot the live entry loses
/// its dirty and accessed bits first and the cleared value is what the
/// record carries; the huge bit is cleared on the copy of a small-page
/// entry; the page bytes are read as the memory then stands; a page that
/// leaves guest RAM yields no record.
pub open spec fn scan_leaf(m: Seq<u8>, e_addr: int, e: u64, full: bool, huge: bool) -> (
    Seq<(u64, Seq<u8>)>,
    Seq<u8>,
) {
    let cleared = e & !(crate::paging::PAGE_DIRTY | crate::paging::PAGE_ACCESSED);
    let kept = if full {
        e
    } else {
        cleared
    };
    let rec_entry = if huge {
        kept
    } else {
        kept & !crate::paging::PAGE_HUGE
    };
    let size: int = if huge {
        LARGE_PAGE_SIZE as int
    } else {
        crate::paging::BASE_PAGE_SIZE as int
    };
    let m1 = if full {
        m
    } else {
        crate::bytes::splice(m, e_addr, crate::bytes::u64_le(cleared))
    };
    let a = (e & crate::paging::PAGE_ADDR_MASK) as int;
    if a + size <= m1.len() {
        (seq![(rec_entry, m1.subrange(a, a + size))], m1)
    } else {
        (Seq::empty(), m1)
    }
}

/// The walk over the first `n` entries of one page table: each present
/// entry that carries the witness yields a leaf record.
pub open spec fn scan_l1(m: Seq<u8>, pgt: int, n: int, w: u64, full: bool) -> (
    Seq<(u64, Seq<u8>)>,
    Seq<u8>,
)
    decreases n,
{
    if n <= 0 {
        (Seq::empty(), m)
    } else {
        let prev = scan_l1(m, pgt, n - 1, w, full);
        let e = entry_at(prev.1, pgt, n - 1);
        if e & (crate::paging::PAGE_PRESENT | w) == (crate::paging::PAGE_PRESENT | w) {
            let step = scan_leaf(prev.1, pgt + 8 * (n - 1), e, full, false);
            (prev.0 + step.0, step.1)
        } else {
            prev
        }
    }
}

/// The walk over the first `n` entries of one page directory: a present
/// huge entry with the witness is a large-page leaf; a present plain
/// entry whose table lies in guest RAM is walked; anything else is
/// passed over.
pub open spec fn scan_l2(m: Seq<u8>, pgd: int, n: int, w: u64, full: bool) -> (
    Seq<(u64, Seq<u8>)>,
    Seq<u8>,
)
    decreases n,
{
    if n <= 0 {
        (Seq::empty(), m)
    } else {
        let prev = scan_l2(m, pgd, n - 1, w, full);
        let e = entry_at(prev.1, pgd, n - 1);
        if e & crate::paging::PAGE_PRESENT == 0 {
            prev
        } else if e & crate::paging::PAGE_HUGE != 0 {
            if e & w == w {
                let step = scan_leaf(prev.1, pgd + 8 * (n - 1), e, full, true);
                (prev.0 + step.0, step.1)
            } else {
                prev
            }
        } else {
            let t = (e & crate::paging::PAGE_ADDR_MASK) as int;
            if t + 0x1000 <= prev.1.len() {
                let sub = scan_l1(prev.1, t, 512, w, full);
                (prev.0 + sub.0, sub.1)
            } else {
                prev
            }
        }
    }
}

/// The walk over the first `n` entries of one directory-pointer table.
pub open spec fn scan_l3(m: Seq<u8>, pdpt: int, n: int, w: u64, full: bool) -> (
    Seq<(u64, Seq<u8>)>,
    Seq<u8>,
)
    decreases n,
{
    if n <= 0 {
        (Seq::empty(), m)
    } else {
        let prev = scan_l3(m, pdpt, n - 1, w, full);
        let e = entry_at(prev.1, pdpt, n - 1);
        if e & crate::paging::PAGE_PRESENT == 0 {
            prev
        } else {
            let t = (e & crate::paging::PAGE_ADDR_MASK) as int;
            if t + 0x1000 <= prev.1.len() {
                let sub = scan_l2(prev.1, t, 512, w, full);
                (prev.0 + sub.0, sub.1)
            } else {
                prev
            }
        }
    }
}

/// The walk over the first `n` entries of the root table.
pub open spec fn scan_l4(m: Seq<u8>, root: int, n: int, w: u64, full: bool) -> (
    Seq<(u64, Seq<u8>)>,
    Seq<u8>,
)
    decreases n,
{
    if n <= 0 {
        (Seq::empty(), m)
    } else {
        let prev = scan_l4(m, root, n - 1, w, full);
        let e = entry_at(prev.1, root, n - 1);
        if e & crate::paging::PAGE_PRESENT == 0 {
            prev
        } else {
            let t = (e & crate::paging::PAGE_ADDR_MASK) as int;
            if t + 0x1000 <= prev.1.len() {
                let sub = scan_l3(prev.1, t, 512, w, full);
                (prev.0 + sub.0, sub.1)
            } else {
                prev
            }
        }
    }
}

/// The whole snapshot walk from the root table.
pub open spec fn scan_spec(m: Seq<u8>, root: int, w: u64, full: bool) -> (
    Seq<(u64, Seq<u8>)>,
    Seq<u8>,
) {
    scan_l4(m, root, 512, w, full)
}

impl VirtualMachine {
    /// Walks the guest's page tables, starting at the table one page
    /// above the kernel entry, and records every mapped leaf page whose
    /// entry carries the witness flag: the accessed bit for a full
    /// snapshot, the dirty bit for an incremental one past its first
    /// generation.  On incremental snapshots the dirty and accessed bits
    /// of recorded entries are cleared, and the record carries the
    /// cleared entry, so the next generation records only fresh writes.
    /// An entry whose table or page leaves guest RAM is passed over; a
    /// root table outside guest RAM refuses the snapshot with nothing
    /// changed.
    pub fn scan_page_tables(&mut self) -> (r: Result<Vec<crate::checkpoint::PageRecord>, Error>)
        ensures
            final(self).mem@.len() == old(self).mem@.len(),
            final(self).elf_entry == old(self).elf_entry,
            final(self).checkpoint_num == old(self).checkpoint_num,
            final(self).num_cpus == old(self).num_cpus,
            final(self).control == old(self).control,
            final(self).full_checkpoint == old(self).full_checkpoint,
            match r {
                Ok(rs) => {
                    let root = old(self).elf_entry.unwrap()
                        + crate::paging::BASE_PAGE_SIZE;
                    let walk = scan_spec(
                        old(self).mem@,
                        root as int,
                        scan_witness(old(self).full_checkpoint, old(self).checkpoint_num),
                        old(self).full_checkpoint,
                    );
                    &&& old(self).elf_entry is Some
                    &&& root + 0x1000 <= old(self).mem@.len()
                    &&& record_views(rs@) == walk.0
                    &&& final(self).mem@ == walk.1
                    &&& forall|i: int| 0 <= i < rs@.len() ==> (#[trigger] rs@[i]).wf()
                },
                Err(e) => {
                    &&& final(self).mem@ == old(self).mem@
                    &&& (e == Error::KernelNotLoaded <==> old(self).elf_entry is None)
                    &&& (e == Error::WriteCheckpoint <==> old(self).elf_entry is Some && old(
                        self,
                    ).elf_entry.unwrap() + crate::paging::BASE_PAGE_SIZE + 0x1000 > old(
                        self,
                    ).mem@.len())
                    &&& (e == Error::KernelNotLoaded || e == Error::WriteCheckpoint)
                },
            },
    {
        let entry = match self.elf_entry {
            Some(e) => e,
            None => {
                return Err(Error::KernelNotLoaded);
            },
        };
        let total = self.mem.len();
        if entry > u64::MAX - crate::paging::BASE_PAGE_SIZE {
            return Err(Error::WriteCheckpoint);
        }
        let root = entry + crate::paging::BASE_PAGE_SIZE;
        if root > u64::MAX - 0x1000 || root + 0x1000 > total {
            return Err(Error::WriteCheckpoint);
        }
        let full = self.full_checkpoint;
        let w: u64 = if !full && self.checkpoint_num > 0 {
            crate::paging::PAGE_DIRTY
        } else {
            crate::paging::PAGE_ACCESSED
        };
        let ghost m0 = self.mem@;
        let mut records: Vec<crate::checkpoint::PageRecord> = Vec::new();
        proof {
            assert(record_views(records@) =~= Seq::<(u64, Seq<u8>)>::empty());
        }
        let mut i4: u64 = 0;
        while i4 < 512
            invariant
                i4 <= 512,
                self.mem@.len() == old(self).mem@.len(),
                total == self.mem@.len(),
                root + 0x1000 <= self.mem@.len(),
                m0 == old(self).mem@,
                full == self.full_checkpoint,
                self.elf_entry == old(self).elf_entry,
                self.checkpoint_num == old(self).checkpoint_num,
                self.num_cpus == old(self).num_cpus,
                self.control == old(self).control,
                self.full_checkpoint == old(self).full_checkpoint,
                record_views(records@) == scan_l4(m0, root as int, i4 as int, w, full).0,
                self.mem@ == scan_l4(m0, root as int, i4 as int, w, full).1,
                forall|t: int| 0 <= t < records@.len() ==> (#[trigger] records@[t]).wf(),
            decreases 512 - i4,
        {
            let e4 = self.mem.read_u64(root + 8 * i4);
            let ghost rs_before = record_views(records@);
            let ghost m_before = self.mem@;
            if e4 & crate::paging::PAGE_PRESENT != 0 {
                let pdpt = e4 & crate::paging::PAGE_ADDR_MASK;
                if pdpt <= u64::MAX - 0x1000 && pdpt + 0x1000 <= total {
                    self.walk_l3(&mut records, pdpt, w);
                    proof {
                        assert(record_views(records@) =~= rs_before + scan_l3(
                            m_before,
                            pdpt as int,
                            512,
                            w,
                            full,
                        ).0);
                    }
                }
            }
            proof {
                assert(record_views(records@) == scan_l4(m0, root as int, i4 + 1, w, full).0
                    && self.mem@ == scan_l4(m0, root as int, i4 + 1, w, full).1);
            }
            i4 = i4 + 1;
        }
        Ok(records)
    }

    /// Walks one directory-pointer table.
    fn walk_l3(&mut self, records: &mut Vec<crate::checkpoint::PageRecord>, pdpt: u64, w: u64)
        requires
            pdpt + 0x1000 <= old(self).mem@.len(),
            forall|t: int|
                0 <= t < old(records)@.len() ==> (#[trigger] old(records)@[t]).wf(),
        ensures
            final(self).mem@.len() == old(self).mem@.len(),
            final(self).elf_entry == old(self).elf_entry,
            final(self).checkpoint_num == old(self).checkpoint_num,
            final(self).num_cpus == old(self).num_cpus,
            final(self).control == old(self).control,
            final(self).full_checkpoint == old(self).full_checkpoint,
            record_views(final(records)@) == record_views(old(records)@) + scan_l3(
                old(self).mem@,
                pdpt as int,
                512,
                w,
                old(self).full_checkpoint,
            ).0,
            final(self).mem@ == scan_l3(
                old(self).mem@,
                pdpt as int,
                512,
                w,
                old(self).full_checkpoint,
            ).1,
            forall|t: int|
                0 <= t < final(records)@.len() ==> (#[trigger] final(records)@[t]).wf(),
    {
        let total = self.mem.len();
        let full = self.full_checkpoint;
        let ghost m0 = self.mem@;
        let ghost rs0 = record_views(records@);
        let mut i: u64 = 0;
        proof {
            assert(record_views(records@) =~= rs0 + scan_l3(m0, pdpt as int, 0, w, full).0);
        }
        while i < 512
            invariant
                i <= 512,
                self.mem@.len() == old(self).mem@.len(),
                total == self.mem@.len(),
                pdpt + 0x1000 <= self.mem@.len(),
                m0 == old(self).mem@,
                rs0 == record_views(old(records)@),
                full == self.full_checkpoint,
                self.elf_entry == old(self).elf_entry,
                self.checkpoint_num == old(self).checkpoint_num,
                self.num_cpus == old(self).num_cpus,
                self.control == old(self).control,
                self.full_checkpoint == old(self).full_checkpoint,
                record_views(records@) == rs0 + scan_l3(m0, pdpt as int, i as int, w, full).0,
                self.mem@ == scan_l3(m0, pdpt as int, i as int, w, full).1,
                forall|t: int| 0 <= t < records@.len() ==> (#[trigger] records@[t]).wf(),
            decreases 512 - i,
        {
            let e = self.mem.read_u64(pdpt + 8 * i);
            let ghost rs_before = record_views(records@);
            let ghost m_before = self.mem@;
            if e & crate::paging::PAGE_PRESENT != 0 {
                let pgd = e & crate::paging::PAGE_ADDR_MASK;
                if pgd <= u64::MAX - 0x1000 && pgd + 0x1000 <= total {
                    self.walk_l2(records, pgd, w);
                    proof {
                        assert(record_views(records@) =~= rs_before + scan_l2(
                            m_before,
                            pgd as int,
                            512,
                            w,
                            full,
                        ).0);
                        assert(rs_before + scan_l2(m_before, pgd as int, 512, w, full).0 =~= rs0
                            + (scan_l3(m0, pdpt as int, i as int, w, full).0 + scan_l2(
                            m_before,
                            pgd as int,
                            512,
                            w,
                            full,
                        ).0));
                    }
                }
            }
            proof {
                assert(record_views(records@) == rs0 + scan_l3(m0, pdpt as int, i + 1, w, full).0
                    && self.mem@ == scan_l3(m0, pdpt as int, i + 1, w, full).1);
            }
            i = i + 1;
        }
    }

    /// Walks one page directory: huge leaves are recorded here, plain
    /// entries descend into their page table.
    fn walk_l2(&mut self, records: &mut Vec<crate::checkpoint::PageRecord>, pgd: u64, w: u64)
        requires
            pgd + 0x1000 <= old(self).mem@.len(),
            forall|t: int|
                0 <= t < old(records)@.len() ==> (#[trigger] old(records)@[t]).wf(),
        ensures
            final(self).mem@.len() == old(self).mem@.len(),
            final(self).elf_entry == old(self).elf_entry,
            final(self).checkpoint_num == old(self).checkpoint_num,
            final(self).num_cpus == old(self).num_cpus,
            final(self).control == old(self).control,
            final(self).full_checkpoint == old(self).full_checkpoint,
            record_views(final(records)@) == record_views(old(records)@) + scan_l2(
                old(self).mem@,
                pgd as int,
                512,
                w,
                old(self).full_checkpoint,
            ).0,
            final(self).mem@ == scan_l2(
                old(self).mem@,
                pgd as int,
                512,
                w,
                old(self).full_checkpoint,
            ).1,
            forall|t: int|
                0 <= t < final(records)@.len() ==> (#[trigger] final(records)@[t]).wf(),
    {
        let total = self.mem.len();
        let full = self.full_checkpoint;
        let ghost m0 = self.mem@;
        let ghost rs0 = record_views(records@);
        let mut i: u64 = 0;
        proof {
            assert(record_views(records@) =~= rs0 + scan_l2(m0, pgd as int, 0, w, full).0);
        }
        while i < 512
            invariant
                i <= 512,
                self.mem@.len() == old(self).mem@.len(),
                total == self.mem@.len(),
                pgd + 0x1000 <= self.mem@.len(),
                m0 == old(self).mem@,
                rs0 == record_views(old(records)@),
                full == self.full_checkpoint,
                self.elf_entry == old(self).elf_entry,
                self.checkpoint_num == old(self).checkpoint_num,
                self.num_cpus == old(self).num_cpus,
                self.control == old(self).control,
                self.full_checkpoint == old(self).full_checkpoint,
                record_views(records@) == rs0 + scan_l2(m0, pgd as int, i as int, w, full).0,
                self.mem@ == scan_l2(m0, pgd as int, i as int, w, full).1,
                forall|t: int| 0 <= t < records@.len() ==> (#[trigger] records@[t]).wf(),
            decreases 512 - i,
        {
            let e_addr = pgd + 8 * i;
            let e = self.mem.read_u64(e_addr);
            let ghost rs_before = record_views(records@);
            let ghost m_before = self.mem@;
            if e & crate::paging::PAGE_PRESENT != 0 {
                if e & crate::paging::PAGE_HUGE != 0 {
                    if e & w == w {
                        self.leaf_step(records, e_addr, e, true);
                        proof {
                            assert(record_views(records@) =~= rs_before + scan_leaf(
                                m_before,
                                e_addr as int,
                                e,
                                full,
                                true,
                            ).0);
                        }
                    }
                } else {
                    let pgt = e & crate::paging::PAGE_ADDR_MASK;
                    if pgt <= u64::MAX - 0x1000 && pgt + 0x1000 <= total {
                        self.walk_l1(records, pgt, w);
                        proof {
                            assert(record_views(records@) =~= rs_before + scan_l1(
                                m_before,
                                pgt as int,
                                512,
                                w,
                                full,
                            ).0);
                        }
                    }
                }
            }
            proof {
                assert(record_views(records@) == rs0 + scan_l2(m0, pgd as int, i + 1, w, full).0
                    && self.mem@ == scan_l2(m0, pgd as int, i + 1, w, full).1);
            }
            i = i + 1;
        }
    }

    /// Walks one page table, recording its marked small pages.
    fn walk_l1(&mut self, records: &mut Vec<crate::checkpoint::PageRecord>, pgt: u64, w: u64)
        requires
            pgt + 0x1000 <= old(self).mem@.len(),
            forall|t: int|
                0 <= t < old(records)@.len() ==> (#[trigger] old(records)@[t]).wf(),
        ensures
            final(self).mem@.len() == old(self).mem@.len(),
            final(self).elf_entry == old(self).elf_entry,
            final(self).checkpoint_num == old(self).checkpoint_num,
            final(self).num_cpus == old(self).num_cpus,
            final(self).control == old(self).control,
            final(self).full_checkpoint == old(self).full_checkpoint,
            record_views(final(records)@) == record_views(old(records)@) + scan_l1(
                old(self).mem@,
                pgt as int,
                512,
                w,
                old(self).full_checkpoint,
            ).0,
            final(self).mem@ == scan_l1(
                old(self).mem@,
                pgt as int,
                512,
                w,
                old(self).full_checkpoint,
            ).1,
            forall|t: int|
                0 <= t < final(records)@.len() ==> (#[trigger] final(records)@[t]).wf(),
    {
        let total = self.mem.len();
        let full = self.full_checkpoint;
        let ghost m0 = self.mem@;
        let ghost rs0 = record_views(records@);
        let mut i: u64 = 0;
        proof {
            assert(record_views(records@) =~= rs0 + scan_l1(m0, pgt as int, 0, w, full).0);
        }
        while i < 512
            invariant
                i <= 512,
                self.mem@.len() == old(self).mem@.len(),
                total == self.mem@.len(),
                pgt + 0x1000 <= self.mem@.len(),
                m0 == old(self).mem@,
                rs0 == record_views(old(records)@),
                full == self.full_checkpoint,
                self.elf_entry == old(self).elf_entry,
                self.checkpoint_num == old(self).checkpoint_num,
                self.num_cpus == old(self).num_cpus,
                self.control == old(self).control,
                self.full_checkpoint == old(self).full_checkpoint,
                record_views(records@) == rs0 + scan_l1(m0, pgt as int, i as int, w, full).0,
                self.mem@ == scan_l1(m0, pgt as int, i as int, w, full).1,
                forall|t: int| 0 <= t < records@.len() ==> (#[trigger] records@[t]).wf(),
            decreases 512 - i,
        {
            let e_addr = pgt + 8 * i;
            let e = self.mem.read_u64(e_addr);
            let ghost rs_before = record_views(records@);
            let ghost m_before = self.mem@;
            let wanted = crate::paging::PAGE_PRESENT | w;
            if e & wanted == wanted {
                self.leaf_step(records, e_addr, e, false);
                proof {
                    assert(record_views(records@) =~= rs_before + scan_leaf(
                        m_before,
                        e_addr as int,
                        e,
                        full,
                        false,
                    ).0);
                }
            }
            proof {
                assert(record_views(records@) == rs0 + scan_l1(m0, pgt as int, i + 1, w, full).0
                    && self.mem@ == scan_l1(m0, pgt as int, i + 1, w, full).1);
            }
            i = i + 1;
        }
    }

    /// Performs one leaf: clears the live entry's dirty and accessed bits
    /// on an incremental snapshot, then copies the page if it lies in
    /// guest RAM.
    fn leaf_step(
        &mut self,
        records: &mut Vec<crate::checkpoint::PageRecord>,
        e_addr: u64,
        e: u64,
        huge: bool,
    )
        requires
            e_addr + 8 <= old(self).mem@.len(),
            huge ==> e & crate::paging::PAGE_HUGE != 0,
            forall|t: int|
                0 <= t < old(records)@.len() ==> (#[trigger] old(records)@[t]).wf(),
        ensures
            final(self).mem@.len() == old(self).mem@.len(),
            final(self).elf_entry == old(self).elf_entry,
            final(self).checkpoint_num == old(self).checkpoint_num,
            final(self).num_cpus == old(self).num_cpus,
            final(self).control == old(self).control,
            final(self).full_checkpoint == old(self).full_checkpoint,
            record_views(final(records)@) == record_views(old(records)@) + scan_leaf(
                old(self).mem@,
                e_addr as int,
                e,
                old(self).full_checkpoint,
                huge,
            ).0,
            final(self).mem@ == scan_leaf(
                old(self).mem@,
                e_addr as int,
                e,
                old(self).full_checkpoint,
                huge,
            ).1,
            forall|t: int|
                0 <= t < final(records)@.len() ==> (#[trigger] final(records)@[t]).wf(),
    {
        let total = self.mem.len();
        let cleared = e & !(crate::paging::PAGE_DIRTY | crate::paging::PAGE_ACCESSED);
        if !self.full_checkpoint {
            self.mem.write_u64(e_addr, cleared);
        }
        let kept = if self.full_checkpoint {
            e
        } else {
            cleared
        };
        let rec_entry = if huge {
            kept
        } else {
            kept & !crate::paging::PAGE_HUGE
        };
        let size = if huge {
            LARGE_PAGE_SIZE
        } else {
            crate::paging::BASE_PAGE_SIZE
        };
        let a = e & crate::paging::PAGE_ADDR_MASK;
        proof {
            assert((e & !(0x40u64 | 0x20u64)) & 0x80u64 == e & 0x80u64) by (bit_vector);
            assert(((e & !(0x40u64 | 0x20u64)) & !0x80u64) & 0x80u64 == 0) by (bit_vector);
            assert((e & !0x80u64) & 0x80u64 == 0) by (bit_vector);
        }
        if a <= u64::MAX - size && a + size <= total {
            let data = self.mem.read_vec(a, size);
            let rec = crate::checkpoint::PageRecord { entry: rec_entry, data };
            let ghost before = records@;
            records.push(rec);
            proof {
                assert(rec.wf());
                assert forall|t: int| 0 <= t < records@.len() implies (
                #[trigger] records@[t]).wf() by {
                    if t < before.len() {
                        assert(records@[t] == before[t]);
                    }
                }
                assert(record_views(records@) =~= record_views(before) + scan_leaf(
                    old(self).mem@,
                    e_addr as int,
                    e,
                    old(self).full_checkpoint,
                    huge,
                ).0);
            }
        } else {
            proof {
                assert(record_views(records@) =~= record_views(records@) + scan_leaf(
                    old(self).mem@,
                    e_addr as int,
                    e,
                    old(self).full_checkpoint,
                    huge,
                ).0);
            }
        }
    }
}

} // verus!