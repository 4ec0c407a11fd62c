//! The 64-bit ELF kernel image: header validation and segment loading.

use vstd::prelude::*;

use crate::bytes::{le16_val, le32_val, le64_val, read_u16_le, read_u32_le, read_u64_le, splice};
use crate::error::Error;
use crate::mem::{zeros, GuestMemory};

verus! {

/// The identification and type fields of an ELF header.
#[derive(Clone, Copy, Debug, PartialEq, Eq, Structural)]
pub struct ElfHeader {
    pub class: u8,
    pub osabi: u8,
    pub elftype: u16,
    pub machine: u16,
    pub entry: u64,
    pub phoff: u64,
    pub phentsize: u16,
    pub phnum: u16,
}

/// A 64-bit image.
pub const ELFCLASS64: u8 = 2;

/// The operating-system tag the unikernel is built with.
pub const OSABI_UNIKERNEL: u8 = 0x42;

/// An executable image.
pub const ET_EXEC: u16 = 2;

/// The x86-64 machine tag.
pub const EM_X86_64: u16 = 0x3e;

/// A loadable program segment.
pub const PT_LOAD: u32 = 1;

/// The header read off the first bytes of an image, when the image is
/// long enough and starts with the ELF magic.
pub open spec fn parse_ehdr(b: Seq<u8>) -> Option<ElfHeader> {
    if b.len() >= 64 && b[0] == 0x7f && b[1] == 0x45 && b[2] == 0x4c && b[3] == 0x46 {
        Some(
            ElfHeader {
                class: b[4],
                osabi: b[7],
                elftype: le16_val(b.subrange(16, 18)),
                machine: le16_val(b.subrange(18, 20)),
                entry: le64_val(b.subrange(24, 32)),
                phoff: le64_val(b.subrange(32, 40)),
                phentsize: le16_val(b.subrange(54, 56)),
                phnum: le16_val(b.subrange(56, 58)),
            },
        )
    } else {
        None
    }
}

/// Whether a header belongs to a kernel this hypervisor can boot: a
/// 64-bit executable for x86-64 with the unikernel operating-system tag.
pub open spec fn ehdr_ok(h: ElfHeader) -> bool {
    h.class == ELFCLASS64 && h.osabi == OSABI_UNIKERNEL && h.elftype == ET_EXEC && h.machine
        == EM_X86_64
}

/// Reads and checks the image header: exactly the well-formed headers of
/// bootable kernels are accepted.
pub fn validate_elf(b: &[u8]) -> (r: Option<ElfHeader>)
    ensures
        match r {
            Some(h) => parse_ehdr(b@) == Some(h) && ehdr_ok(h),
            None => parse_ehdr(b@) is None || !ehdr_ok(parse_ehdr(b@).unwrap()),
        },
{
    let n = b.len();
    if n < 64 {
        return None;
    }
    if !(b[0] == 0x7f && b[1] == 0x45 && b[2] == 0x4c && b[3] == 0x46) {
        return None;
    }
    let h = ElfHeader {
        class: b[4],
        osabi: b[7],
        elftype: read_u16_le(b, 16),
        machine: read_u16_le(b, 18),
        entry: read_u64_le(b, 24),
        phoff: read_u64_le(b, 32),
        phentsize: read_u16_le(b, 54),
        phnum: read_u16_le(b, 56),
    };
    if h.class == ELFCLASS64 && h.osabi == OSABI_UNIKERNEL && h.elftype == ET_EXEC && h.machine
        == EM_X86_64 {
        Some(h)
    } else {
        None
    }
}

/// One program header.
#[derive(Clone, Copy, Debug, PartialEq, Eq, Structural)]
pub struct ProgHeader {
    pub progtype: u32,
    pub offset: u64,
    pub paddr: u64,
    pub filesz: u64,
    pub memsz: u64,
}

/// The program header stored at `off` in the image.
pub open spec fn parse_phdr(b: Seq<u8>, off: int) -> Option<ProgHeader> {
    if 0 <= off && off + 56 <= b.len() {
        Some(
            ProgHeader {
                progtype: le32_val(b.subrange(off, off + 4)),
                offset: le64_val(b.subrange(off + 8, off + 16)),
                paddr: le64_val(b.subrange(off + 24, off + 32)),
                filesz: le64_val(b.subrange(off + 32, off + 40)),
                memsz: le64_val(b.subrange(off + 40, off + 48)),
            },
        )
    } else {
        None
    }
}

/// Reads the program header at `off`.
pub fn read_phdr(b: &[u8], off: u64) -> (r: Option<ProgHeader>)
    ensures
        match r {
            Some(h) => parse_phdr(b@, off as int) == Some(h),
            None => parse_phdr(b@, off as int) is None,
        },
{
    let n = b.len();
    if off > u64::MAX - 56 || off + 56 > n as u64 {
        return None;
    }
    let o = off as usize;
    Some(
        ProgHeader {
            progtype: read_u32_le(b, o),
            offset: read_u64_le(b, o + 8),
            paddr: read_u64_le(b, o + 24),
            filesz: read_u64_le(b, o + 32),
            memsz: read_u64_le(b, o + 40),
        },
    )
}

/// Copies one loadable segment into guest RAM: the file bytes go to the
/// segment's physical address and the rest of its memory size is zeroed.
pub fn load_segment(mem: &mut GuestMemory, kernel: &[u8], ph: &ProgHeader) -> (r: Result<
    (),
    Error,
>)
    ensures
        match r {
            Ok(_) => ph.filesz <= ph.memsz && ph.offset + ph.filesz <= kernel@.len()
                && ph.paddr + ph.memsz <= old(mem)@.len() && final(mem)@ == splice(
                splice(
                    old(mem)@,
                    ph.paddr as int,
                    kernel@.subrange(ph.offset as int, ph.offset + ph.filesz),
                ),
                ph.paddr + ph.filesz,
                zeros((ph.memsz - ph.filesz) as nat),
            ),
            Err(e) => e == Error::KernelNotLoaded && final(mem)@ == old(mem)@ && !(ph.filesz
                <= ph.memsz && ph.offset + ph.filesz <= kernel@.len() && ph.paddr + ph.memsz
                <= old(mem)@.len()),
        },
{
    let n = mem.len();
    let kn = kernel.len() as u64;
    if ph.filesz > ph.memsz || ph.offset > u64::MAX - ph.filesz || ph.offset + ph.filesz > kn
        || ph.paddr > u64::MAX - ph.memsz || ph.paddr + ph.memsz > n {
        return Err(Error::KernelNotLoaded);
    }
    let src = &kernel[ph.offset as usize..(ph.offset + ph.filesz) as usize];
    mem.write_bytes(ph.paddr, src);
    mem.zero_fill(ph.paddr + ph.filesz, ph.memsz - ph.filesz);
    proof {
        assert(kernel@.subrange(ph.offset as int, ph.offset + ph.filesz) =~= src@);
    }
    Ok(())
}

} // verus!
