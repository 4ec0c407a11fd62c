//! Guest physical memory: a contiguous byte range backing guest addresses,
//! with the 32-bit MMIO gap layout and bounds-checked typed access.

use vstd::prelude::*;

use crate::bytes::{le32_val, le64_val, lemma_splice_index, splice, u32_le, u64_le};

verus! {

/// Top of the 32-bit physical address space.
pub const KVM_32BIT_MAX_MEM_SIZE: u64 = 0x100000000;

/// Size of the MMIO gap kept free below 4 GiB: 768 MiB.
pub const KVM_32BIT_GAP_SIZE: u64 = 0x30000000;

/// Start of the MMIO gap: 3.25 GiB.
pub const KVM_32BIT_GAP_START: u64 = KVM_32BIT_MAX_MEM_SIZE - KVM_32BIT_GAP_SIZE;

/// Guest physical range covered by the boot page tables.
pub const GUEST_SIZE: u64 = 0x20000000;

/// Guest physical address of the boot GDT.
pub const BOOT_GDT: u64 = 0x1000;

/// Guest physical address of the boot info block used before the kernel is loaded.
pub const BOOT_INFO: u64 = 0x2000;

/// Guest physical address of the boot PML4 table.
pub const BOOT_PML4: u64 = 0x10000;

/// Guest physical address of the boot PDPTE table.
pub const BOOT_PDPTE: u64 = 0x11000;

/// Guest physical address of the boot PDE table.
pub const BOOT_PDE: u64 = 0x12000;

/// A sequence of `n` zero bytes.
pub open spec fn zeros(n: nat) -> Seq<u8> {
    Seq::new(n, |i: int| 0u8)
}

/// Guest RAM.  Guest physical addresses coincide with offsets into the
/// backing bytes.  When the guest is given more than `KVM_32BIT_GAP_START`
/// bytes, the range `[KVM_32BIT_GAP_START, KVM_32BIT_MAX_MEM_SIZE)` is the
/// MMIO gap: it stays unused, and the backing range is enlarged so that the
/// addresses above the gap still fall inside it.
pub struct GuestMemory {
    data: Vec<u8>,
}

impl View for GuestMemory {
    type V = Seq<u8>;

    closed spec fn view(&self) -> Seq<u8> {
        self.data@
    }
}

impl GuestMemory {
    /// Allocates zeroed guest RAM of `size` guest-visible bytes, widening
    /// the backing range by the gap offset when the size calls for it.
    pub fn new(size: u64) -> (m: GuestMemory)
        requires
            size + KVM_32BIT_GAP_START <= usize::MAX,
        ensures
            size <= KVM_32BIT_GAP_START ==> m@.len() == size,
            size > KVM_32BIT_GAP_START ==> m@.len() == size + KVM_32BIT_GAP_START,
            m@ == zeros(m@.len()),
    {
        let len: usize = if size <= KVM_32BIT_GAP_START {
            size as usize
        } else {
            (size + KVM_32BIT_GAP_START) as usize
        };
        let data: Vec<u8> = vec![0u8; len];
        proof {
            assert forall|i: int| 0 <= i < data@.len() implies data@[i] == 0u8 by {
                assert(cloned(0u8, data@[i]));
            }
            assert(data@ =~= zeros(data@.len()));
        }
        GuestMemory { data }
    }

    /// The number of backing bytes, gap included.
    pub fn len(&self) -> (n: u64)
        ensures
            n == self@.len(),
    {
        self.data.len() as u64
    }

    /// The guest-visible memory size: the backing size without the widening
    /// that the MMIO gap forced.
    pub open spec fn spec_guest_size(&self) -> int {
        if self@.len() <= KVM_32BIT_GAP_START {
            self@.len() as int
        } else {
            self@.len() - KVM_32BIT_GAP_START
        }
    }

    /// The guest-visible memory size.
    pub fn guest_size(&self) -> (n: u64)
        ensures
            n == self.spec_guest_size(),
    {
        let len = self.data.len() as u64;
        if len <= KVM_32BIT_GAP_START {
            len
        } else {
            len - KVM_32BIT_GAP_START
        }
    }

    /// Whether the MMIO gap is present.
    pub fn has_gap(&self) -> (b: bool)
        ensures
            b == (self@.len() > KVM_32BIT_GAP_START),
    {
        self.data.len() as u64 > KVM_32BIT_GAP_START
    }

    /// The whole of guest RAM, for host-side transfer.
    pub fn as_slice(&self) -> (s: &[u8])
        ensures
            s@ == self@,
    {
        self.data.as_slice()
    }

    pub fn read_u8(&self, off: u64) -> (b: u8)
        requires
            off < self@.len(),
        ensures
            b == self@[off as int],
    {
        let n = self.data.len();
        self.data[off as usize]
    }

    pub fn write_u8(&mut self, off: u64, b: u8)
        requires
            off < old(self)@.len(),
        ensures
            final(self)@ == old(self)@.update(off as int, b),
    {
        let n = self.data.len();
        self.data[off as usize] = b;
    }

    pub fn read_u32(&self, off: u64) -> (r: u32)
        requires
            off + 4 <= self@.len(),
        ensures
            r == le32_val(self@.subrange(off as int, off + 4)),
    {
        let n = self.data.len();
        crate::bytes::read_u32_le(self.data.as_slice(), off as usize)
    }

    pub fn read_u64(&self, off: u64) -> (r: u64)
        requires
            off + 8 <= self@.len(),
        ensures
            r == le64_val(self@.subrange(off as int, off + 8)),
    {
        let n = self.data.len();
        crate::bytes::read_u64_le(self.data.as_slice(), off as usize)
    }

    pub fn write_u32(&mut self, off: u64, v: u32)
        requires
            off + 4 <= old(self)@.len(),
        ensures
            final(self)@ == splice(old(self)@, off as int, u32_le(v)),
    {
        let n = self.data.len();
        let o = off as usize;
        self.data[o] = (v & 0xff) as u8;
        self.data[o + 1] = ((v >> 8) & 0xff) as u8;
        self.data[o + 2] = ((v >> 16) & 0xff) as u8;
        self.data[o + 3] = ((v >> 24) & 0xff) as u8;
        proof {
            lemma_splice_index(old(self)@, off as int, u32_le(v));
            assert(self@ =~= splice(old(self)@, off as int, u32_le(v)));
        }
    }

    pub fn write_u64(&mut self, off: u64, v: u64)
        requires
            off + 8 <= old(self)@.len(),
        ensures
            final(self)@ == splice(old(self)@, off as int, u64_le(v)),
    {
        let n = self.data.len();
        let o = off as usize;
        self.data[o] = (v & 0xff) as u8;
        self.data[o + 1] = ((v >> 8) & 0xff) as u8;
        self.data[o + 2] = ((v >> 16) & 0xff) as u8;
        self.data[o + 3] = ((v >> 24) & 0xff) as u8;
        self.data[o + 4] = ((v >> 32) & 0xff) as u8;
        self.data[o + 5] = ((v >> 40) & 0xff) as u8;
        self.data[o + 6] = ((v >> 48) & 0xff) as u8;
        self.data[o + 7] = ((v >> 56) & 0xff) as u8;
        proof {
            lemma_splice_index(old(self)@, off as int, u64_le(v));
            assert(self@ =~= splice(old(self)@, off as int, u64_le(v)));
        }
    }

    /// Copies `src` into guest RAM at `off`.
    pub fn write_bytes(&mut self, off: u64, src: &[u8])
        requires
            off + src@.len() <= old(self)@.len(),
        ensures
            final(self)@ == splice(old(self)@, off as int, src@),
    {
        let total = self.data.len();
        let o = off as usize;
        let n = src.len();
        let mut i: usize = 0;
        while i < n
            invariant
                n == src@.len(),
                i <= n,
                o == off,
                o + n <= self@.len(),
                self@.len() <= usize::MAX,
                self@.len() == old(self)@.len(),
                forall|t: int| o <= t < o + i ==> #[trigger] self@[t] == src@[t - o],
                forall|t: int|
                    0 <= t < self@.len() && !(o <= t < o + i) ==> self@[t] == old(self)@[t],
            decreases n - i,
        {
            self.data[o + i] = src[i];
            i += 1;
        }
        proof {
            lemma_splice_index(old(self)@, off as int, src@);
            assert(self@ =~= splice(old(self)@, off as int, src@));
        }
    }

    /// Zeroes `n` bytes of guest RAM starting at `off`.
    pub fn zero_fill(&mut self, off: u64, n: u64)
        requires
            off + n <= old(self)@.len(),
        ensures
            final(self)@ == splice(old(self)@, off as int, zeros(n as nat)),
    {
        let total = self.data.len();
        let o = off as usize;
        let count = n as usize;
        let mut i: usize = 0;
        while i < count
            invariant
                count == n,
                i <= count,
                o == off,
                o + count <= self@.len(),
                self@.len() <= usize::MAX,
                self@.len() == old(self)@.len(),
                forall|t: int| o <= t < o + i ==> #[trigger] self@[t] == 0u8,
                forall|t: int|
                    0 <= t < self@.len() && !(o <= t < o + i) ==> self@[t] == old(self)@[t],
            decreases count - i,
        {
            self.data[o + i] = 0;
            i += 1;
        }
        proof {
            lemma_splice_index(old(self)@, off as int, zeros(n as nat));
            assert(self@ =~= splice(old(self)@, off as int, zeros(n as nat)));
        }
    }

    /// Reads `n` bytes of guest RAM starting at `off`.
    pub fn read_vec(&self, off: u64, n: u64) -> (v: Vec<u8>)
        requires
            off + n <= self@.len(),
        ensures
            v@ == self@.subrange(off as int, off + n),
    {
        let total = self.data.len();
        let o = off as usize;
        let count = n as usize;
        let mut v: Vec<u8> = Vec::new();
        let mut i: usize = 0;
        while i < count
            invariant
                count == n,
                i <= count,
                o == off,
                o + count <= self@.len(),
                self@.len() <= usize::MAX,
                v@ == self@.subrange(o as int, o + i),
            decreases count - i,
        {
            v.push(self.data[o + i]);
            proof {
                assert(v@ =~= self@.subrange(o as int, o + i + 1));
            }
            i += 1;
        }
        v
    }
}

} // verus!
