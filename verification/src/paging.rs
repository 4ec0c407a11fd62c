//! Page-table entries and page-size arithmetic.

use vstd::prelude::*;

verus! {

/// Entry flag: the entry maps something.
pub const PAGE_PRESENT: u64 = 0x1;

/// Entry flag: the mapping is writable.
pub const PAGE_WRITABLE: u64 = 0x2;

/// Entry flag: the mapping has been read through.
pub const PAGE_ACCESSED: u64 = 0x20;

/// Entry flag: the mapping has been written through.
pub const PAGE_DIRTY: u64 = 0x40;

/// Entry flag: the entry maps a large page rather than a further table.
pub const PAGE_HUGE: u64 = 0x80;

/// The bits of an entry that hold the mapped physical address.
pub const PAGE_ADDR_MASK: u64 = 0x000f_ffff_ffff_f000;

/// Size of an ordinary page.
pub const BASE_PAGE_SIZE: u64 = 0x1000;

/// Size of a large page.
pub const LARGE_PAGE_SIZE: u64 = 0x200000;

/// Entries in one page table.
pub const PAGE_TABLE_ENTRIES: u64 = 512;

/// One 64-bit page-table entry.
#[derive(Clone, Copy, Debug, PartialEq, Eq, Structural)]
pub struct PageTableEntry {
    pub entry: u64,
}

impl PageTableEntry {
    /// The mapped physical address, with the flag bits masked off.
    pub fn address(&self) -> (r: u64)
        ensures
            r == self.entry & PAGE_ADDR_MASK,
    {
        self.entry & PAGE_ADDR_MASK
    }

    pub fn is_present(&self) -> (r: bool)
        ensures
            r == (self.entry & PAGE_PRESENT != 0),
    {
        self.entry & PAGE_PRESENT != 0
    }

    pub fn is_hugepage(&self) -> (r: bool)
        ensures
            r == (self.entry & PAGE_HUGE != 0),
    {
        self.entry & PAGE_HUGE != 0
    }

    /// Whether every flag in `flags` is set.
    pub fn check_flags(&self, flags: u64) -> (r: bool)
        ensures
            r == (self.entry & flags == flags),
    {
        self.entry & flags == flags
    }

    /// The flag bits alone.
    pub fn flags(&self) -> (r: u64)
        ensures
            r == self.entry & !PAGE_ADDR_MASK,
    {
        self.entry & !PAGE_ADDR_MASK
    }

    /// Replaces the flag bits, keeping the address.
    pub fn set_flags(&mut self, flags: u64)
        ensures
            final(self).entry == (old(self).entry & PAGE_ADDR_MASK) | (flags & !PAGE_ADDR_MASK),
    {
        self.entry = (self.entry & PAGE_ADDR_MASK) | (flags & !PAGE_ADDR_MASK);
    }

    /// Builds an entry mapping `addr` with `flags`.
    pub fn set(addr: u64, flags: u64) -> (r: PageTableEntry)
        ensures
            r.entry == addr | flags,
    {
        PageTableEntry { entry: addr | flags }
    }
}

} // verus!
