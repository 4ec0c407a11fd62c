//! The boot global descriptor table: packed 64-bit descriptors and their
//! projection into unpacked segment registers.

use vstd::prelude::*;

use crate::kvm::kvm_segment;

verus! {

/// Index of the null descriptor.
pub const BOOT_NULL: u64 = 0;

/// Index of the flat code descriptor.
pub const BOOT_CODE: u64 = 1;

/// Index of the flat data descriptor.
pub const BOOT_DATA: u64 = 2;

/// Number of boot descriptors.
pub const BOOT_MAX: u64 = 3;

/// The packed descriptor for the given access flags, base and limit.
pub open spec fn descriptor(flags: u64, base: u64, limit: u64) -> u64 {
    ((base & 0xff000000) << 32) | ((flags & 0xf0ff) << 40) | ((limit & 0xf0000) << 32) | ((base
        & 0xffffff) << 16) | (limit & 0xffff)
}

/// One packed 64-bit segment descriptor.
#[derive(Clone, Copy, Debug, PartialEq, Eq, Structural)]
pub struct Entry {
    pub entry: u64,
}

/// The raw limit field of a descriptor.
pub open spec fn desc_limit(e: u64) -> u64 {
    (e & 0xffff) | ((e >> 32) & 0xf0000)
}

/// The base field of a descriptor.
pub open spec fn desc_base(e: u64) -> u64 {
    ((e >> 16) & 0xffffff) | (((e >> 56) & 0xff) << 24)
}

impl Entry {
    /// Packs a descriptor.
    pub fn new(flags: u64, base: u64, limit: u64) -> (r: Entry)
        ensures
            r.entry == descriptor(flags, base, limit),
    {
        Entry {
            entry: ((base & 0xff000000) << 32) | ((flags & 0xf0ff) << 40) | ((limit & 0xf0000)
                << 32) | ((base & 0xffffff) << 16) | (limit & 0xffff),
        }
    }

    pub fn as_u64(&self) -> (r: u64)
        ensures
            r == self.entry,
    {
        self.entry
    }

    /// Projects the descriptor into an unpacked segment register for the
    /// given table index: the limit is expanded by the granularity bit,
    /// and the selector is the byte offset of the descriptor.
    pub fn apply_to_kvm(&self, index: u64, seg: &mut kvm_segment)
        requires
            index < 8192,
        ensures
            final(seg).base == desc_base(self.entry),
            final(seg).limit == (if (self.entry >> 55) & 1 == 1 {
                ((desc_limit(self.entry) << 12) | 0xfff) as u32
            } else {
                desc_limit(self.entry) as u32
            }),
            final(seg).selector == (index * 8) as u16,
            final(seg).type_ == ((self.entry >> 40) & 0xf) as u8,
            final(seg).s == ((self.entry >> 44) & 0x1) as u8,
            final(seg).dpl == ((self.entry >> 45) & 0x3) as u8,
            final(seg).present == ((self.entry >> 47) & 0x1) as u8,
            final(seg).avl == ((self.entry >> 52) & 0x1) as u8,
            final(seg).l == ((self.entry >> 53) & 0x1) as u8,
            final(seg).db == ((self.entry >> 54) & 0x1) as u8,
            final(seg).g == ((self.entry >> 55) & 0x1) as u8,
            final(seg).unusable == 0,
    {
        let e = self.entry;
        let raw_limit: u64 = (e & 0xffff) | ((e >> 32) & 0xf0000);
        let g: u64 = (e >> 55) & 1;
        seg.base = ((e >> 16) & 0xffffff) | (((e >> 56) & 0xff) << 24);
        seg.limit = if g == 1 {
            ((raw_limit << 12) | 0xfff) as u32
        } else {
            raw_limit as u32
        };
        seg.selector = (index * 8) as u16;
        seg.type_ = ((e >> 40) & 0xf) as u8;
        seg.s = ((e >> 44) & 0x1) as u8;
        seg.dpl = ((e >> 45) & 0x3) as u8;
        seg.present = ((e >> 47) & 0x1) as u8;
        seg.avl = ((e >> 52) & 0x1) as u8;
        seg.l = ((e >> 53) & 0x1) as u8;
        seg.db = ((e >> 54) & 0x1) as u8;
        seg.g = ((e >> 55) & 0x1) as u8;
        seg.unusable = 0;
    }
}

} // verus!
