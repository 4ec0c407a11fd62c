#![allow(non_camel_case_types)]
//! The host-kernel virtualization data model: registers, segment state,
//! model-specific registers, and the per-vCPU snapshot with its binary
//! encoding.

use vstd::prelude::*;

use crate::bytes::{
    le16_val, le32_val, le64_val, push_u16_le, push_u32_le, push_u64_le, read_u16_le, read_u32_le,
    read_u64_le, u16_le, u32_le, u64_le,
};

verus! {

/// General-purpose register file.
#[derive(Clone, Copy, Debug, PartialEq, Eq, Structural)]
pub struct kvm_regs {
    pub rax: u64,
    pub rbx: u64,
    pub rcx: u64,
    pub rdx: u64,
    pub rsi: u64,
    pub rdi: u64,
    pub rsp: u64,
    pub rbp: u64,
    pub r8: u64,
    pub r9: u64,
    pub r10: u64,
    pub r11: u64,
    pub r12: u64,
    pub r13: u64,
    pub r14: u64,
    pub r15: u64,
    pub rip: u64,
    pub rflags: u64,
}

/// One segment register in its unpacked form.
#[derive(Clone, Copy, Debug, PartialEq, Eq, Structural)]
pub struct kvm_segment {
    pub base: u64,
    pub limit: u32,
    pub selector: u16,
    pub type_: u8,
    pub present: u8,
    pub dpl: u8,
    pub db: u8,
    pub s: u8,
    pub l: u8,
    pub g: u8,
    pub avl: u8,
    pub unusable: u8,
}

/// A descriptor-table register.
#[derive(Clone, Copy, Debug, PartialEq, Eq, Structural)]
pub struct kvm_dtable {
    pub base: u64,
    pub limit: u16,
}

/// Special registers: segments, descriptor tables and control registers.
#[derive(Clone, Copy, Debug, PartialEq, Eq, Structural)]
pub struct kvm_sregs {
    pub cs: kvm_segment,
    pub ds: kvm_segment,
    pub es: kvm_segment,
    pub fs: kvm_segment,
    pub gs: kvm_segment,
    pub ss: kvm_segment,
    pub tr: kvm_segment,
    pub ldt: kvm_segment,
    pub gdt: kvm_dtable,
    pub idt: kvm_dtable,
    pub cr0: u64,
    pub cr2: u64,
    pub cr3: u64,
    pub cr4: u64,
    pub cr8: u64,
    pub efer: u64,
    pub apic_base: u64,
    pub interrupt_bitmap0: u64,
    pub interrupt_bitmap1: u64,
    pub interrupt_bitmap2: u64,
    pub interrupt_bitmap3: u64,
}

/// One model-specific register and its value.
#[derive(Clone, Copy, Debug, PartialEq, Eq, Structural)]
pub struct kvm_msr_entry {
    pub index: u32,
    pub data: u64,
}

/// Header of a model-specific register list.
#[derive(Clone, Copy, Debug, PartialEq, Eq, Structural)]
pub struct kvm_msrs {
    pub nmsrs: u32,
}

/// A model-specific register list with its header.
#[derive(Clone, Debug)]
pub struct kvm_msr_data {
    pub info: kvm_msrs,
    pub entries: Vec<kvm_msr_entry>,
}

/// Number of entries a register list always carries.
pub const MSR_LIST_LEN: usize = 25;

/// The guest clock.
#[derive(Clone, Copy, Debug, PartialEq, Eq, Structural)]
pub struct kvm_clock_data {
    pub clock: u64,
    pub flags: u32,
}

/// Multiprocessing state of one vCPU.
#[derive(Clone, Copy, Debug, PartialEq, Eq, Structural)]
pub struct kvm_mp_state {
    pub mp_state: u32,
}

/// The vCPU is ready to run.
pub const KVM_MP_STATE_RUNNABLE: u32 = 0;

/// Floating-point unit state, carried as the kernel hands it out.
#[derive(Clone, Debug)]
pub struct kvm_fpu {
    pub raw: Vec<u8>,
}

/// Local APIC state, carried as the kernel hands it out.
#[derive(Clone, Debug)]
pub struct kvm_lapic_state {
    pub raw: Vec<u8>,
}

/// Extended save area, carried as the kernel hands it out.
#[derive(Clone, Debug)]
pub struct kvm_xsave {
    pub raw: Vec<u8>,
}

/// Extended control registers, carried as the kernel hands it out.
#[derive(Clone, Debug)]
pub struct kvm_xcrs {
    pub raw: Vec<u8>,
}

/// Pending interrupt and exception state, carried as the kernel hands it out.
#[derive(Clone, Debug)]
pub struct kvm_vcpu_events {
    pub raw: Vec<u8>,
}

pub const KVM_FPU_SIZE: usize = 416;

pub const KVM_LAPIC_SIZE: usize = 1024;

pub const KVM_XSAVE_SIZE: usize = 4096;

pub const KVM_XCRS_SIZE: usize = 392;

pub const KVM_VCPU_EVENTS_SIZE: usize = 64;

/// Everything that is saved of one vCPU: snapshots carry this structure.
#[derive(Clone, Debug)]
pub struct vcpu_state {
    pub msr_data: kvm_msr_data,
    pub regs: kvm_regs,
    pub sregs: kvm_sregs,
    pub fpu: kvm_fpu,
    pub lapic: kvm_lapic_state,
    pub xsave: kvm_xsave,
    pub xcrs: kvm_xcrs,
    pub events: kvm_vcpu_events,
    pub mp_state: kvm_mp_state,
}


impl Default for kvm_segment {
    fn default() -> (r: kvm_segment)
        ensures
            r == (kvm_segment {
                base: 0,
                limit: 0,
                selector: 0,
                type_: 0,
                present: 0,
                dpl: 0,
                db: 0,
                s: 0,
                l: 0,
                g: 0,
                avl: 0,
                unusable: 0,
            }),
    {
        kvm_segment {
            base: 0,
            limit: 0,
            selector: 0,
            type_: 0,
            present: 0,
            dpl: 0,
            db: 0,
            s: 0,
            l: 0,
            g: 0,
            avl: 0,
            unusable: 0,
        }
    }
}

impl Default for kvm_dtable {
    fn default() -> (r: kvm_dtable)
        ensures
            r == (kvm_dtable { base: 0, limit: 0 }),
    {
        kvm_dtable { base: 0, limit: 0 }
    }
}

impl Default for kvm_regs {
    fn default() -> (r: kvm_regs)
        ensures
            r.rax == 0 && r.rbx == 0 && r.rcx == 0 && r.rdx == 0 && r.rsi == 0 && r.rdi == 0
                && r.rsp == 0 && r.rbp == 0 && r.r8 == 0 && r.r9 == 0 && r.r10 == 0 && r.r11 == 0
                && r.r12 == 0 && r.r13 == 0 && r.r14 == 0 && r.r15 == 0 && r.rip == 0 && r.rflags
                == 0,
    {
        kvm_regs {
            rax: 0,
            rbx: 0,
            rcx: 0,
            rdx: 0,
            rsi: 0,
            rdi: 0,
            rsp: 0,
            rbp: 0,
            r8: 0,
            r9: 0,
            r10: 0,
            r11: 0,
            r12: 0,
            r13: 0,
            r14: 0,
            r15: 0,
            rip: 0,
            rflags: 0,
        }
    }
}

impl Default for kvm_sregs {
    fn default() -> (r: kvm_sregs)
        ensures
            r.cs == kvm_segment::spec_zero() && r.ds == kvm_segment::spec_zero() && r.es
                == kvm_segment::spec_zero() && r.fs == kvm_segment::spec_zero() && r.gs
                == kvm_segment::spec_zero() && r.ss == kvm_segment::spec_zero() && r.tr
                == kvm_segment::spec_zero() && r.ldt == kvm_segment::spec_zero(),
            r.gdt == (kvm_dtable { base: 0, limit: 0 }) && r.idt == (kvm_dtable {
                base: 0,
                limit: 0,
            }),
            r.cr0 == 0 && r.cr2 == 0 && r.cr3 == 0 && r.cr4 == 0 && r.cr8 == 0 && r.efer == 0
                && r.apic_base == 0,
            r.interrupt_bitmap0 == 0 && r.interrupt_bitmap1 == 0 && r.interrupt_bitmap2 == 0
                && r.interrupt_bitmap3 == 0,
    {
        kvm_sregs {
            cs: kvm_segment::default(),
            ds: kvm_segment::default(),
            es: kvm_segment::default(),
            fs: kvm_segment::default(),
            gs: kvm_segment::default(),
            ss: kvm_segment::default(),
            tr: kvm_segment::default(),
            ldt: kvm_segment::default(),
            gdt: kvm_dtable::default(),
            idt: kvm_dtable::default(),
            cr0: 0,
            cr2: 0,
            cr3: 0,
            cr4: 0,
            cr8: 0,
            efer: 0,
            apic_base: 0,
            interrupt_bitmap0: 0,
            interrupt_bitmap1: 0,
            interrupt_bitmap2: 0,
            interrupt_bitmap3: 0,
        }
    }
}

impl kvm_segment {
    /// The all-zero segment.
    pub open spec fn spec_zero() -> kvm_segment {
        kvm_segment {
            base: 0,
            limit: 0,
            selector: 0,
            type_: 0,
            present: 0,
            dpl: 0,
            db: 0,
            s: 0,
            l: 0,
            g: 0,
            avl: 0,
            unusable: 0,
        }
    }
}

impl Default for kvm_mp_state {
    fn default() -> (r: kvm_mp_state)
        ensures
            r.mp_state == 0,
    {
        kvm_mp_state { mp_state: 0 }
    }
}

impl kvm_msr_data {
    /// The entry list always holds the full fixed count.
    pub open spec fn wf(&self) -> bool {
        self.entries@.len() == MSR_LIST_LEN
    }
}

impl Default for kvm_msr_data {
    fn default() -> (r: kvm_msr_data)
        ensures
            r.wf(),
            r.info.nmsrs == 0,
            forall|i: int|
                0 <= i < MSR_LIST_LEN ==> #[trigger] r.entries@[i] == (kvm_msr_entry {
                    index: 0,
                    data: 0,
                }),
    {
        let mut entries: Vec<kvm_msr_entry> = Vec::new();
        let mut i: usize = 0;
        while i < MSR_LIST_LEN
            invariant
                i <= MSR_LIST_LEN,
                entries@.len() == i,
                forall|t: int|
                    0 <= t < i ==> #[trigger] entries@[t] == (kvm_msr_entry { index: 0, data: 0 }),
            decreases MSR_LIST_LEN - i,
        {
            entries.push(kvm_msr_entry { index: 0, data: 0 });
            i += 1;
        }
        kvm_msr_data { info: kvm_msrs { nmsrs: 0 }, entries }
    }
}

impl vcpu_state {
    /// All carried buffers have the sizes the kernel defines for them.
    pub open spec fn wf(&self) -> bool {
        &&& self.msr_data.wf()
        &&& self.fpu.raw@.len() == KVM_FPU_SIZE
        &&& self.lapic.raw@.len() == KVM_LAPIC_SIZE
        &&& self.xsave.raw@.len() == KVM_XSAVE_SIZE
        &&& self.xcrs.raw@.len() == KVM_XCRS_SIZE
        &&& self.events.raw@.len() == KVM_VCPU_EVENTS_SIZE
    }
}

impl Default for vcpu_state {
    fn default() -> (r: vcpu_state)
        ensures
            r.wf(),
    {
        vcpu_state {
            msr_data: kvm_msr_data::default(),
            regs: kvm_regs::default(),
            sregs: kvm_sregs::default(),
            fpu: kvm_fpu { raw: vec![0u8; KVM_FPU_SIZE] },
            lapic: kvm_lapic_state { raw: vec![0u8; KVM_LAPIC_SIZE] },
            xsave: kvm_xsave { raw: vec![0u8; KVM_XSAVE_SIZE] },
            xcrs: kvm_xcrs { raw: vec![0u8; KVM_XCRS_SIZE] },
            events: kvm_vcpu_events { raw: vec![0u8; KVM_VCPU_EVENTS_SIZE] },
            mp_state: kvm_mp_state::default(),
        }
    }
}

/// Number of 64-bit words at the head of an encoded snapshot: every
/// numeric field is stored as one little-endian word, in a fixed order.
pub const STATE_WORDS: usize = 181;

/// Offset of the floating-point block in an encoded snapshot.
pub const FPU_OFF: usize = 8 * STATE_WORDS;

/// Offset of the local APIC block in an encoded snapshot.
pub const LAPIC_OFF: usize = FPU_OFF + KVM_FPU_SIZE;

/// Offset of the extended save area in an encoded snapshot.
pub const XSAVE_OFF: usize = LAPIC_OFF + KVM_LAPIC_SIZE;

/// Offset of the extended control registers in an encoded snapshot.
pub const XCRS_OFF: usize = XSAVE_OFF + KVM_XSAVE_SIZE;

/// Offset of the pending-event block in an encoded snapshot.
pub const EVENTS_OFF: usize = XCRS_OFF + KVM_XCRS_SIZE;

/// Total size of an encoded snapshot.
pub const VCPU_STATE_SIZE: usize = EVENTS_OFF + KVM_VCPU_EVENTS_SIZE;

/// The `k`-th 64-bit word of an encoded snapshot.
#[verifier::opaque]
pub open spec fn word(b: Seq<u8>, k: int) -> u64 {
    le64_val(b.subrange(8 * k, 8 * k + 8))
}

/// All head words of an encoded snapshot, extracted in order.
pub open spec fn words_of(b: Seq<u8>) -> Seq<u64> {
    Seq::new(STATE_WORDS as nat, |k: int| word(b, k))
}

/// The words starting at index 51 are this register file's values.
pub open spec fn regs_vals_ok(r: kvm_regs, vals: Seq<u64>) -> bool {
    &&& r.rax == vals[51]
    &&& r.rbx == vals[52]
    &&& r.rcx == vals[53]
    &&& r.rdx == vals[54]
    &&& r.rsi == vals[55]
    &&& r.rdi == vals[56]
    &&& r.rsp == vals[57]
    &&& r.rbp == vals[58]
    &&& r.r8 == vals[59]
    &&& r.r9 == vals[60]
    &&& r.r10 == vals[61]
    &&& r.r11 == vals[62]
    &&& r.r12 == vals[63]
    &&& r.r13 == vals[64]
    &&& r.r14 == vals[65]
    &&& r.r15 == vals[66]
    &&& r.rip == vals[67]
    &&& r.rflags == vals[68]
}

/// The twelve words starting at index `w` are this segment's values.
pub open spec fn segment_vals_ok(s: kvm_segment, vals: Seq<u64>, w: int) -> bool {
    &&& s.base == vals[w]
    &&& s.limit == vals[w + 1] as u32
    &&& s.selector == vals[w + 2] as u16
    &&& s.type_ == vals[w + 3] as u8
    &&& s.present == vals[w + 4] as u8
    &&& s.dpl == vals[w + 5] as u8
    &&& s.db == vals[w + 6] as u8
    &&& s.s == vals[w + 7] as u8
    &&& s.l == vals[w + 8] as u8
    &&& s.g == vals[w + 9] as u8
    &&& s.avl == vals[w + 10] as u8
    &&& s.unusable == vals[w + 11] as u8
}

/// The words starting at index 69 are these special registers' values.
pub open spec fn sregs_vals_ok(s: kvm_sregs, vals: Seq<u64>) -> bool {
    &&& segment_vals_ok(s.cs, vals, 69)
    &&& segment_vals_ok(s.ds, vals, 81)
    &&& segment_vals_ok(s.es, vals, 93)
    &&& segment_vals_ok(s.fs, vals, 105)
    &&& segment_vals_ok(s.gs, vals, 117)
    &&& segment_vals_ok(s.ss, vals, 129)
    &&& segment_vals_ok(s.tr, vals, 141)
    &&& segment_vals_ok(s.ldt, vals, 153)
    &&& s.gdt.base == vals[165]
    &&& s.gdt.limit == vals[166] as u16
    &&& s.idt.base == vals[167]
    &&& s.idt.limit == vals[168] as u16
    &&& s.cr0 == vals[169]
    &&& s.cr2 == vals[170]
    &&& s.cr3 == vals[171]
    &&& s.cr4 == vals[172]
    &&& s.cr8 == vals[173]
    &&& s.efer == vals[174]
    &&& s.apic_base == vals[175]
    &&& s.interrupt_bitmap0 == vals[176]
    &&& s.interrupt_bitmap1 == vals[177]
    &&& s.interrupt_bitmap2 == vals[178]
    &&& s.interrupt_bitmap3 == vals[179]
}

/// The word list carries this whole numeric state.
pub open spec fn state_vals_ok(s: vcpu_state, vals: Seq<u64>) -> bool {
    &&& s.msr_data.entries@.len() == MSR_LIST_LEN
    &&& s.msr_data.info.nmsrs == vals[0] as u32
    &&& forall|t: int|
        0 <= t < MSR_LIST_LEN ==> #[trigger] s.msr_data.entries@[t] == (kvm_msr_entry {
            index: vals[1 + 2 * t] as u32,
            data: vals[2 + 2 * t],
        })
    &&& regs_vals_ok(s.regs, vals)
    &&& sregs_vals_ok(s.sregs, vals)
    &&& s.mp_state.mp_state == vals[180] as u32
}

/// The bytes carry this whole snapshot.
pub open spec fn state_matches(s: vcpu_state, b: Seq<u8>) -> bool {
    &&& b.len() == VCPU_STATE_SIZE
    &&& state_vals_ok(s, words_of(b))
    &&& s.fpu.raw@ == b.subrange(FPU_OFF as int, LAPIC_OFF as int)
    &&& s.lapic.raw@ == b.subrange(LAPIC_OFF as int, XSAVE_OFF as int)
    &&& s.xsave.raw@ == b.subrange(XSAVE_OFF as int, XCRS_OFF as int)
    &&& s.xcrs.raw@ == b.subrange(XCRS_OFF as int, EVENTS_OFF as int)
    &&& s.events.raw@ == b.subrange(EVENTS_OFF as int, VCPU_STATE_SIZE as int)
}

/// Each stored word reads back as the value it was made from.
proof fn lemma_words_read_back(vals: Seq<u64>, b: Seq<u8>)
    requires
        8 * vals.len() <= b.len(),
        forall|k: int|
            0 <= k < vals.len() ==> b.subrange(8 * k, 8 * k + 8) == u64_le(#[trigger] vals[k]),
    ensures
        forall|k: int| 0 <= k < vals.len() ==> word(b, k) == #[trigger] vals[k],
{
    reveal(word);
    assert forall|k: int| 0 <= k < vals.len() implies word(b, k) == #[trigger] vals[k] by {
        crate::bytes::lemma_le64_roundtrip(vals[k]);
    }
}

/// Stored words stay readable when the buffer grows at the end.
proof fn lemma_words_stable(vals: Seq<u64>, b1: Seq<u8>, b2: Seq<u8>)
    requires
        8 * vals.len() <= b1.len(),
        b1.len() <= b2.len(),
        b2.subrange(0, b1.len() as int) == b1,
        forall|k: int| 0 <= k < vals.len() ==> word(b1, k) == #[trigger] vals[k],
    ensures
        forall|k: int| 0 <= k < vals.len() ==> word(b2, k) == #[trigger] vals[k],
{
    reveal(word);
    assert forall|k: int| 0 <= k < vals.len() implies word(b2, k) == #[trigger] vals[k] by {
        assert(b2.subrange(8 * k, 8 * k + 8) =~= b1.subrange(8 * k, 8 * k + 8));
    }
}

/// Appends every word after the register list: the register file, the
/// segment and control registers, and the multiprocessing state.
#[verifier::rlimit(100)]
#[verifier::spinoff_prover]
fn words_tail(vals: &mut Vec<u64>, s: &vcpu_state)
    requires
        old(vals)@.len() == 51,
    ensures
        final(vals)@.len() == STATE_WORDS,
        final(vals)@.subrange(0, 51) == old(vals)@,
        regs_vals_ok(s.regs, final(vals)@),
        sregs_vals_ok(s.sregs, final(vals)@),
        s.mp_state.mp_state == final(vals)@[180] as u32,
{
    vals.push(s.regs.rax);
    vals.push(s.regs.rbx);
    vals.push(s.regs.rcx);
    vals.push(s.regs.rdx);
    vals.push(s.regs.rsi);
    vals.push(s.regs.rdi);
    vals.push(s.regs.rsp);
    vals.push(s.regs.rbp);
    vals.push(s.regs.r8);
    vals.push(s.regs.r9);
    vals.push(s.regs.r10);
    vals.push(s.regs.r11);
    vals.push(s.regs.r12);
    vals.push(s.regs.r13);
    vals.push(s.regs.r14);
    vals.push(s.regs.r15);
    vals.push(s.regs.rip);
    vals.push(s.regs.rflags);
    push_segment_words(vals, &s.sregs.cs);
    push_segment_words(vals, &s.sregs.ds);
    push_segment_words(vals, &s.sregs.es);
    push_segment_words(vals, &s.sregs.fs);
    push_segment_words(vals, &s.sregs.gs);
    push_segment_words(vals, &s.sregs.ss);
    push_segment_words(vals, &s.sregs.tr);
    push_segment_words(vals, &s.sregs.ldt);
    vals.push(s.sregs.gdt.base);
    vals.push(s.sregs.gdt.limit as u64);
    vals.push(s.sregs.idt.base);
    vals.push(s.sregs.idt.limit as u64);
    vals.push(s.sregs.cr0);
    vals.push(s.sregs.cr2);
    vals.push(s.sregs.cr3);
    vals.push(s.sregs.cr4);
    vals.push(s.sregs.cr8);
    vals.push(s.sregs.efer);
    vals.push(s.sregs.apic_base);
    vals.push(s.sregs.interrupt_bitmap0);
    vals.push(s.sregs.interrupt_bitmap1);
    vals.push(s.sregs.interrupt_bitmap2);
    vals.push(s.sregs.interrupt_bitmap3);
    vals.push(s.mp_state.mp_state as u64);
    proof {
        assert(vals@.subrange(0, 51) =~= old(vals)@);
    }
}

/// Appends one segment's twelve words.
fn push_segment_words(vals: &mut Vec<u64>, s: &kvm_segment)
    ensures
        final(vals)@ == old(vals)@ + seq![
            s.base,
            s.limit as u64,
            s.selector as u64,
            s.type_ as u64,
            s.present as u64,
            s.dpl as u64,
            s.db as u64,
            s.s as u64,
            s.l as u64,
            s.g as u64,
            s.avl as u64,
            s.unusable as u64,
        ],
{
    vals.push(s.base);
    vals.push(s.limit as u64);
    vals.push(s.selector as u64);
    vals.push(s.type_ as u64);
    vals.push(s.present as u64);
    vals.push(s.dpl as u64);
    vals.push(s.db as u64);
    vals.push(s.s as u64);
    vals.push(s.l as u64);
    vals.push(s.g as u64);
    vals.push(s.avl as u64);
    vals.push(s.unusable as u64);
    proof {
        assert(vals@ =~= old(vals)@ + seq![
            s.base,
            s.limit as u64,
            s.selector as u64,
            s.type_ as u64,
            s.present as u64,
            s.dpl as u64,
            s.db as u64,
            s.s as u64,
            s.l as u64,
            s.g as u64,
            s.avl as u64,
            s.unusable as u64,
        ]);
    }
}

/// Collects the head words of a snapshot, in their stored order.
fn state_words(s: &vcpu_state) -> (vals: Vec<u64>)
    requires
        s.wf(),
    ensures
        vals@.len() == STATE_WORDS,
        state_vals_ok(*s, vals@),
{
    let mut vals: Vec<u64> = Vec::new();
    vals.push(s.msr_data.info.nmsrs as u64);
    let mut t: usize = 0;
    while t < MSR_LIST_LEN
        invariant
            s.wf(),
            t <= MSR_LIST_LEN,
            vals@.len() == 1 + 2 * t,
            vals@[0] == s.msr_data.info.nmsrs as u64,
            forall|j: int|
                0 <= j < t ==> #[trigger] s.msr_data.entries@[j] == (kvm_msr_entry {
                    index: vals@[1 + 2 * j] as u32,
                    data: vals@[2 + 2 * j],
                }),
        decreases MSR_LIST_LEN - t,
    {
        let e = s.msr_data.entries[t];
        vals.push(e.index as u64);
        vals.push(e.data);
        t += 1;
    }
    let ghost head = vals@;
    words_tail(&mut vals, s);
    proof {
        assert forall|t2: int| 0 <= t2 < MSR_LIST_LEN implies #[trigger] s.msr_data.entries@[t2]
            == (kvm_msr_entry { index: vals@[1 + 2 * t2] as u32, data: vals@[2 + 2 * t2] }) by {
            assert(vals@[1 + 2 * t2] == vals@.subrange(0, 51)[1 + 2 * t2]);
            assert(vals@[2 + 2 * t2] == vals@.subrange(0, 51)[2 + 2 * t2]);
        }
        assert(vals@[0] == vals@.subrange(0, 51)[0]);
    }
    vals
}

/// Extracted words survive growing the buffer at the end.
proof fn lemma_words_of_stable(b1: Seq<u8>, b2: Seq<u8>)
    requires
        8 * STATE_WORDS <= b1.len(),
        b1.len() <= b2.len(),
        b2.subrange(0, b1.len() as int) == b1,
    ensures
        words_of(b2) == words_of(b1),
{
    reveal(word);
    assert forall|k: int| 0 <= k < STATE_WORDS implies word(b2, k) == word(b1, k) by {
        assert(b2.subrange(8 * k, 8 * k + 8) =~= b1.subrange(8 * k, 8 * k + 8));
    }
    assert(words_of(b2) =~= words_of(b1));
}

/// Encodes the head words of a snapshot.
#[verifier::rlimit(100)]
#[verifier::spinoff_prover]
fn encode_words(s: &vcpu_state) -> (v: Vec<u8>)
    requires
        s.wf(),
    ensures
        v@.len() == 8 * STATE_WORDS,
        state_vals_ok(*s, words_of(v@)),
{
    let vals = state_words(s);
    let mut v: Vec<u8> = Vec::new();
    crate::bytes::push_u64s(&mut v, &vals);
    proof {
        lemma_words_read_back(vals@, v@);
        assert(words_of(v@) =~= vals@);
    }
    v
}

/// Encodes a whole snapshot: the head words, then the five raw blocks.
#[verifier::rlimit(100)]
#[verifier::spinoff_prover]
pub fn encode_vcpu_state(s: &vcpu_state) -> (v: Vec<u8>)
    requires
        s.wf(),
    ensures
        v@.len() == VCPU_STATE_SIZE,
        state_matches(*s, v@),
{
    let mut v: Vec<u8> = encode_words(s);
    let ghost w0 = v@;
    v.extend_from_slice(s.fpu.raw.as_slice());
    v.extend_from_slice(s.lapic.raw.as_slice());
    v.extend_from_slice(s.xsave.raw.as_slice());
    v.extend_from_slice(s.xcrs.raw.as_slice());
    v.extend_from_slice(s.events.raw.as_slice());
    proof {
        assert(v@.subrange(0, w0.len() as int) =~= w0);
        lemma_words_of_stable(w0, v@);
        assert(v@.subrange(FPU_OFF as int, LAPIC_OFF as int) =~= s.fpu.raw@);
        assert(v@.subrange(LAPIC_OFF as int, XSAVE_OFF as int) =~= s.lapic.raw@);
        assert(v@.subrange(XSAVE_OFF as int, XCRS_OFF as int) =~= s.xsave.raw@);
        assert(v@.subrange(XCRS_OFF as int, EVENTS_OFF as int) =~= s.xcrs.raw@);
        assert(v@.subrange(EVENTS_OFF as int, VCPU_STATE_SIZE as int) =~= s.events.raw@);
    }
    v
}

/// Reads the word at word index `k`.
fn read_word(b: &[u8], k: usize) -> (r: u64)
    requires
        8 * k + 8 <= b@.len(),
    ensures
        r == word(b@, k as int),
{
    proof {
        reveal(word);
    }
    let n = b.len();
    crate::bytes::read_u64_le(b, 8 * k)
}

/// Reads one segment register from the words starting at `w`.
fn read_segment(b: &[u8], w: usize) -> (s: kvm_segment)
    requires
        w + 12 <= STATE_WORDS,
        8 * STATE_WORDS <= b@.len(),
    ensures
        segment_vals_ok(s, words_of(b@), w as int),
{
    let n = b.len();
    kvm_segment {
        base: read_word(b, w),
        limit: read_word(b, w + 1) as u32,
        selector: read_word(b, w + 2) as u16,
        type_: read_word(b, w + 3) as u8,
        present: read_word(b, w + 4) as u8,
        dpl: read_word(b, w + 5) as u8,
        db: read_word(b, w + 6) as u8,
        s: read_word(b, w + 7) as u8,
        l: read_word(b, w + 8) as u8,
        g: read_word(b, w + 9) as u8,
        avl: read_word(b, w + 10) as u8,
        unusable: read_word(b, w + 11) as u8,
    }
}

/// Reads the general-purpose registers from the words starting at `w`.
fn read_regs(b: &[u8]) -> (r: kvm_regs)
    requires
        8 * STATE_WORDS <= b@.len(),
    ensures
        regs_vals_ok(r, words_of(b@)),
{
    let n = b.len();
    kvm_regs {
        rax: read_word(b, 51),
        rbx: read_word(b, 52),
        rcx: read_word(b, 53),
        rdx: read_word(b, 54),
        rsi: read_word(b, 55),
        rdi: read_word(b, 56),
        rsp: read_word(b, 57),
        rbp: read_word(b, 58),
        r8: read_word(b, 59),
        r9: read_word(b, 60),
        r10: read_word(b, 61),
        r11: read_word(b, 62),
        r12: read_word(b, 63),
        r13: read_word(b, 64),
        r14: read_word(b, 65),
        r15: read_word(b, 66),
        rip: read_word(b, 67),
        rflags: read_word(b, 68),
    }
}

/// Reads the special registers from the words starting at `w`.
#[verifier::rlimit(50)]
fn read_sregs(b: &[u8]) -> (r: kvm_sregs)
    requires
        8 * STATE_WORDS <= b@.len(),
    ensures
        sregs_vals_ok(r, words_of(b@)),
{
    let n = b.len();
    kvm_sregs {
        cs: read_segment(b, 69),
        ds: read_segment(b, 81),
        es: read_segment(b, 93),
        fs: read_segment(b, 105),
        gs: read_segment(b, 117),
        ss: read_segment(b, 129),
        tr: read_segment(b, 141),
        ldt: read_segment(b, 153),
        gdt: kvm_dtable { base: read_word(b, 165), limit: read_word(b, 166) as u16 },
        idt: kvm_dtable { base: read_word(b, 167), limit: read_word(b, 168) as u16 },
        cr0: read_word(b, 169),
        cr2: read_word(b, 170),
        cr3: read_word(b, 171),
        cr4: read_word(b, 172),
        cr8: read_word(b, 173),
        efer: read_word(b, 174),
        apic_base: read_word(b, 175),
        interrupt_bitmap0: read_word(b, 176),
        interrupt_bitmap1: read_word(b, 177),
        interrupt_bitmap2: read_word(b, 178),
        interrupt_bitmap3: read_word(b, 179),
    }
}

/// Reads the register list from the head of the buffer.
fn read_msr_data(b: &[u8]) -> (m: kvm_msr_data)
    requires
        8 * STATE_WORDS <= b@.len(),
    ensures
        m.wf(),
        m.info.nmsrs == words_of(b@)[0] as u32,
        forall|t: int|
            0 <= t < MSR_LIST_LEN ==> #[trigger] m.entries@[t] == (kvm_msr_entry {
                index: words_of(b@)[1 + 2 * t] as u32,
                data: words_of(b@)[2 + 2 * t],
            }),
{
    let n = b.len();
    let nmsrs = read_word(b, 0) as u32;
    let mut entries: Vec<kvm_msr_entry> = Vec::new();
    let mut t: usize = 0;
    while t < MSR_LIST_LEN
        invariant
            n == b@.len(),
            8 * STATE_WORDS <= n,
            t <= MSR_LIST_LEN,
            entries@.len() == t,
            forall|j: int|
                0 <= j < t ==> #[trigger] entries@[j] == (kvm_msr_entry {
                    index: word(b@, 1 + 2 * j) as u32,
                    data: word(b@, 2 + 2 * j),
                }),
        decreases MSR_LIST_LEN - t,
    {
        let e = kvm_msr_entry {
            index: read_word(b, 1 + 2 * t) as u32,
            data: read_word(b, 2 + 2 * t),
        };
        entries.push(e);
        t += 1;
    }
    kvm_msr_data { info: kvm_msrs { nmsrs }, entries }
}

/// Decodes a snapshot; accepts exactly buffers of the encoded size.
pub fn decode_vcpu_state(b: &[u8]) -> (r: Option<vcpu_state>)
    ensures
        match r {
            Some(s) => b@.len() == VCPU_STATE_SIZE && s.wf() && state_matches(s, b@),
            None => b@.len() != VCPU_STATE_SIZE,
        },
{
    if b.len() != VCPU_STATE_SIZE {
        return None;
    }
    let msr_data = read_msr_data(b);
    let regs = read_regs(b);
    let sregs = read_sregs(b);
    let mp_state = kvm_mp_state { mp_state: read_word(b, 180) as u32 };
    let fpu = kvm_fpu { raw: vstd::slice::slice_to_vec(&b[FPU_OFF..LAPIC_OFF]) };
    let lapic = kvm_lapic_state { raw: vstd::slice::slice_to_vec(&b[LAPIC_OFF..XSAVE_OFF]) };
    let xsave = kvm_xsave { raw: vstd::slice::slice_to_vec(&b[XSAVE_OFF..XCRS_OFF]) };
    let xcrs = kvm_xcrs { raw: vstd::slice::slice_to_vec(&b[XCRS_OFF..EVENTS_OFF]) };
    let events = kvm_vcpu_events {
        raw: vstd::slice::slice_to_vec(&b[EVENTS_OFF..VCPU_STATE_SIZE]),
    };

    Some(
        vcpu_state {
            msr_data,
            regs,
            sregs,
            fpu,
            lapic,
            xsave,
            xcrs,
            events,
            mp_state,
        },
    )
}

/// Two snapshots that one byte sequence carries agree on every stored
/// field: the encoding determines the snapshot.
pub proof fn lemma_state_matches_agree(s1: vcpu_state, s2: vcpu_state, b: Seq<u8>)
    requires
        state_matches(s1, b),
        state_matches(s2, b),
    ensures
        s1.msr_data.info == s2.msr_data.info,
        s1.msr_data.entries@ == s2.msr_data.entries@,
        s1.regs == s2.regs,
        s1.sregs == s2.sregs,
        s1.fpu.raw@ == s2.fpu.raw@,
        s1.lapic.raw@ == s2.lapic.raw@,
        s1.xsave.raw@ == s2.xsave.raw@,
        s1.xcrs.raw@ == s2.xcrs.raw@,
        s1.events.raw@ == s2.events.raw@,
        s1.mp_state == s2.mp_state,
{
    assert(s1.msr_data.entries@ =~= s2.msr_data.entries@);
}

/// Bytes taken by an encoded guest clock.
pub const CLOCK_SIZE: usize = 16;

/// The bytes starting at `off` carry this clock value.
pub open spec fn clock_matches(c: kvm_clock_data, b: Seq<u8>, off: int) -> bool {
    &&& le64_val(b.subrange(off, off + 8)) == c.clock
    &&& le32_val(b.subrange(off + 8, off + 12)) == c.flags
}

/// Encodes the guest clock.
pub fn encode_clock(c: &kvm_clock_data) -> (v: Vec<u8>)
    ensures
        v@.len() == CLOCK_SIZE,
        clock_matches(*c, v@, 0),
{
    let mut v: Vec<u8> = Vec::new();
    push_u64_le(&mut v, c.clock);
    push_u32_le(&mut v, c.flags);
    push_u32_le(&mut v, 0);
    proof {
        crate::bytes::lemma_le64_roundtrip(c.clock);
        crate::bytes::lemma_le32_roundtrip(c.flags);
        assert(v@.subrange(0, 8) =~= u64_le(c.clock));
        assert(v@.subrange(8, 12) =~= u32_le(c.flags));
    }
    v
}

/// Decodes a guest clock from the bytes starting at `off`.
pub fn decode_clock(b: &[u8], off: usize) -> (c: kvm_clock_data)
    requires
        off + CLOCK_SIZE <= b@.len(),
    ensures
        clock_matches(c, b@, off as int),
{
    let n = b.len();
    kvm_clock_data { clock: read_u64_le(b, off), flags: read_u32_le(b, off + 8) }
}

/// The extended feature register.
pub const MSR_EFER: u32 = 0xc0000080;

/// The legacy-mode system-call target.
pub const MSR_STAR: u32 = 0xc0000081;

/// The long-mode system-call target.
pub const MSR_LSTAR: u32 = 0xc0000082;

/// The compatibility-mode system-call target.
pub const MSR_CSTAR: u32 = 0xc0000083;

/// The 64-bit FS base.
pub const MSR_FS_BASE: u32 = 0xc0000100;

/// The 64-bit GS base.
pub const MSR_GS_BASE: u32 = 0xc0000101;

/// The GS shadow swapped in by the kernel.
pub const MSR_KERNEL_GS_BASE: u32 = 0xc0000102;

pub const MSR_IA32_CR_PAT: u32 = 0x277;

pub const MSR_IA32_SYSENTER_CS: u32 = 0x174;

pub const MSR_IA32_SYSENTER_ESP: u32 = 0x175;

pub const MSR_IA32_SYSENTER_EIP: u32 = 0x176;

pub const MSR_IA32_APICBASE: u32 = 0x1b;

pub const MSR_IA32_MISC_ENABLE: u32 = 0x1a0;

pub const MSR_IA32_TSC: u32 = 0x10;

/// The model-specific registers a snapshot carries, in their stored
/// order.
pub fn msr_index_list() -> (r: Vec<u32>)
    ensures
        r@ =~= seq![
            MSR_IA32_APICBASE,
            MSR_IA32_SYSENTER_CS,
            MSR_IA32_SYSENTER_ESP,
            MSR_IA32_SYSENTER_EIP,
            MSR_IA32_CR_PAT,
            MSR_IA32_MISC_ENABLE,
            MSR_IA32_TSC,
            MSR_CSTAR,
            MSR_STAR,
            MSR_EFER,
            MSR_LSTAR,
            MSR_GS_BASE,
            MSR_FS_BASE,
            MSR_KERNEL_GS_BASE,
        ],
        r@.len() == 14,
{
    let mut r: Vec<u32> = Vec::new();
    r.push(MSR_IA32_APICBASE);
    r.push(MSR_IA32_SYSENTER_CS);
    r.push(MSR_IA32_SYSENTER_ESP);
    r.push(MSR_IA32_SYSENTER_EIP);
    r.push(MSR_IA32_CR_PAT);
    r.push(MSR_IA32_MISC_ENABLE);
    r.push(MSR_IA32_TSC);
    r.push(MSR_CSTAR);
    r.push(MSR_STAR);
    r.push(MSR_EFER);
    r.push(MSR_LSTAR);
    r.push(MSR_GS_BASE);
    r.push(MSR_FS_BASE);
    r.push(MSR_KERNEL_GS_BASE);
    proof {
        assert(r@ =~= seq![
            MSR_IA32_APICBASE,
            MSR_IA32_SYSENTER_CS,
            MSR_IA32_SYSENTER_ESP,
            MSR_IA32_SYSENTER_EIP,
            MSR_IA32_CR_PAT,
            MSR_IA32_MISC_ENABLE,
            MSR_IA32_TSC,
            MSR_CSTAR,
            MSR_STAR,
            MSR_EFER,
            MSR_LSTAR,
            MSR_GS_BASE,
            MSR_FS_BASE,
            MSR_KERNEL_GS_BASE,
        ]);
    }
    r
}

/// The register list a snapshot is taken with: the fourteen indices, no
/// values yet.
pub fn save_msr_template() -> (r: kvm_msr_data)
    ensures
        r.wf(),
        r.info.nmsrs == 14,
        forall|k: int|
            0 <= k < 14 ==> #[trigger] r.entries@[k].index == msr_index_spec(k),
{
    let indices = msr_index_list();
    let mut m = kvm_msr_data::default();
    m.info.nmsrs = 14;
    let mut k: usize = 0;
    while k < 14
        invariant
            k <= 14,
            m.info.nmsrs == 14,
            m.entries@.len() == MSR_LIST_LEN,
            indices@.len() == 14,
            forall|t: int| 0 <= t < 14 ==> #[trigger] indices@[t] == msr_index_spec(t),
            forall|t: int| 0 <= t < k ==> #[trigger] m.entries@[t].index == msr_index_spec(t),
        decreases 14 - k,
    {
        let e = kvm_msr_entry { index: indices[k], data: 0 };
        m.entries[k] = e;
        k += 1;
    }
    m
}

/// The index stored at one slot of the snapshot register list.
pub open spec fn msr_index_spec(k: int) -> u32 {
    seq![
        MSR_IA32_APICBASE,
        MSR_IA32_SYSENTER_CS,
        MSR_IA32_SYSENTER_ESP,
        MSR_IA32_SYSENTER_EIP,
        MSR_IA32_CR_PAT,
        MSR_IA32_MISC_ENABLE,
        MSR_IA32_TSC,
        MSR_CSTAR,
        MSR_STAR,
        MSR_EFER,
        MSR_LSTAR,
        MSR_GS_BASE,
        MSR_FS_BASE,
        MSR_KERNEL_GS_BASE,
    ][k]
}

/// The register list a cold boot writes: machine-check and fast-string
/// setup enabled through the miscellaneous-enable register alone.
pub fn boot_msr_data() -> (r: kvm_msr_data)
    ensures
        r.wf(),
        r.info.nmsrs == 1,
        r.entries@[0] == (kvm_msr_entry { index: MSR_IA32_MISC_ENABLE, data: 1 }),
{
    let mut m = kvm_msr_data::default();
    m.info.nmsrs = 1;
    m.entries[0] = kvm_msr_entry { index: MSR_IA32_MISC_ENABLE, data: 1 };
    m
}

/// The register file a cold boot starts from: the instruction pointer at
/// the kernel entry and only the always-set flag bit raised.
pub fn boot_regs(entry: u64) -> (r: kvm_regs)
    ensures
        r == (kvm_regs { rip: entry, rflags: 0x2, ..kvm_regs_zero() }),
{
    let mut r = kvm_regs::default();
    r.rip = entry;
    r.rflags = 0x2;
    r
}

/// The all-zero register file.
pub open spec fn kvm_regs_zero() -> kvm_regs {
    kvm_regs {
        rax: 0,
        rbx: 0,
        rcx: 0,
        rdx: 0,
        rsi: 0,
        rdi: 0,
        rsp: 0,
        rbp: 0,
        r8: 0,
        r9: 0,
        r10: 0,
        r11: 0,
        r12: 0,
        r13: 0,
        r14: 0,
        r15: 0,
        rip: 0,
        rflags: 0,
    }
}

/// One processor-identification table entry.
#[derive(Clone, Copy, Debug, PartialEq, Eq, Structural)]
pub struct kvm_cpuid_entry2 {
    pub function: u32,
    pub index: u32,
    pub flags: u32,
    pub eax: u32,
    pub ebx: u32,
    pub ecx: u32,
    pub edx: u32,
}

/// A processor-identification table with its entry count.
#[derive(Clone, Debug)]
pub struct kvm_cpuid2_data {
    pub nent: u32,
    pub entries: Vec<kvm_cpuid_entry2>,
}

/// How one table entry is adjusted before the guest sees it: the feature
/// leaf announces a hypervisor and model-specific-register support, and
/// the deadline timer when the host offers it; the performance-monitor
/// leaf is cleared; every other leaf stays.
pub open spec fn adjusted_cpuid_entry(e: kvm_cpuid_entry2, tsc_deadline: bool) -> kvm_cpuid_entry2 {
    if e.function == 1 {
        kvm_cpuid_entry2 {
            eax: if tsc_deadline {
                e.eax | 0x1000000
            } else {
                e.eax
            },
            ecx: e.ecx | 0x80000000,
            edx: e.edx | 0x20,
            ..e
        }
    } else if e.function == 0xa {
        kvm_cpuid_entry2 { eax: 0, ..e }
    } else {
        e
    }
}

/// Adjusts the host-supported processor-identification table for the
/// guest, entry by entry.
pub fn adjust_cpuid(table: &mut kvm_cpuid2_data, tsc_deadline: bool)
    ensures
        final(table).nent == old(table).nent,
        final(table).entries@.len() == old(table).entries@.len(),
        forall|k: int|
            0 <= k < old(table).entries@.len() ==> final(table).entries@[k]
                == adjusted_cpuid_entry(#[trigger] old(table).entries@[k], tsc_deadline),
{
    let n = table.entries.len();
    let mut k: usize = 0;
    while k < n
        invariant
            k <= n,
            n == table.entries@.len(),
            table.nent == old(table).nent,
            table.entries@.len() == old(table).entries@.len(),
            forall|t: int|
                0 <= t < k ==> table.entries@[t] == adjusted_cpuid_entry(
                    #[trigger] old(table).entries@[t],
                    tsc_deadline,
                ),
            forall|t: int|
                k <= t < n ==> #[trigger] table.entries@[t] == old(table).entries@[t],
        decreases n - k,
    {
        let e = table.entries[k];
        if e.function == 1 {
            let new_eax = if tsc_deadline {
                e.eax | 0x1000000
            } else {
                e.eax
            };
            table.entries[k] = kvm_cpuid_entry2 {
                eax: new_eax,
                ecx: e.ecx | 0x80000000,
                edx: e.edx | 0x20,
                ..e
            };
        } else if e.function == 0xa {
            table.entries[k] = kvm_cpuid_entry2 { eax: 0, ..e };
        }
        k += 1;
    }
}

} // verus!
