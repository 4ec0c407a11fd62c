//! The machine model: memory layout, boot tables, hypercall decoding,
//! snapshots and page records.

use uhyve::checkpoint::{apply_records, decode_records, encode_records, PageRecord};
use uhyve::elf::validate_elf;
use uhyve::error::Error;
use uhyve::gdt;
use uhyve::kvm::{
    decode_clock, decode_vcpu_state, encode_clock, encode_vcpu_state, kvm_clock_data,
    kvm_sregs, vcpu_state,
};
use uhyve::mem::{GuestMemory, BOOT_GDT, BOOT_PDPTE, BOOT_PML4, KVM_32BIT_GAP_START};
use uhyve::proto::{
    classify_other, open_allowed, read_close_req, read_exit_code, RunExitInfo, Return, Syscall,
    KVM_EXIT_HLT, KVM_EXIT_IO, PORT_CLOSE, PORT_EXIT,
};
use uhyve::vm::{
    setup_system_64bit, setup_system_gdt, setup_system_page_tables, ExitCode, Signal,
    VirtualMachine, X86_CR0_PE, X86_CR0_PG, X86_CR4_PAE, EFER_LMA, EFER_LME,
};

#[test]
fn small_memory_has_no_gap() {
    let mem = GuestMemory::new(0x100000);
    assert_eq!(mem.len(), 0x100000);
    assert!(!mem.has_gap());
    assert_eq!(mem.guest_size(), 0x100000);
}

#[test]
fn page_tables_identity_map() {
    let mut mem = GuestMemory::new(0x100000);
    let mut sregs = kvm_sregs::default();
    setup_system_page_tables(&mut mem, &mut sregs).unwrap();
    assert_eq!(mem.read_u64(BOOT_PML4), BOOT_PDPTE | 0x3);
    for i in 0..256u64 {
        assert_eq!(mem.read_u64(BOOT_PDPTE + 8 * i), (i * 0x200000) | 0x83);
    }
    assert_eq!(mem.read_u64(BOOT_PDPTE + 8 * 256), 0);
    assert_eq!(sregs.cr3, BOOT_PML4);
    assert_eq!(sregs.cr4 & X86_CR4_PAE, X86_CR4_PAE);
    assert_eq!(sregs.cr0 & X86_CR0_PG, X86_CR0_PG);
}

#[test]
fn long_mode_bits() {
    let mut sregs = kvm_sregs::default();
    setup_system_64bit(&mut sregs).unwrap();
    assert_eq!(sregs.cr0 & X86_CR0_PE, X86_CR0_PE);
    assert_eq!(sregs.cr4 & X86_CR4_PAE, X86_CR4_PAE);
    assert_eq!(sregs.efer & (EFER_LME | EFER_LMA), EFER_LME | EFER_LMA);
}

#[test]
fn gdt_descriptors() {
    assert_eq!(gdt::Entry::new(0, 0, 0).as_u64(), 0);
    assert_eq!(
        gdt::Entry::new(0xa09b, 0, 0xfffff).as_u64(),
        0x00af_9b00_0000_ffff
    );
    assert_eq!(
        gdt::Entry::new(0xc093, 0, 0xfffff).as_u64(),
        0x00cf_9300_0000_ffff
    );
    let mut mem = GuestMemory::new(0x100000);
    let mut sregs = kvm_sregs::default();
    setup_system_gdt(&mut mem, &mut sregs, BOOT_GDT).unwrap();
    assert_eq!(mem.read_u64(BOOT_GDT), 0);
    assert_eq!(mem.read_u64(BOOT_GDT + 8), 0x00af_9b00_0000_ffff);
    assert_eq!(sregs.cs.selector, 8);
    assert_eq!(sregs.cs.l, 1);
    assert_eq!(sregs.ds.selector, 16);
    assert_eq!(sregs.ds.db, 1);
    assert_eq!(sregs.cs.limit, 0xffffffff);
}

#[test]
fn elf_header_validation() {
    let mut good = vec![0u8; 64];
    good[0] = 0x7f;
    good[1] = b'E';
    good[2] = b'L';
    good[3] = b'F';
    good[4] = 2; // 64-bit
    good[7] = 0x42; // unikernel tag
    good[16] = 2; // executable
    good[18] = 0x3e; // x86-64
    good[24] = 0x00;
    good[25] = 0x00;
    good[26] = 0x20; // entry 0x200000
    assert!(validate_elf(&good).is_some());
    assert_eq!(validate_elf(&good).unwrap().entry, 0x200000);

    let mut wrong_class = good.clone();
    wrong_class[4] = 1;
    assert!(validate_elf(&wrong_class).is_none());

    let mut wrong_osabi = good.clone();
    wrong_osabi[7] = 0;
    assert!(validate_elf(&wrong_osabi).is_none());

    let mut wrong_type = good.clone();
    wrong_type[16] = 3;
    assert!(validate_elf(&wrong_type).is_none());

    let mut wrong_machine = good.clone();
    wrong_machine[18] = 0x28;
    assert!(validate_elf(&wrong_machine).is_none());

    assert!(validate_elf(&good[..32]).is_none());
}

#[test]
fn unknown_port_is_a_protocol_error() {
    let run = RunExitInfo {
        exit_reason: KVM_EXIT_IO,
        port: 0x29a,
        direction: 1,
        arg_addr: 0,
        aux: 0,
    };
    match Syscall::from_mem(&run) {
        Err(Error::Protocol(msg)) => {
            assert!(msg.contains("0x29a"));
            assert!(msg.contains("unhandled"));
        },
        other => panic!("unexpected: {:?}", other),
    }
}

#[test]
fn exit_hypercall_reads_the_code() {
    let run = RunExitInfo {
        exit_reason: KVM_EXIT_IO,
        port: PORT_EXIT,
        direction: 0,
        arg_addr: 0x1000,
        aux: 0,
    };
    let sc = Syscall::from_mem(&run).unwrap();
    assert_eq!(sc, Syscall::Exit(0x1000));

    let mut mem = GuestMemory::new(0x10000);
    // the argument block holds a guest pointer to the exit code
    mem.write_u32(0x1000, 0x2000);
    mem.write_u8(0x2000, 0);
    assert_eq!(read_exit_code(&mem, 0x1000), Some(0));
    mem.write_u8(0x2000, 7);
    assert_eq!(read_exit_code(&mem, 0x1000), Some(7));
}

#[test]
fn halting_is_a_clean_exit() {
    assert_eq!(classify_other(KVM_EXIT_HLT, 0), Ok(Return::Exit(0)));
    assert!(classify_other(99, 0).is_err());
}

#[test]
fn opening_the_control_device_is_refused() {
    assert!(!open_allowed("/dev/kvm"));
    assert!(open_allowed("/tmp/x"));
}

#[test]
fn close_request_decision() {
    let mut mem = GuestMemory::new(0x10000);
    mem.write_u32(0x100, 2); // fd
    let req = read_close_req(&mem, 0x100).unwrap();
    assert_eq!(req.fd, 2);
    assert!(!uhyve::proto::close_reaches_host(req.fd));
    mem.write_u32(0x100, 5);
    assert!(uhyve::proto::close_reaches_host(5));
    let run = RunExitInfo {
        exit_reason: KVM_EXIT_IO,
        port: PORT_CLOSE,
        direction: 0,
        arg_addr: 0x100,
        aux: 0,
    };
    assert_eq!(Syscall::from_mem(&run).unwrap(), Syscall::Close(0x100));
}

#[test]
fn vcpu_state_codec_roundtrip() {
    let mut st = vcpu_state::default();
    st.regs.rax = 0x1122334455667788;
    st.regs.rip = 0xdeadbeef;
    st.sregs.cr3 = 0x10000;
    st.sregs.cs.selector = 8;
    st.msr_data.info.nmsrs = 14;
    st.msr_data.entries[0].index = 0x1b;
    st.msr_data.entries[0].data = 0xfee00000;
    st.fpu.raw[3] = 0xaa;
    st.xsave.raw[4095] = 0x55;
    st.mp_state.mp_state = 1;

    let bytes = encode_vcpu_state(&st);
    let back = decode_vcpu_state(&bytes).unwrap();
    assert_eq!(back.regs, st.regs);
    assert_eq!(back.sregs, st.sregs);
    assert_eq!(back.msr_data.info.nmsrs, 14);
    assert_eq!(back.msr_data.entries[0].index, 0x1b);
    assert_eq!(back.msr_data.entries[0].data, 0xfee00000);
    assert_eq!(back.fpu.raw, st.fpu.raw);
    assert_eq!(back.xsave.raw, st.xsave.raw);
    assert_eq!(back.mp_state, st.mp_state);
    // the encoding is canonical: encoding the decoded state gives the
    // same bytes
    assert_eq!(encode_vcpu_state(&back), bytes);
    assert!(decode_vcpu_state(&bytes[1..]).is_none());
}

#[test]
fn clock_codec() {
    let c = kvm_clock_data { clock: 123456789, flags: 1 };
    let b = encode_clock(&c);
    assert_eq!(b.len(), 16);
    let back = decode_clock(&b, 0);
    assert_eq!(back, c);
}

#[test]
fn page_records_roundtrip_and_restore() {
    let rec1 = PageRecord { entry: 0x3000 | 0x63, data: vec![0xabu8; 0x1000] };
    let rec2 = PageRecord { entry: 0x200000 | 0xe3, data: vec![0xcdu8; 0x200000] };
    let rs = vec![rec1, rec2];
    let bytes = encode_records(&rs);
    assert_eq!(bytes.len(), 8 + 0x1000 + 8 + 0x200000);
    let back = decode_records(&bytes).unwrap();
    assert_eq!(back.len(), 2);
    assert_eq!(back[0].entry, 0x3000 | 0x63);
    assert_eq!(back[1].data.len(), 0x200000);

    let mut mem = GuestMemory::new(0x500000);
    apply_records(&mut mem, &back).unwrap();
    assert_eq!(mem.read_u8(0x3000), 0xab);
    assert_eq!(mem.read_u8(0x3fff), 0xab);
    assert_eq!(mem.read_u8(0x200000), 0xcd);
    assert_eq!(mem.read_u8(0x3fffff), 0xcd);
    assert_eq!(mem.read_u8(0x2fff), 0);
}

#[test]
fn checkpoint_counter_and_freeze() {
    let mut vm = VirtualMachine::new(0x100000, 2, false, 1, false);
    assert!(!vm.is_running());
    vm.elf_entry = Some(0x200000);
    vm.begin_freeze();
    assert!(vm.control.interrupt);
    let cfg = vm.complete_checkpoint().unwrap();
    vm.end_freeze();
    assert!(!vm.control.interrupt);
    assert_eq!(cfg.checkpoint_number, 0);
    assert_eq!(vm.checkpoint_num, 1);

    // a machine restored from that checkpoint writes the same next text
    let mut vm2 = VirtualMachine::new(0x100000, 2, false, 1, false);
    vm2.adopt_checkpoint(&cfg);
    let next_src = vm.get_checkpoint_config().unwrap();
    let next_dst = vm2.get_checkpoint_config().unwrap();
    assert_eq!(next_src.to_string(), next_dst.to_string());
}

#[test]
fn signals_and_stop() {
    assert!(!VirtualMachine::handle_signal(Signal::Int));
    assert!(!VirtualMachine::handle_signal(Signal::Term));
    assert!(VirtualMachine::handle_signal(Signal::Usr1));
    let vm = VirtualMachine::new(0x1000, 1, true, 0, false);
    assert!(!vm.should_checkpoint(5));
    let vm2 = VirtualMachine::new(0x1000, 1, true, 3, false);
    assert!(vm2.should_checkpoint(6));
    assert!(!vm2.should_checkpoint(7));

    let ok = vec![ExitCode::Innocent, ExitCode::Cause(Ok(0))];
    assert!(VirtualMachine::stop_result(&ok).is_ok());
    let bad = vec![ExitCode::Cause(Err(Error::ThreadError))];
    assert_eq!(VirtualMachine::stop_result(&bad), Err(Error::ThreadError));
}

#[test]
fn gap_constant() {
    assert_eq!(KVM_32BIT_GAP_START, 0xd0000000);
}

#[test]
fn scan_records_accessed_pages() {
    let mut vm = VirtualMachine::new(0x100000, 1, true, 0, false);
    vm.elf_entry = Some(0x20000);
    // a page-table chain the guest might have built: root one page
    // above the entry point
    vm.mem.write_u64(0x21000, 0x30000 | 0x3);
    vm.mem.write_u64(0x30000, 0x31000 | 0x3);
    vm.mem.write_u64(0x31000, 0x32000 | 0x3);
    vm.mem.write_u64(0x32000 + 8 * 5, 0x40000 | 0x23); // present | accessed
    vm.mem.write_u64(0x32000 + 8 * 6, 0x41000 | 0x3); // present, untouched
    vm.mem.write_u8(0x40000, 0x99);
    let records = vm.scan_page_tables().unwrap();
    assert_eq!(records.len(), 1);
    assert_eq!(records[0].entry, 0x40000 | 0x23);
    assert_eq!(records[0].data.len(), 0x1000);
    assert_eq!(records[0].data[0], 0x99);
}

#[test]
fn boot_info_block() {
    let mut mem = GuestMemory::new(0x100000);
    uhyve::vm::write_boot_info(
        &mut mem,
        0x200000 - 0x200000 + 0x1000,
        0x4000,
        2400,
        true,
        Some((10, 0, 5, 2)),
        None,
        Some((255, 255, 255, 0)),
        0xdeadb000,
    )
    .unwrap();
    let p = 0x1000u64;
    assert_eq!(mem.read_u64(p + 0x08), p);
    assert_eq!(mem.read_u64(p + 0x10), 0x100000);
    assert_eq!(mem.read_u32(p + 0x18), 2400);
    assert_eq!(mem.read_u32(p + 0x24), 1);
    assert_eq!(mem.read_u64(p + 0x38), 0x4000);
    assert_eq!(mem.read_u32(p + 0x60), 1);
    assert_eq!(mem.read_u32(p + 0x94), 1);
    assert_eq!(mem.read_u64(p + 0x98), 0x800);
    assert_eq!(mem.read_u8(p + 0xb0), 10);
    assert_eq!(mem.read_u8(p + 0xb3), 2);
    assert_eq!(mem.read_u32(p + 0xb4), 0); // no gateway given
    assert_eq!(mem.read_u8(p + 0xb8), 255);
    assert_eq!(mem.read_u64(p + 0xbc), 0xdeadb000);
}

#[test]
fn msr_list_and_boot_values() {
    let list = uhyve::kvm::msr_index_list();
    assert_eq!(
        list,
        vec![
            0x1b, 0x174, 0x175, 0x176, 0x277, 0x1a0, 0x10, 0xc0000083, 0xc0000081, 0xc0000080,
            0xc0000082, 0xc0000101, 0xc0000100, 0xc0000102
        ]
    );
    let tmpl = uhyve::kvm::save_msr_template();
    assert_eq!(tmpl.info.nmsrs, 14);
    assert_eq!(tmpl.entries[13].index, 0xc0000102);
    let boot = uhyve::kvm::boot_msr_data();
    assert_eq!(boot.info.nmsrs, 1);
    assert_eq!(boot.entries[0].index, 0x1a0);
    assert_eq!(boot.entries[0].data, 1);
    let regs = uhyve::kvm::boot_regs(0x200000);
    assert_eq!(regs.rip, 0x200000);
    assert_eq!(regs.rflags, 0x2);
    assert_eq!(regs.rax, 0);
}

#[test]
fn cpuid_adjustment() {
    let mut table = uhyve::kvm::kvm_cpuid2_data {
        nent: 3,
        entries: vec![
            uhyve::kvm::kvm_cpuid_entry2 {
                function: 1,
                index: 0,
                flags: 0,
                eax: 0,
                ebx: 7,
                ecx: 0,
                edx: 0,
            },
            uhyve::kvm::kvm_cpuid_entry2 {
                function: 0xa,
                index: 0,
                flags: 0,
                eax: 0x77,
                ebx: 1,
                ecx: 2,
                edx: 3,
            },
            uhyve::kvm::kvm_cpuid_entry2 {
                function: 7,
                index: 0,
                flags: 0,
                eax: 5,
                ebx: 6,
                ecx: 7,
                edx: 8,
            },
        ],
    };
    uhyve::kvm::adjust_cpuid(&mut table, true);
    assert_eq!(table.entries[0].ecx, 0x80000000);
    assert_eq!(table.entries[0].edx, 0x20);
    assert_eq!(table.entries[0].eax, 0x1000000);
    assert_eq!(table.entries[0].ebx, 7);
    assert_eq!(table.entries[1].eax, 0);
    assert_eq!(table.entries[1].ebx, 1);
    assert_eq!(table.entries[2].eax, 5);
}

#[test]
fn command_line_forwarding() {
    let mut mem = GuestMemory::new(0x10000);
    let args = vec![b"one".to_vec(), b"two2".to_vec()];
    let envs = vec![b"A=1".to_vec()];
    assert!(uhyve::proto::finish_cmdsize(&mut mem, 0x100, &args, &envs));
    assert_eq!(mem.read_u32(0x100), 2); // argc
    assert_eq!(mem.read_u32(0x104), 4); // "one" plus its terminator
    assert_eq!(mem.read_u32(0x108), 5);
    assert_eq!(mem.read_u32(0x100 + 516), 1); // envc
    assert_eq!(mem.read_u32(0x100 + 520), 3);

    // pointer tables for the copies
    mem.write_u64(0x800, 0x900);
    mem.write_u64(0x808, 0x940);
    mem.write_u64(0x880, 0x980);
    uhyve::proto::finish_cmdval(&mut mem, 0x800, 0x880, &args, &envs);
    assert_eq!(uhyve::proto::read_cstring(&mem, 0x900).unwrap(), b"one".to_vec());
    assert_eq!(uhyve::proto::read_cstring(&mem, 0x940).unwrap(), b"two2".to_vec());
    assert_eq!(uhyve::proto::read_cstring(&mem, 0x980).unwrap(), b"A=1".to_vec());
}

#[test]
fn net_result_write_back() {
    let mut mem = GuestMemory::new(0x1000);
    assert!(uhyve::proto::finish_netread(&mut mem, 0x100, 42));
    assert_eq!(mem.read_u64(0x108), 42); // len
    assert_eq!(mem.read_u32(0x110), 0); // ret
    assert!(uhyve::proto::finish_netwrite(&mut mem, 0x100, -1));
    assert_eq!(mem.read_u32(0x110), 0xffffffff); // ret = -1
    assert_eq!(mem.read_u64(0x108), 42); // len untouched on failure
}

#[test]
fn other_exits_name_their_reason() {
    match classify_other(uhyve::proto::KVM_EXIT_MMIO, 0xfee0) {
        Err(Error::Protocol(m)) => assert_eq!(m, "KVM: unhandled KVM_EXIT_MMIO at 0xfee0"),
        other => panic!("unexpected: {:?}", other),
    }
    match classify_other(uhyve::proto::KVM_EXIT_SHUTDOWN, 0) {
        Err(Error::Protocol(m)) => assert_eq!(m, "KVM: receive shutdown command"),
        other => panic!("unexpected: {:?}", other),
    }
    match classify_other(0x7f, 0) {
        Err(Error::Protocol(m)) => assert_eq!(m, "KVM: unhandled exit: exit_reason = 0x7f"),
        other => panic!("unexpected: {:?}", other),
    }
}

#[test]
fn scan_clears_dirty_bits_on_incremental_runs() {
    let mut vm = VirtualMachine::new(0x100000, 1, false, 0, false);
    vm.checkpoint_num = 1; // past the first generation: the witness is the dirty bit
    vm.elf_entry = Some(0x20000);
    vm.mem.write_u64(0x21000, 0x30000 | 0x3);
    vm.mem.write_u64(0x30000, 0x31000 | 0x3);
    vm.mem.write_u64(0x31000, 0x32000 | 0x3);
    vm.mem.write_u64(0x32000, 0x40000 | 0x63); // present | accessed | dirty
    let records = vm.scan_page_tables().unwrap();
    assert_eq!(records.len(), 1);
    // the record and the live entry both lose the dirty and accessed bits
    assert_eq!(records[0].entry, 0x40000 | 0x3);
    assert_eq!(vm.mem.read_u64(0x32000), 0x40000 | 0x3);
}
