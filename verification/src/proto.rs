//! The port-I/O hypercall protocol: decoding a virtualization exit into a
//! typed request, the pure decisions each request calls for, and the
//! write-back of results into guest memory.

use vstd::prelude::*;
use vstd::string::StringSliceAdditionalSpecFns;
use vstd::utf8::encode_utf8;

use crate::bytes::{le32_val, le64_val, splice, u32_le, u64_le};
use crate::error::Error;
use crate::mem::GuestMemory;
use crate::text::{
    all_ascii, ascii_of, hex_rep, lemma_all_ascii_concat, lemma_ascii_of_all_ascii,
    lemma_dec_rep, lemma_digits_all_ascii, lemma_hex_rep, dec_rep, lit_bytes, string_from_ascii,
};

verus! {

pub const PORT_WRITE: u16 = 0x400;

pub const PORT_OPEN: u16 = 0x440;

pub const PORT_CLOSE: u16 = 0x480;

pub const PORT_READ: u16 = 0x500;

pub const PORT_EXIT: u16 = 0x540;

pub const PORT_LSEEK: u16 = 0x580;

pub const PORT_NETINFO: u16 = 0x600;

pub const PORT_NETWRITE: u16 = 0x640;

pub const PORT_NETREAD: u16 = 0x680;

pub const PORT_NETSTAT: u16 = 0x700;

pub const PORT_CMDSIZE: u16 = 0x740;

pub const PORT_CMDVAL: u16 = 0x780;

pub const PORT_UART: u16 = 0x800;

/// The exit reasons of the run ioctl that the core distinguishes.
pub const KVM_EXIT_IO: u32 = 2;

pub const KVM_EXIT_HLT: u32 = 5;

pub const KVM_EXIT_MMIO: u32 = 6;

pub const KVM_EXIT_DEBUG: u32 = 4;

pub const KVM_EXIT_FAIL_ENTRY: u32 = 9;

pub const KVM_EXIT_INTERNAL_ERROR: u32 = 17;

pub const KVM_EXIT_SHUTDOWN: u32 = 8;

/// What one return from the run ioctl reported, read off the shared run
/// page: the exit reason, the port and direction for port I/O, the guest
/// address found at the data offset, and the diagnostic word for the
/// other exit kinds.
#[derive(Clone, Copy, Debug, PartialEq, Eq, Structural)]
pub struct RunExitInfo {
    pub exit_reason: u32,
    pub port: u16,
    pub direction: u8,
    pub arg_addr: u64,
    pub aux: u64,
}

/// An exit request: the argument is the guest address of the exit code.
#[derive(Clone, Copy, Debug, PartialEq, Eq, Structural)]
pub struct Exit {
    pub arg: i32,
}

/// A file-write request.
#[derive(Clone, Copy, Debug, PartialEq, Eq, Structural)]
pub struct Write {
    pub fd: i32,
    pub buf: u64,
    pub length: u64,
}

/// A file-open request; `name` points at a NUL-terminated path.
#[derive(Clone, Copy, Debug, PartialEq, Eq, Structural)]
pub struct Open {
    pub name: u64,
    pub flags: i32,
    pub mode: i32,
    pub ret: i32,
}

/// A file-close request.
#[derive(Clone, Copy, Debug, PartialEq, Eq, Structural)]
pub struct Close {
    pub fd: i32,
    pub ret: i32,
}

/// A file-read request.
#[derive(Clone, Copy, Debug, PartialEq, Eq, Structural)]
pub struct Read {
    pub fd: i32,
    pub buf: u64,
    pub len: u64,
    pub ret: i64,
}

/// A file-seek request.
#[derive(Clone, Copy, Debug, PartialEq, Eq, Structural)]
pub struct LSeek {
    pub fd: i32,
    pub offset: i64,
    pub whence: i32,
}

/// A request for the network interface's hardware address.
#[derive(Clone, Copy, Debug, PartialEq, Eq, Structural)]
pub struct NetInfo {
    pub mac_str_addr: u64,
}

/// A network-write request.
#[derive(Clone, Copy, Debug, PartialEq, Eq, Structural)]
pub struct NetWrite {
    pub data: u64,
    pub len: u64,
    pub ret: i32,
}

/// A network-read request.
#[derive(Clone, Copy, Debug, PartialEq, Eq, Structural)]
pub struct NetRead {
    pub data: u64,
    pub len: u64,
    pub ret: i32,
}

/// A query whether a network interface is attached.
#[derive(Clone, Copy, Debug, PartialEq, Eq, Structural)]
pub struct NetStat {
    pub status: i32,
}

/// A query for the sizes of the forwarded command line and environment.
#[derive(Clone, Copy, Debug, PartialEq, Eq, Structural)]
pub struct CmdSize {
    pub addr: u64,
}

/// A request to copy the command line and environment into guest buffers.
#[derive(Clone, Copy, Debug, PartialEq, Eq, Structural)]
pub struct CmdVal {
    pub argv: u64,
    pub envp: u64,
}

/// A decoded hypercall: for the port requests the payload is the guest
/// physical address of the argument block.
#[derive(Clone, Copy, Debug, PartialEq, Eq, Structural)]
pub enum Syscall {
    UART(u8),
    Write(u64),
    Open(u64),
    Close(u64),
    Read(u64),
    LSeek(u64),
    Exit(u64),
    NetInfo(u64),
    NetWrite(u64),
    NetRead(u64),
    NetStat(u64),
    CmdSize(u64),
    CmdVal(u64),
    Other(u32, u64),
}

/// What a serviced hypercall tells the run loop.
#[derive(Clone, Copy, Debug, PartialEq, Eq, Structural)]
pub enum Return {
    Continue,
    Interrupt,
    Exit(i32),
}

/// The message a hypercall on an unknown port is refused with: it names
/// the port and the transfer direction.
pub open spec fn unknown_port_msg(port: u16, direction: u8) -> Seq<u8> {
    ascii_of("KVM: unhandled KVM_EXIT_IO at port 0x"@) + hex_rep(port as nat) + ascii_of(
        ", direction "@,
    ) + dec_rep(direction as nat)
}

/// What decoding an exit gives: the hypercall for a known port, and for a
/// port-I/O exit on an unknown port nothing.
pub open spec fn decode_spec(run: RunExitInfo) -> Option<Syscall> {
    if run.exit_reason != KVM_EXIT_IO {
        Some(Syscall::Other(run.exit_reason, run.aux))
    } else if run.port == PORT_UART {
        Some(Syscall::UART(run.arg_addr as u8))
    } else if run.port == PORT_WRITE {
        Some(Syscall::Write(run.arg_addr))
    } else if run.port == PORT_READ {
        Some(Syscall::Read(run.arg_addr))
    } else if run.port == PORT_CLOSE {
        Some(Syscall::Close(run.arg_addr))
    } else if run.port == PORT_OPEN {
        Some(Syscall::Open(run.arg_addr))
    } else if run.port == PORT_LSEEK {
        Some(Syscall::LSeek(run.arg_addr))
    } else if run.port == PORT_EXIT {
        Some(Syscall::Exit(run.arg_addr))
    } else if run.port == PORT_NETINFO {
        Some(Syscall::NetInfo(run.arg_addr))
    } else if run.port == PORT_NETWRITE {
        Some(Syscall::NetWrite(run.arg_addr))
    } else if run.port == PORT_NETREAD {
        Some(Syscall::NetRead(run.arg_addr))
    } else if run.port == PORT_NETSTAT {
        Some(Syscall::NetStat(run.arg_addr))
    } else if run.port == PORT_CMDSIZE {
        Some(Syscall::CmdSize(run.arg_addr))
    } else if run.port == PORT_CMDVAL {
        Some(Syscall::CmdVal(run.arg_addr))
    } else {
        None
    }
}

impl Syscall {
    /// Decodes one virtualization exit.  A port-I/O exit on a port outside
    /// the protocol is refused with a protocol error naming the port.
    pub fn from_mem(run: &RunExitInfo) -> (r: Result<Syscall, Error>)
        ensures
            match r {
                Ok(sc) => decode_spec(*run) == Some(sc),
                Err(e) => decode_spec(*run) is None && (match e {
                    Error::Protocol(msg) => encode_utf8(msg@) == unknown_port_msg(
                        run.port,
                        run.direction,
                    ),
                    _ => false,
                }),
            },
    {
        if run.exit_reason != KVM_EXIT_IO {
            return Ok(Syscall::Other(run.exit_reason, run.aux));
        }
        let p = run.port;
        let a = run.arg_addr;
        if p == PORT_UART {
            Ok(Syscall::UART(a as u8))
        } else if p == PORT_WRITE {
            Ok(Syscall::Write(a))
        } else if p == PORT_READ {
            Ok(Syscall::Read(a))
        } else if p == PORT_CLOSE {
            Ok(Syscall::Close(a))
        } else if p == PORT_OPEN {
            Ok(Syscall::Open(a))
        } else if p == PORT_LSEEK {
            Ok(Syscall::LSeek(a))
        } else if p == PORT_EXIT {
            Ok(Syscall::Exit(a))
        } else if p == PORT_NETINFO {
            Ok(Syscall::NetInfo(a))
        } else if p == PORT_NETWRITE {
            Ok(Syscall::NetWrite(a))
        } else if p == PORT_NETREAD {
            Ok(Syscall::NetRead(a))
        } else if p == PORT_NETSTAT {
            Ok(Syscall::NetStat(a))
        } else if p == PORT_CMDSIZE {
            Ok(Syscall::CmdSize(a))
        } else if p == PORT_CMDVAL {
            Ok(Syscall::CmdVal(a))
        } else {
            Err(Error::Protocol(Self::unknown_port_text(p, run.direction)))
        }
    }

    /// Builds the diagnostic for a hypercall on an unknown port.
    fn unknown_port_text(port: u16, direction: u8) -> (r: String)
        ensures
            encode_utf8(r@) == unknown_port_msg(port, direction),
    {
        proof {
            reveal_strlit("KVM: unhandled KVM_EXIT_IO at port 0x");
            reveal_strlit(", direction ");
            assert(vstd::string::is_ascii("KVM: unhandled KVM_EXIT_IO at port 0x"));
            assert(vstd::string::is_ascii(", direction "));
        }
        let mut v: Vec<u8> = Vec::new();
        v.extend_from_slice(lit_bytes("KVM: unhandled KVM_EXIT_IO at port 0x"));
        crate::text::push_hex_u64(&mut v, port as u64);
        v.extend_from_slice(lit_bytes(", direction "));
        crate::text::push_dec_u64(&mut v, direction as u64);
        proof {
            assert(v@ =~= unknown_port_msg(port, direction));
            assert(vstd::utf8::is_ascii_chars("KVM: unhandled KVM_EXIT_IO at port 0x"@));
            assert(vstd::utf8::is_ascii_chars(", direction "@));
            lemma_ascii_of_all_ascii("KVM: unhandled KVM_EXIT_IO at port 0x"@);
            lemma_ascii_of_all_ascii(", direction "@);
            lemma_hex_rep(port as nat);
            lemma_dec_rep(direction as nat);
            lemma_digits_all_ascii(hex_rep(port as nat));
            lemma_digits_all_ascii(dec_rep(direction as nat));
            let p1 = ascii_of("KVM: unhandled KVM_EXIT_IO at port 0x"@);
            let p2 = p1 + hex_rep(port as nat);
            lemma_all_ascii_concat(p1, hex_rep(port as nat));
            let p3 = p2 + ascii_of(", direction "@);
            lemma_all_ascii_concat(p2, ascii_of(", direction "@));
            lemma_all_ascii_concat(p3, dec_rep(direction as nat));
            assert(v@ =~= p3 + dec_rep(direction as nat));
        }
        string_from_ascii(v)
    }
}

/// The diagnostic an unhandled memory-mapped access is refused with.
pub open spec fn mmio_msg(aux: u64) -> Seq<u8> {
    ascii_of("KVM: unhandled KVM_EXIT_MMIO at 0x"@) + hex_rep(aux as nat)
}

/// The diagnostic a hardware entry failure is refused with.
pub open spec fn fail_entry_msg(aux: u64) -> Seq<u8> {
    ascii_of("KVM: entry failure: hw_entry_failure_reason=0x"@) + hex_rep(aux as nat)
}

/// The diagnostic an internal-error exit is refused with.
pub open spec fn internal_msg(aux: u64) -> Seq<u8> {
    ascii_of("KVM: internal error exit: suberror = 0x"@) + hex_rep(aux as nat)
}

/// The diagnostic a shutdown exit is refused with.
pub open spec fn shutdown_msg() -> Seq<u8> {
    ascii_of("KVM: receive shutdown command"@)
}

/// The diagnostic an unknown exit reason is refused with.
pub open spec fn unhandled_msg(reason: u32) -> Seq<u8> {
    ascii_of("KVM: unhandled exit: exit_reason = 0x"@) + hex_rep(reason as nat)
}

/// How one exit that is not port I/O is answered: the guest halting is a
/// clean exit with code 0; a debug exit asks for a register dump; the
/// rest are fatal protocol errors, each naming its reason.
pub fn classify_other(exit_reason: u32, aux: u64) -> (r: Result<Return, Error>)
    ensures
        exit_reason == KVM_EXIT_HLT ==> r == Ok::<Return, Error>(Return::Exit(0)),
        exit_reason == KVM_EXIT_DEBUG ==> r == Err::<Return, Error>(Error::KVMDebug),
        exit_reason == KVM_EXIT_MMIO ==> (match r {
            Err(Error::Protocol(m)) => encode_utf8(m@) == mmio_msg(aux),
            _ => false,
        }),
        exit_reason == KVM_EXIT_FAIL_ENTRY ==> (match r {
            Err(Error::Protocol(m)) => encode_utf8(m@) == fail_entry_msg(aux),
            _ => false,
        }),
        exit_reason == KVM_EXIT_INTERNAL_ERROR ==> (match r {
            Err(Error::Protocol(m)) => encode_utf8(m@) == internal_msg(aux),
            _ => false,
        }),
        exit_reason == KVM_EXIT_SHUTDOWN ==> (match r {
            Err(Error::Protocol(m)) => encode_utf8(m@) == shutdown_msg(),
            _ => false,
        }),
        exit_reason != KVM_EXIT_HLT && exit_reason != KVM_EXIT_DEBUG && exit_reason
            != KVM_EXIT_MMIO && exit_reason != KVM_EXIT_FAIL_ENTRY && exit_reason
            != KVM_EXIT_INTERNAL_ERROR && exit_reason != KVM_EXIT_SHUTDOWN ==> (match r {
            Err(Error::Protocol(m)) => encode_utf8(m@) == unhandled_msg(exit_reason),
            _ => false,
        }),
{
    if exit_reason == KVM_EXIT_HLT {
        Ok(Return::Exit(0))
    } else if exit_reason == KVM_EXIT_DEBUG {
        Err(Error::KVMDebug)
    } else if exit_reason == KVM_EXIT_MMIO {
        proof {
            reveal_strlit("KVM: unhandled KVM_EXIT_MMIO at 0x");
            assert(vstd::string::is_ascii("KVM: unhandled KVM_EXIT_MMIO at 0x"));
        }
        Err(Error::Protocol(hex_message("KVM: unhandled KVM_EXIT_MMIO at 0x", aux)))
    } else if exit_reason == KVM_EXIT_FAIL_ENTRY {
        proof {
            reveal_strlit("KVM: entry failure: hw_entry_failure_reason=0x");
            assert(vstd::string::is_ascii("KVM: entry failure: hw_entry_failure_reason=0x"));
        }
        Err(
            Error::Protocol(
                hex_message("KVM: entry failure: hw_entry_failure_reason=0x", aux),
            ),
        )
    } else if exit_reason == KVM_EXIT_INTERNAL_ERROR {
        proof {
            reveal_strlit("KVM: internal error exit: suberror = 0x");
            assert(vstd::string::is_ascii("KVM: internal error exit: suberror = 0x"));
        }
        Err(Error::Protocol(hex_message("KVM: internal error exit: suberror = 0x", aux)))
    } else if exit_reason == KVM_EXIT_SHUTDOWN {
        Err(Error::Protocol(msg_shutdown()))
    } else {
        proof {
            reveal_strlit("KVM: unhandled exit: exit_reason = 0x");
            assert(vstd::string::is_ascii("KVM: unhandled exit: exit_reason = 0x"));
        }
        Err(
            Error::Protocol(hex_message("KVM: unhandled exit: exit_reason = 0x", exit_reason as u64)),
        )
    }
}

fn msg_shutdown() -> (r: String)
    ensures
        encode_utf8(r@) == shutdown_msg(),
{
    proof {
        reveal_strlit("KVM: receive shutdown command");
        assert(vstd::string::is_ascii("KVM: receive shutdown command"));
        assert(vstd::utf8::is_ascii_chars("KVM: receive shutdown command"@));
        broadcast use vstd::utf8::is_ascii_chars_encode_utf8;

        assert(encode_utf8("KVM: receive shutdown command"@) =~= ascii_of(
            "KVM: receive shutdown command"@,
        ));
    }
    "KVM: receive shutdown command".to_owned()
}

/// A prefix followed by a hexadecimal number.
fn hex_message(prefix: &str, value: u64) -> (r: String)
    requires
        vstd::string::is_ascii(prefix),
    ensures
        encode_utf8(r@) == ascii_of(prefix@) + hex_rep(value as nat),
{
    let mut v: Vec<u8> = Vec::new();
    v.extend_from_slice(lit_bytes(prefix));
    crate::text::push_hex_u64(&mut v, value);
    proof {
        assert(v@ =~= ascii_of(prefix@) + hex_rep(value as nat));
        broadcast use vstd::utf8::is_ascii_chars_nat_bound;

        lemma_hex_rep(value as nat);
        lemma_digits_all_ascii(hex_rep(value as nat));
        assert forall|i: int| 0 <= i < v@.len() implies #[trigger] v@[i] < 0x80 by {
            let p = ascii_of(prefix@);
            if i < p.len() {
                assert(v@[i] == p[i]);
                assert(vstd::utf8::is_ascii_chars(prefix@));
            } else {
                assert(v@[i] == hex_rep(value as nat)[i - p.len()]);
            }
        }
    }
    string_from_ascii(v)
}

/// Reads the write request stored at `addr`: `fd`, buffer pointer, length.
pub fn read_write_req(mem: &GuestMemory, addr: u64) -> (r: Option<Write>)
    ensures
        addr + 20 <= mem@.len() ==> r == Some(
            Write {
                fd: le32_val(mem@.subrange(addr as int, addr + 4)) as i32,
                buf: le64_val(mem@.subrange(addr + 4, addr + 12)),
                length: le64_val(mem@.subrange(addr + 12, addr + 20)),
            },
        ),
        addr + 20 > mem@.len() ==> r is None,
{
    let n = mem.len();
    if addr > u64::MAX - 20 || addr + 20 > n {
        return None;
    }
    Some(
        Write {
            fd: mem.read_u32(addr) as i32,
            buf: mem.read_u64(addr + 4),
            length: mem.read_u64(addr + 12),
        },
    )
}

/// Stores a write result: the `length` field takes the byte count the
/// host reported.
pub fn finish_write(mem: &mut GuestMemory, addr: u64, written: i64)
    requires
        addr + 20 <= old(mem)@.len(),
    ensures
        final(mem)@ == splice(old(mem)@, addr + 12, u64_le(written as u64)),
{
    let n = mem.len();
    mem.write_u64(addr + 12, written as u64);
}

/// Reads the read request stored at `addr`.
pub fn read_read_req(mem: &GuestMemory, addr: u64) -> (r: Option<Read>)
    ensures
        addr + 28 <= mem@.len() ==> r == Some(
            Read {
                fd: le32_val(mem@.subrange(addr as int, addr + 4)) as i32,
                buf: le64_val(mem@.subrange(addr + 4, addr + 12)),
                len: le64_val(mem@.subrange(addr + 12, addr + 20)),
                ret: le64_val(mem@.subrange(addr + 20, addr + 28)) as i64,
            },
        ),
        addr + 28 > mem@.len() ==> r is None,
{
    let n = mem.len();
    if addr > u64::MAX - 28 || addr + 28 > n {
        return None;
    }
    Some(
        Read {
            fd: mem.read_u32(addr) as i32,
            buf: mem.read_u64(addr + 4),
            len: mem.read_u64(addr + 12),
            ret: mem.read_u64(addr + 20) as i64,
        },
    )
}

/// Stores a read result in the `ret` field.
pub fn finish_read(mem: &mut GuestMemory, addr: u64, got: i64)
    requires
        addr + 28 <= old(mem)@.len(),
    ensures
        final(mem)@ == splice(old(mem)@, addr + 20, u64_le(got as u64)),
{
    let n = mem.len();
    mem.write_u64(addr + 20, got as u64);
}

/// Reads the close request stored at `addr`.
pub fn read_close_req(mem: &GuestMemory, addr: u64) -> (r: Option<Close>)
    ensures
        addr + 8 <= mem@.len() ==> r == Some(
            Close {
                fd: le32_val(mem@.subrange(addr as int, addr + 4)) as i32,
                ret: le32_val(mem@.subrange(addr + 4, addr + 8)) as i32,
            },
        ),
        addr + 8 > mem@.len() ==> r is None,
{
    let n = mem.len();
    if addr > u64::MAX - 8 || addr + 8 > n {
        return None;
    }
    Some(Close { fd: mem.read_u32(addr) as i32, ret: mem.read_u32(addr + 4) as i32 })
}

/// Whether a close request reaches the host at all: the standard streams
/// are never closed on the guest's behalf.
pub open spec fn close_forwarded(fd: i32) -> bool {
    fd > 2
}

/// Whether a close request reaches the host, as a runtime decision.
pub fn close_reaches_host(fd: i32) -> (r: bool)
    ensures
        r == close_forwarded(fd),
{
    fd > 2
}

/// Stores a close result in the `ret` field.
pub fn finish_close(mem: &mut GuestMemory, addr: u64, ret: i32)
    requires
        addr + 8 <= old(mem)@.len(),
    ensures
        final(mem)@ == splice(old(mem)@, addr + 4, u32_le(ret as u32)),
{
    let n = mem.len();
    mem.write_u32(addr + 4, ret as u32);
}

/// Reads the open request stored at `addr`.
pub fn read_open_req(mem: &GuestMemory, addr: u64) -> (r: Option<Open>)
    ensures
        addr + 20 <= mem@.len() ==> r == Some(
            Open {
                name: le64_val(mem@.subrange(addr as int, addr + 8)),
                flags: le32_val(mem@.subrange(addr + 8, addr + 12)) as i32,
                mode: le32_val(mem@.subrange(addr + 12, addr + 16)) as i32,
                ret: le32_val(mem@.subrange(addr + 16, addr + 20)) as i32,
            },
        ),
        addr + 20 > mem@.len() ==> r is None,
{
    let n = mem.len();
    if addr > u64::MAX - 20 || addr + 20 > n {
        return None;
    }
    Some(
        Open {
            name: mem.read_u64(addr),
            flags: mem.read_u32(addr + 8) as i32,
            mode: mem.read_u32(addr + 12) as i32,
            ret: mem.read_u32(addr + 16) as i32,
        },
    )
}

/// Stores an open result in the `ret` field.
pub fn finish_open(mem: &mut GuestMemory, addr: u64, ret: i32)
    requires
        addr + 20 <= old(mem)@.len(),
    ensures
        final(mem)@ == splice(old(mem)@, addr + 16, u32_le(ret as u32)),
{
    let n = mem.len();
    mem.write_u32(addr + 16, ret as u32);
}

/// Whether an opened path may reach the host: the hypervisor's own
/// control device is refused, and the guest sees `-1` instead.
pub fn open_allowed(canonical: &str) -> (r: bool)
    ensures
        r <==> canonical.spec_bytes() != ascii_of("/dev/kvm"@),
{
    proof {
        reveal_strlit("/dev/kvm");
        assert(vstd::string::is_ascii("/dev/kvm"));
    }
    !crate::text::bytes_eq(canonical.as_bytes(), lit_bytes("/dev/kvm"))
}

/// Reads the seek request stored at `addr`.
pub fn read_lseek_req(mem: &GuestMemory, addr: u64) -> (r: Option<LSeek>)
    ensures
        addr + 16 <= mem@.len() ==> r == Some(
            LSeek {
                fd: le32_val(mem@.subrange(addr as int, addr + 4)) as i32,
                offset: le64_val(mem@.subrange(addr + 4, addr + 12)) as i64,
                whence: le32_val(mem@.subrange(addr + 12, addr + 16)) as i32,
            },
        ),
        addr + 16 > mem@.len() ==> r is None,
{
    let n = mem.len();
    if addr > u64::MAX - 16 || addr + 16 > n {
        return None;
    }
    Some(
        LSeek {
            fd: mem.read_u32(addr) as i32,
            offset: mem.read_u64(addr + 4) as i64,
            whence: mem.read_u32(addr + 12) as i32,
        },
    )
}

/// Stores a seek result in the `offset` field.
pub fn finish_lseek(mem: &mut GuestMemory, addr: u64, offset: i64)
    requires
        addr + 16 <= old(mem)@.len(),
    ensures
        final(mem)@ == splice(old(mem)@, addr + 4, u64_le(offset as u64)),
{
    let n = mem.len();
    mem.write_u64(addr + 4, offset as u64);
}

/// Reads the exit code for an exit request: the argument block holds a
/// guest pointer, and the code is the byte it points at.
pub fn read_exit_code(mem: &GuestMemory, addr: u64) -> (r: Option<i32>)
    ensures
        addr + 4 <= mem@.len() ==> {
            let p = le32_val(mem@.subrange(addr as int, addr + 4));
            p < mem@.len() ==> r == Some(mem@[p as int] as i32)
        },
        r is None ==> addr + 4 > mem@.len() || le32_val(
            mem@.subrange(addr as int, addr + 4),
        ) >= mem@.len(),
{
    let n = mem.len();
    if addr > u64::MAX - 4 || addr + 4 > n {
        return None;
    }
    let p = mem.read_u32(addr) as u64;
    if p >= n {
        return None;
    }
    Some(mem.read_u8(p) as i32)
}

/// Stores the attachment status for a status query.
pub fn finish_netstat(mem: &mut GuestMemory, addr: u64, attached: bool) -> (ok: bool)
    ensures
        ok == (addr + 4 <= old(mem)@.len()),
        ok ==> final(mem)@ == splice(
            old(mem)@,
            addr as int,
            u32_le(
                if attached {
                    1u32
                } else {
                    0u32
                },
            ),
        ),
        !ok ==> final(mem)@ == old(mem)@,
{
    let n = mem.len();
    if addr > u64::MAX - 4 || addr + 4 > n {
        return false;
    }
    mem.write_u32(addr, if attached {
        1
    } else {
        0
    });
    true
}

/// Stores the NUL-terminated hardware address text for an address query.
pub fn finish_netinfo(mem: &mut GuestMemory, addr: u64, mac: &[u8]) -> (ok: bool)
    requires
        mac@.len() == 18,
    ensures
        ok == (addr + 18 <= old(mem)@.len()),
        ok ==> final(mem)@ == splice(old(mem)@, addr as int, mac@),
        !ok ==> final(mem)@ == old(mem)@,
{
    let n = mem.len();
    if addr > u64::MAX - 18 || addr + 18 > n {
        return false;
    }
    mem.write_bytes(addr, mac);
    true
}

/// The 32-bit word stored at byte offset `a`.
pub open spec fn word32_at(m: Seq<u8>, a: int) -> u32 {
    le32_val(m.subrange(a, a + 4))
}

/// Stores a network-write result: on success the `ret` field is cleared
/// and the `len` field takes the byte count; on failure `ret` takes -1
/// and the length stays.
pub fn finish_netwrite(mem: &mut GuestMemory, addr: u64, got: i64) -> (ok: bool)
    ensures
        ok == (addr + 20 <= old(mem)@.len()),
        ok && got >= 0 ==> final(mem)@ == splice(
            splice(old(mem)@, addr + 8, u64_le(got as u64)),
            addr + 16,
            u32_le(0),
        ),
        ok && got < 0 ==> final(mem)@ == splice(old(mem)@, addr + 16, u32_le(0xffffffff)),
        !ok ==> final(mem)@ == old(mem)@,
{
    let n = mem.len();
    if addr > u64::MAX - 20 || addr + 20 > n {
        return false;
    }
    if got >= 0 {
        mem.write_u64(addr + 8, got as u64);
        mem.write_u32(addr + 16, 0);
    } else {
        mem.write_u32(addr + 16, 0xffffffff);
    }
    true
}

/// Stores a network-read result, with the same layout and outcome rule
/// as a network write.
pub fn finish_netread(mem: &mut GuestMemory, addr: u64, got: i64) -> (ok: bool)
    ensures
        ok == (addr + 20 <= old(mem)@.len()),
        ok && got >= 0 ==> final(mem)@ == splice(
            splice(old(mem)@, addr + 8, u64_le(got as u64)),
            addr + 16,
            u32_le(0),
        ),
        ok && got < 0 ==> final(mem)@ == splice(old(mem)@, addr + 16, u32_le(0xffffffff)),
        !ok ==> final(mem)@ == old(mem)@,
{
    let n = mem.len();
    if addr > u64::MAX - 20 || addr + 20 > n {
        return false;
    }
    if got >= 0 {
        mem.write_u64(addr + 8, got as u64);
        mem.write_u32(addr + 16, 0);
    } else {
        mem.write_u32(addr + 16, 0xffffffff);
    }
    true
}

/// Fills a command-size request: the count and the length of each
/// forwarded argument (with its terminator) and environment entry, each
/// in its fixed slot; the unused slots stay as they were.
#[verifier::rlimit(100)]
#[verifier::spinoff_prover]
pub fn finish_cmdsize(
    mem: &mut GuestMemory,
    addr: u64,
    args: &Vec<Vec<u8>>,
    envs: &Vec<Vec<u8>>,
) -> (ok: bool)
    requires
        args@.len() <= 128,
        envs@.len() <= 128,
        forall|k: int| 0 <= k < args@.len() ==> (#[trigger] args@[k])@.len() + 1 <= u32::MAX,
        forall|k: int| 0 <= k < envs@.len() ==> (#[trigger] envs@[k])@.len() <= u32::MAX,
    ensures
        ok == (addr + 1032 <= old(mem)@.len()),
        !ok ==> final(mem)@ == old(mem)@,
        ok ==> final(mem)@.len() == old(mem)@.len(),
        ok ==> word32_at(final(mem)@, addr as int) == args@.len(),
        ok ==> forall|k: int|
            0 <= k < args@.len() ==> #[trigger] word32_at(final(mem)@, addr + 4 + 4 * k) == (
            args@[k]@.len() + 1) as u32,
        ok ==> word32_at(final(mem)@, addr + 516) == envs@.len(),
        ok ==> forall|k: int|
            0 <= k < envs@.len() ==> #[trigger] word32_at(final(mem)@, addr + 520 + 4 * k)
                == envs@[k]@.len() as u32,
        ok ==> forall|a: int|
            0 <= a < old(mem)@.len() && !(addr <= a < addr + 4) && !(addr + 4 <= a < addr + 4 + 4
                * args@.len()) && !(addr + 516 <= a < addr + 520) && !(addr + 520 <= a < addr
                + 520 + 4 * envs@.len()) ==> final(mem)@[a] == old(mem)@[a],
{
    let n = mem.len();
    if addr > u64::MAX - 1032 || addr + 1032 > n {
        return false;
    }
    let ghost m0 = mem@;
    mem.write_u32(addr, args.len() as u32);
    proof {
        crate::bytes::lemma_splice_index(m0, addr as int, u32_le(args@.len() as u32));
        crate::bytes::lemma_le32_roundtrip(args@.len() as u32);
        assert(mem@.subrange(addr as int, addr + 4) =~= u32_le(args@.len() as u32));
    }
    let mut k: usize = 0;
    while k < args.len()
        invariant
            k <= args@.len(),
            args@.len() <= 128,
            forall|t: int| 0 <= t < args@.len() ==> (#[trigger] args@[t])@.len() + 1 <= u32::MAX,
            mem@.len() == old(mem)@.len(),
            n == mem@.len(),
            addr + 1032 <= mem@.len(),
            word32_at(mem@, addr as int) == args@.len(),
            forall|t: int|
                0 <= t < k ==> #[trigger] word32_at(mem@, addr + 4 + 4 * t) == (args@[t]@.len()
                    + 1) as u32,
            forall|a: int|
                0 <= a < mem@.len() && !(addr <= a < addr + 4) && !(addr + 4 <= a < addr + 4 + 4
                    * k) ==> mem@[a] == old(mem)@[a],
        decreases args@.len() - k,
    {
        let ghost mp = mem@;
        let v: u32 = (args[k].len() + 1) as u32;
        mem.write_u32(addr + 4 + 4 * (k as u64), v);
        proof {
            crate::bytes::lemma_splice_index(mp, addr + 4 + 4 * k, u32_le(v));
            crate::bytes::lemma_le32_roundtrip(v);
            assert(mem@.subrange(addr as int, addr + 4) =~= mp.subrange(addr as int, addr + 4));
            assert forall|t: int| 0 <= t < k + 1 implies #[trigger] word32_at(
                mem@,
                addr + 4 + 4 * t,
            ) == (args@[t]@.len() + 1) as u32 by {
                if t < k {
                    assert(mem@.subrange(addr + 4 + 4 * t, addr + 4 + 4 * t + 4) =~= mp.subrange(
                        addr + 4 + 4 * t,
                        addr + 4 + 4 * t + 4,
                    ));
                    assert(word32_at(mp, addr + 4 + 4 * t) == (args@[t]@.len() + 1) as u32);
                } else {
                    assert(mem@.subrange(addr + 4 + 4 * t, addr + 4 + 4 * t + 4) =~= u32_le(v));
                }
            }
        }
        k += 1;
    }
    let ghost m1 = mem@;
    mem.write_u32(addr + 516, envs.len() as u32);
    proof {
        crate::bytes::lemma_splice_index(m1, addr + 516, u32_le(envs@.len() as u32));
        crate::bytes::lemma_le32_roundtrip(envs@.len() as u32);
        assert(mem@.subrange(addr as int, addr + 4) =~= m1.subrange(addr as int, addr + 4));
        assert(mem@.subrange(addr + 516, addr + 520) =~= u32_le(envs@.len() as u32));
        assert forall|t: int| 0 <= t < args@.len() implies #[trigger] word32_at(
            mem@,
            addr + 4 + 4 * t,
        ) == (args@[t]@.len() + 1) as u32 by {
            assert(mem@.subrange(addr + 4 + 4 * t, addr + 4 + 4 * t + 4) =~= m1.subrange(
                addr + 4 + 4 * t,
                addr + 4 + 4 * t + 4,
            ));
            assert(word32_at(m1, addr + 4 + 4 * t) == (args@[t]@.len() + 1) as u32);
        }
    }
    let mut k2: usize = 0;
    while k2 < envs.len()
        invariant
            k2 <= envs@.len(),
            envs@.len() <= 128,
            args@.len() <= 128,
            forall|t: int| 0 <= t < envs@.len() ==> (#[trigger] envs@[t])@.len() <= u32::MAX,
            mem@.len() == old(mem)@.len(),
            n == mem@.len(),
            addr + 1032 <= mem@.len(),
            word32_at(mem@, addr as int) == args@.len(),
            word32_at(mem@, addr + 516) == envs@.len(),
            forall|t: int|
                0 <= t < args@.len() ==> #[trigger] word32_at(mem@, addr + 4 + 4 * t) == (
                args@[t]@.len() + 1) as u32,
            forall|t: int|
                0 <= t < k2 ==> #[trigger] word32_at(mem@, addr + 520 + 4 * t)
                    == envs@[t]@.len() as u32,
            forall|a: int|
                0 <= a < mem@.len() && !(addr <= a < addr + 4) && !(addr + 4 <= a < addr + 4 + 4
                    * args@.len()) && !(addr + 516 <= a < addr + 520) && !(addr + 520 <= a < addr
                    + 520 + 4 * k2) ==> mem@[a] == old(mem)@[a],
        decreases envs@.len() - k2,
    {
        let ghost mp = mem@;
        let v: u32 = envs[k2].len() as u32;
        mem.write_u32(addr + 520 + 4 * (k2 as u64), v);
        proof {
            crate::bytes::lemma_splice_index(mp, addr + 520 + 4 * k2, u32_le(v));
            crate::bytes::lemma_le32_roundtrip(v);
            assert(mem@.subrange(addr as int, addr + 4) =~= mp.subrange(addr as int, addr + 4));
            assert(mem@.subrange(addr + 516, addr + 520) =~= mp.subrange(addr + 516, addr + 520));
            assert forall|t: int| 0 <= t < args@.len() implies #[trigger] word32_at(
                mem@,
                addr + 4 + 4 * t,
            ) == (args@[t]@.len() + 1) as u32 by {
                assert(mem@.subrange(addr + 4 + 4 * t, addr + 4 + 4 * t + 4) =~= mp.subrange(
                    addr + 4 + 4 * t,
                    addr + 4 + 4 * t + 4,
                ));
                assert(word32_at(mp, addr + 4 + 4 * t) == (args@[t]@.len() + 1) as u32);
            }
            assert forall|t: int| 0 <= t < k2 + 1 implies #[trigger] word32_at(
                mem@,
                addr + 520 + 4 * t,
            ) == envs@[t]@.len() as u32 by {
                if t < k2 {
                    assert(mem@.subrange(addr + 520 + 4 * t, addr + 520 + 4 * t + 4)
                        =~= mp.subrange(addr + 520 + 4 * t, addr + 520 + 4 * t + 4));
                    assert(word32_at(mp, addr + 520 + 4 * t) == envs@[t]@.len() as u32);
                } else {
                    assert(mem@.subrange(addr + 520 + 4 * t, addr + 520 + 4 * t + 4) =~= u32_le(
                        v,
                    ));
                }
            }
        }
        k2 += 1;
    }
    true
}

/// Guest memory after NUL-terminated copies of the first `n` items were
/// laid down at the guest addresses read from the pointer table: each
/// step reads the next pointer from the memory as it then stands, and a
/// pointer or copy that leaves guest RAM writes nothing.
pub open spec fn cstrings_written(m: Seq<u8>, table: int, items: Seq<Seq<u8>>, n: int) -> Seq<u8>
    decreases n,
{
    if n <= 0 {
        m
    } else {
        let prev = cstrings_written(m, table, items, n - 1);
        let idx = n - 1;
        if table >= 0 && table + 8 * idx + 8 <= prev.len() {
            let pp = le64_val(prev.subrange(table + 8 * idx, table + 8 * idx + 8));
            if pp + items[idx].len() + 1 <= prev.len() {
                splice(prev, pp as int, items[idx] + seq![0u8])
            } else {
                prev
            }
        } else {
            prev
        }
    }
}

/// Copies the forwarded arguments and environment entries into the guest
/// buffers whose addresses stand in the request's pointer tables, each
/// NUL-terminated.
pub fn finish_cmdval(
    mem: &mut GuestMemory,
    argv: u64,
    envp: u64,
    args: &Vec<Vec<u8>>,
    envs: &Vec<Vec<u8>>,
)
    requires
        args@.len() <= 128,
        envs@.len() <= 128,
    ensures
        final(mem)@ == cstrings_written(
            cstrings_written(
                old(mem)@,
                argv as int,
                crate::text::line_views(args@),
                args@.len() as int,
            ),
            envp as int,
            crate::text::line_views(envs@),
            envs@.len() as int,
        ),
        final(mem)@.len() == old(mem)@.len(),
{
    write_cstrings(mem, argv, args);
    write_cstrings(mem, envp, envs);
}

/// Lays down NUL-terminated copies of the items at the addresses in the
/// pointer table.
fn write_cstrings(mem: &mut GuestMemory, table: u64, items: &Vec<Vec<u8>>)
    requires
        items@.len() <= 128,
    ensures
        final(mem)@ == cstrings_written(
            old(mem)@,
            table as int,
            crate::text::line_views(items@),
            items@.len() as int,
        ),
        final(mem)@.len() == old(mem)@.len(),
{
    let ghost views = crate::text::line_views(items@);
    let mut k: usize = 0;
    while k < items.len()
        invariant
            k <= items@.len(),
            items@.len() <= 128,
            views == crate::text::line_views(items@),
            mem@ == cstrings_written(old(mem)@, table as int, views, k as int),
            mem@.len() == old(mem)@.len(),
        decreases items@.len() - k,
    {
        let total = mem.len();
        let slot = 8 * (k as u64);
        if table <= u64::MAX - slot - 8 && table + slot + 8 <= total {
            let pp = mem.read_u64(table + slot);
            let l = items[k].len() as u64;
            if pp < total && total - pp >= 1 && total - pp - 1 >= l {
                let mut buf: Vec<u8> = Vec::new();
                buf.extend_from_slice(items[k].as_slice());
                buf.push(0);
                proof {
                    assert(buf@ =~= views[k as int] + seq![0u8]);
                }
                mem.write_bytes(pp, buf.as_slice());
            }
        }
        proof {
            assert(mem@ == cstrings_written(old(mem)@, table as int, views, k + 1));
        }
        k += 1;
    }
}

/// How many bytes stand before the first NUL at or after `a`, the whole
/// tail when there is none.
pub open spec fn cstr_len(m: Seq<u8>, a: int) -> int
    decreases m.len() - a,
{
    if a < 0 || a >= m.len() {
        0
    } else if m[a] == 0 {
        0
    } else {
        1 + cstr_len(m, a + 1)
    }
}

/// A scan that stopped at a NUL, or at the end, found the string length.
proof fn lemma_cstr_len_is(m: Seq<u8>, a: int, p: int)
    requires
        0 <= a <= p <= m.len(),
        forall|t: int| a <= t < p ==> #[trigger] m[t] != 0,
        p < m.len() ==> m[p] == 0,
    ensures
        cstr_len(m, a) == p - a,
    decreases p - a,
{
    if a < p {
        lemma_cstr_len_is(m, a + 1, p);
    }
}

/// Reads the NUL-terminated byte string at `addr`: its bytes without the
/// terminator, or nothing when no terminator lies inside guest RAM.
pub fn read_cstring(mem: &GuestMemory, addr: u64) -> (r: Option<Vec<u8>>)
    ensures
        match r {
            Some(v) => addr + cstr_len(mem@, addr as int) < mem@.len() && v@ == mem@.subrange(
                addr as int,
                addr + cstr_len(mem@, addr as int),
            ),
            None => addr + cstr_len(mem@, addr as int) >= mem@.len(),
        },
{
    let total = mem.len();
    if addr >= total {
        return None;
    }
    let mut v: Vec<u8> = Vec::new();
    let mut p = addr;
    proof {
        assert(v@ =~= mem@.subrange(addr as int, addr as int));
    }
    while p < total
        invariant
            addr <= p <= total,
            total == mem@.len(),
            forall|t: int| addr <= t < p ==> #[trigger] mem@[t] != 0,
            v@ == mem@.subrange(addr as int, p as int),
        decreases total - p,
    {
        let b = mem.read_u8(p);
        if b == 0 {
            proof {
                lemma_cstr_len_is(mem@, addr as int, p as int);
            }
            return Some(v);
        }
        v.push(b);
        proof {
            assert(v@ =~= mem@.subrange(addr as int, p + 1));
        }
        p += 1;
    }
    proof {
        if addr <= total {
            lemma_cstr_len_is(mem@, addr as int, total as int);
        }
    }
    None
}

/// The error number the run ioctl reports when a signal broke it off.
pub const ERRNO_EINTR: i32 = 4;

/// The error number the run ioctl reports on a memory translation fault.
pub const ERRNO_EFAULT: i32 = 14;

/// What a failed run ioctl means: a signal is only an interruption, a
/// fault names the guest instruction address, anything else is a fatal
/// ioctl error.
pub fn classify_run_errno(errno: i32, rip: u64) -> (r: Result<Return, Error>)
    ensures
        errno == ERRNO_EINTR ==> r == Ok::<Return, Error>(Return::Interrupt),
        errno == ERRNO_EFAULT ==> r == Err::<Return, Error>(Error::TranslationFault(rip)),
        errno != ERRNO_EINTR && errno != ERRNO_EFAULT ==> r == Err::<Return, Error>(
            Error::IOCTL(crate::error::NameIOCTL::Run),
        ),
{
    if errno == ERRNO_EINTR {
        Ok(Return::Interrupt)
    } else if errno == ERRNO_EFAULT {
        Err(Error::TranslationFault(rip))
    } else {
        Err(Error::IOCTL(crate::error::NameIOCTL::Run))
    }
}

} // verus!
