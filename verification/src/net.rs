//! The tap network interface's guest-visible identity: hardware-address
//! validation, formatting, and generation, and the tap device option.

use vstd::prelude::*;
use vstd::string::StringSliceAdditionalSpecFns;

use crate::error::Error;
use crate::text::{dec_val, hex_digit, is_hex_byte, parse_dec_u64};

verus! {

/// The guest interrupt line that tap readability is wired to.
pub const UHYVE_IRQ: u32 = 11;

/// Relies on `rand::random`: six bytes drawn from the thread-local
/// generator; nothing is promised of their values.
pub assume_specification<T>[ rand::random::<T> ]() -> (r: T)
    where rand::distributions::Standard: rand::distributions::Distribution<T>
;

/// One step of the hardware-address scan: count hexadecimal digits and
/// separators, stop at a misplaced separator, and poison the separator
/// count at any other byte.
pub open spec fn mac_step(st: (int, int, bool), b: u8) -> (int, int, bool) {
    if st.2 {
        st
    } else if is_hex_byte(b) {
        (st.0 + 1, st.1, false)
    } else if b == 0x3a {
        (st.0, st.1 + 1, st.0 / 2 != st.1 + 1)
    } else {
        (st.0, -1, false)
    }
}

/// The scan over a whole byte string.
pub open spec fn mac_scan(cs: Seq<u8>) -> (int, int, bool)
    decreases cs.len(),
{
    if cs.len() == 0 {
        (0, 0, false)
    } else {
        mac_step(mac_scan(cs.drop_last()), cs.last())
    }
}

/// A well-formed textual hardware address: twelve hexadecimal digits in
/// six separated pairs.
pub open spec fn mac_valid(cs: Seq<u8>) -> bool {
    mac_scan(cs).0 == 12 && mac_scan(cs).1 == 5
}

/// Whether a supplied hardware address may be used as it stands.
pub fn validate_mac(mac: &str) -> (r: bool)
    ensures
        r == mac_valid(mac.spec_bytes()),
{
    let bytes = mac.as_bytes();
    let n = bytes.len();
    let mut i: i128 = 0;
    let mut s: i128 = 0;
    let mut stopped = false;
    proof {
        assert(bytes@.take(0) =~= Seq::<u8>::empty());
    }
    let mut j: usize = 0;
    while j < n
        invariant
            j <= n,
            n == bytes@.len(),
            -1 <= s <= j,
            0 <= i <= j,
            (i as int, s as int, stopped) == mac_scan(bytes@.take(j as int)),
        decreases n - j,
    {
        let b = bytes[j];
        proof {
            assert(bytes@.take(j + 1).drop_last() =~= bytes@.take(j as int));
            assert(bytes@.take(j + 1).last() == bytes@[j as int]);
        }
        if !stopped {
            if (b >= 0x30 && b <= 0x39) || (b >= 0x61 && b <= 0x66) || (b >= 0x41 && b <= 0x46) {
                i += 1;
            } else if b == 0x3a {
                if i / 2 != s + 1 {
                    stopped = true;
                }
                s += 1;
            } else {
                s = -1;
            }
        }
        j += 1;
    }
    proof {
        assert(bytes@.take(n as int) =~= bytes@);
    }
    i == 12 && s == 5
}

/// Clamps six random bytes into a locally administered unicast address:
/// the first byte always has the multicast bit clear and the
/// locally-administered bit set.
pub fn adjust_mac_bytes(b: &Vec<u8>) -> (r: Vec<u8>)
    requires
        b@.len() == 6,
    ensures
        r@.len() == 6,
        r@[0] == (b@[0] & 0xfe) | 0x02,
        r@[0] & 0x01 == 0,
        r@[0] & 0x02 == 2,
        forall|k: int| 1 <= k < 6 ==> r@[k] == b@[k],
{
    let mut r: Vec<u8> = Vec::new();
    let b0 = (b[0] & 0xfe) | 0x02;
    proof {
        let x = b@[0];
        assert(((x & 0xfe) | 0x02) & 0x01 == 0 && ((x & 0xfe) | 0x02) & 0x02 == 2)
            by (bit_vector);
    }
    r.push(b0);
    r.push(b[1]);
    r.push(b[2]);
    r.push(b[3]);
    r.push(b[4]);
    r.push(b[5]);
    r
}

/// The two lowercase hexadecimal digits of one byte.
pub open spec fn hexpair(b: u8) -> Seq<u8> {
    seq![hex_digit(b as nat / 16), hex_digit(b as nat % 16)]
}

/// The NUL-terminated textual form of a six-byte hardware address.
pub open spec fn mac_text(b: Seq<u8>) -> Seq<u8> {
    hexpair(b[0]) + seq![0x3au8] + hexpair(b[1]) + seq![0x3au8] + hexpair(b[2]) + seq![0x3au8]
        + hexpair(b[3]) + seq![0x3au8] + hexpair(b[4]) + seq![0x3au8] + hexpair(b[5]) + seq![0u8]
}

/// Writes a six-byte hardware address as NUL-terminated text.
pub fn format_mac(b: &Vec<u8>) -> (r: Vec<u8>)
    requires
        b@.len() == 6,
    ensures
        r@ == mac_text(b@),
        r@.len() == 18,
{
    let mut r: Vec<u8> = Vec::new();
    let mut k: usize = 0;
    while k < 6
        invariant
            k <= 6,
            b@.len() == 6,
            r@.len() == 3 * k,
            r@ == mac_text_prefix(b@, k as int),
        decreases 6 - k,
    {
        let byte = b[k];
        let hi: u8 = byte / 16;
        let lo: u8 = byte % 16;
        r.push(if hi < 10 {
            0x30 + hi
        } else {
            0x57 + hi
        });
        r.push(if lo < 10 {
            0x30 + lo
        } else {
            0x57 + lo
        });
        if k < 5 {
            r.push(0x3a);
        } else {
            r.push(0);
        }
        proof {
            assert(r@ =~= mac_text_prefix(b@, k + 1));
        }
        k += 1;
    }
    proof {
        reveal_with_fuel(mac_text_prefix, 8);
        assert(mac_text_prefix(b@, 6) =~= mac_text(b@));
    }
    r
}

/// The first `k` pairs of the textual form, with their trailing
/// separators, and the NUL after the last pair.
pub open spec fn mac_text_prefix(b: Seq<u8>, k: int) -> Seq<u8>
    decreases k,
{
    if k <= 0 {
        Seq::empty()
    } else {
        mac_text_prefix(b, k - 1) + hexpair(b[k - 1]) + seq![
            if k < 6 {
                0x3au8
            } else {
                0u8
            },
        ]
    }
}

/// Picks the guest hardware address: a supplied well-formed address is
/// used as given, NUL-terminated; otherwise a fresh locally administered
/// unicast address is generated and formatted.
pub fn set_mac(mac: Option<&str>) -> (r: Vec<u8>)
    ensures
        r@.len() == 18,
        match mac {
            Some(m) => mac_valid(m.spec_bytes()) && m.spec_bytes().len() == 17 ==> r@
                == m.spec_bytes() + seq![0u8],
            None => true,
        },
        (match mac {
            Some(m) => !(mac_valid(m.spec_bytes()) && m.spec_bytes().len() == 17),
            None => true,
        }) ==> exists|b: Seq<u8>|
            b.len() == 6 && b[0] & 0x01 == 0 && b[0] & 0x02 == 2 && r@ == mac_text(b),
{
    if let Some(m) = mac {
        if validate_mac(m) && m.as_bytes().len() == 17 {
            let mut r = vstd::slice::slice_to_vec(m.as_bytes());
            r.push(0);
            proof {
                assert(r@ =~= m.spec_bytes() + seq![0u8]);
            }
            return r;
        }
    }
    let seed: [u8; 6] = rand::random::<[u8; 6]>();
    let mut seed_v: Vec<u8> = Vec::new();
    seed_v.push(seed[0]);
    seed_v.push(seed[1]);
    seed_v.push(seed[2]);
    seed_v.push(seed[3]);
    seed_v.push(seed[4]);
    seed_v.push(seed[5]);
    let adjusted = adjust_mac_bytes(&seed_v);
    let text = format_mac(&adjusted);
    proof {
        assert(adjusted@.len() == 6 && adjusted@[0] & 0x01 == 0 && adjusted@[0] & 0x02 == 2
            && text@ == mac_text(adjusted@));
    }
    text
}

/// How a tap device option is taken: `@` followed by a number adopts an
/// already-open descriptor, anything else names a device to open.
#[derive(Clone, Debug, PartialEq, Eq)]
pub enum TapSpec {
    Fd(i32),
    Dev(String),
}

/// Largest interface-name length the host accepts.
pub const IFNAMSIZ: usize = 16;

/// Reads a tap device option.
pub fn parse_tap_spec(dev: &str) -> (r: Result<TapSpec, Error>)
    ensures
        match r {
            Ok(TapSpec::Fd(fd)) => dev.spec_bytes().len() > 0 && dev.spec_bytes()[0] == 0x40
                && dec_val(dev.spec_bytes().skip(1)) == fd,
            Ok(TapSpec::Dev(name)) => (dev.spec_bytes().len() == 0 || dev.spec_bytes()[0] != 0x40)
                && dev.spec_bytes().len() <= IFNAMSIZ && name@ == dev@,
            Err(e) => e == Error::NetworkInterface && {
                let b = dev.spec_bytes();
                if b.len() > 0 && b[0] == 0x40 {
                    !(b.skip(1).len() > 0 && crate::text::all_digits(b.skip(1)) && dec_val(
                        b.skip(1),
                    ) <= i32::MAX)
                } else {
                    b.len() > IFNAMSIZ
                }
            },
        },
{
    let bytes = dev.as_bytes();
    let n = bytes.len();
    if n > 0 && bytes[0] == 0x40 {
        let digits = &bytes[1..n];
        match parse_dec_u64(digits) {
            Some(v) => if v <= i32::MAX as u64 {
                proof {
                    assert(digits@ =~= dev.spec_bytes().skip(1));
                }
                Ok(TapSpec::Fd(v as i32))
            } else {
                Err(Error::NetworkInterface)
            },
            None => Err(Error::NetworkInterface),
        }
    } else if n <= IFNAMSIZ {
        Ok(TapSpec::Dev(dev.to_owned()))
    } else {
        Err(Error::NetworkInterface)
    }
}

} // verus!
