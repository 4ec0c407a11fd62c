//! Parsing of the memory-size option and the host CPU frequency sources.

use vstd::prelude::*;
use vstd::arithmetic::power2::pow2;
use vstd::string::StringSliceAdditionalSpecFns;

use crate::error::Error;
use crate::text::dec_val;

verus! {

/// The binary exponent a size suffix stands for: `K` is 10, `M` is 20,
/// `G` is 30, `T` is 40, `P` is 50, `E` is 60, either case; anything
/// else is refused.
pub open spec fn suffix_exp(b: u8) -> Option<nat> {
    if b == 0x4b || b == 0x6b {
        Some(10 as nat)
    } else if b == 0x4d || b == 0x6d {
        Some(20 as nat)
    } else if b == 0x47 || b == 0x67 {
        Some(30 as nat)
    } else if b == 0x54 || b == 0x74 {
        Some(40 as nat)
    } else if b == 0x50 || b == 0x70 {
        Some(50 as nat)
    } else if b == 0x45 || b == 0x65 {
        Some(60 as nat)
    } else {
        None
    }
}

/// What `parse_mem` returns on the UTF-8 bytes of its input: a decimal
/// number followed by exactly one suffix character, the number scaled by
/// the suffix's binary multiplier.  An empty number, a stray byte, an
/// unknown suffix, or a value beyond `u64::MAX` give nothing.
pub open spec fn parse_mem_spec(s: Seq<u8>) -> Option<u64> {
    if s.len() < 2 {
        None
    } else {
        let d = s.drop_last();
        if crate::text::all_digits(d) && dec_val(d) <= u64::MAX {
            match suffix_exp(s.last()) {
                Some(k) => if dec_val(d) * pow2(k) > u64::MAX {
                    None
                } else {
                    Some((dec_val(d) * pow2(k)) as u64)
                },
                None => None,
            }
        } else {
            None
        }
    }
}

/// Parses a memory size given as a decimal number with a binary-multiplier
/// suffix, for example `512M` or `1G`.
pub fn parse_mem(mem: &str) -> (r: Result<u64, Error>)
    ensures
        match r {
            Ok(v) => parse_mem_spec(mem.spec_bytes()) == Some(v),
            Err(e) => parse_mem_spec(mem.spec_bytes()) is None && e == Error::ParseMemory,
        },
{
    let bytes = mem.as_bytes();
    let n = bytes.len();
    if n < 2 {
        return Err(Error::ParseMemory);
    }
    let digits = &bytes[0..n - 1];
    proof {
        assert(digits@ =~= mem.spec_bytes().drop_last());
        assert(bytes@[n - 1] == mem.spec_bytes().last());
    }
    let val = match crate::text::parse_dec_u64(digits) {
        Some(v) => v,
        None => {
            return Err(Error::ParseMemory);
        },
    };

    let s = bytes[n - 1];
    let factor: u64 = if s == 0x4b || s == 0x6b {
        1u64 << 10
    } else if s == 0x4d || s == 0x6d {
        1u64 << 20
    } else if s == 0x47 || s == 0x67 {
        1u64 << 30
    } else if s == 0x54 || s == 0x74 {
        1u64 << 40
    } else if s == 0x50 || s == 0x70 {
        1u64 << 50
    } else if s == 0x45 || s == 0x65 {
        1u64 << 60
    } else {
        return Err(Error::ParseMemory);
    };

    proof {
        vstd::arithmetic::power2::lemma2_to64();
        vstd::arithmetic::power2::lemma2_to64_rest();
        assert(1u64 << 10 == 0x400) by (bit_vector);
        assert(1u64 << 20 == 0x100000) by (bit_vector);
        assert(1u64 << 30 == 0x40000000) by (bit_vector);
        assert(1u64 << 40 == 0x10000000000) by (bit_vector);
        assert(1u64 << 50 == 0x4000000000000) by (bit_vector);
        assert(1u64 << 60 == 0x1000000000000000) by (bit_vector);
        assert(factor == pow2(suffix_exp(mem.spec_bytes().last()).unwrap()));
    }

    match val.checked_mul(factor) {
        Some(v) => Ok(v),
        None => Err(Error::ParseMemory),
    }
}

} // verus!

// The host CPU frequency, read from the hardware or from the host's
// reporting files.

verus! {

/// Relies on `raw_cpuid::CpuId`: the processor base frequency in MHz as
/// the hardware reports it.  The value depends on the machine, so
/// nothing is promised of it.
#[verifier::external_body]
pub fn processor_base_frequency() -> (r: Option<u16>) {
    raw_cpuid::CpuId::new().get_processor_frequency_info().map(
        |f: raw_cpuid::ProcessorFrequencyInfo| f.processor_base_frequency(),
    )
}

/// Trailing whitespace removed.
pub open spec fn trimmed_end(s: Seq<u8>) -> Seq<u8>
    decreases s.len(),
{
    if s.len() > 0 && (s.last() == 0x0a || s.last() == 0x0d || s.last() == 0x20 || s.last()
        == 0x09) {
        trimmed_end(s.drop_last())
    } else {
        s
    }
}

/// Reads a frequency file's content: a decimal number, trailing
/// whitespace ignored.
pub fn parse_freq_value(s: &[u8]) -> (r: Option<u64>)
    ensures
        match r {
            Some(v) => {
                let t = trimmed_end(s@);
                t.len() > 0 && crate::text::all_digits(t) && dec_val(t) == v
            },
            None => {
                let t = trimmed_end(s@);
                t.len() == 0 || !crate::text::all_digits(t) || dec_val(t) > u64::MAX
            },
        },
{
    let mut end = s.len();
    proof {
        assert(s@.take(s@.len() as int) =~= s@);
    }
    while end > 0 && (s[end - 1] == 0x0a || s[end - 1] == 0x0d || s[end - 1] == 0x20 || s[end
        - 1] == 0x09)
        invariant
            end <= s@.len(),
            trimmed_end(s@) == trimmed_end(s@.take(end as int)),
        decreases end,
    {
        proof {
            assert(s@.take(end as int).drop_last() =~= s@.take(end - 1));
        }
        end = end - 1;
    }
    proof {
        assert(trimmed_end(s@.take(end as int)) == s@.take(end as int));
    }
    crate::text::parse_dec_u64(&s[0..end])
}

/// Decides the CPU frequency from its sources, in MHz: the hardware
/// report wins; failing that, the host's maximum-frequency file, whose
/// value is in kHz.
pub fn cpufreq_decide(cpuid_mhz: Option<u16>, max_freq_file: Option<&Vec<u8>>) -> (r: Result<
    u32,
    Error,
>)
    ensures
        match cpuid_mhz {
            Some(f) => r == Ok::<u32, Error>(f as u32),
            None => match max_freq_file {
                Some(content) => (match r {
                    Ok(v) => ({
                        let t = trimmed_end(content@);
                        t.len() > 0 && crate::text::all_digits(t) && dec_val(t) <= u64::MAX && v
                            == (dec_val(t) as u64 / 1000) as u32
                    }),
                    Err(e) => e == Error::MissingFrequency,
                }),
                None => r == Err::<u32, Error>(Error::MissingFrequency),
            },
        },
{
    if let Some(f) = cpuid_mhz {
        return Ok(f as u32);
    }
    match max_freq_file {
        Some(content) => match parse_freq_value(content.as_slice()) {
            Some(khz) => Ok((khz / 1000) as u32),
            None => Err(Error::MissingFrequency),
        },
        None => Err(Error::MissingFrequency),
    }
}

} // verus!
