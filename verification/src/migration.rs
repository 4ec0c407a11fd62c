//! Live-migration metadata: the wire form of a checkpoint configuration
//! and the choice of migration kind.

use vstd::prelude::*;
use vstd::string::StringSliceAdditionalSpecFns;

use crate::bytes::{le64_val, lemma_le64_roundtrip, push_u64_le, read_u64_le, u64_le};
use crate::checkpoint::CheckpointConfig;
use crate::error::Error;
use crate::text::{ascii_of, bytes_eq, lit_bytes};

verus! {

/// The port a migration receiver listens on.
pub const MIGRATION_PORT: u16 = 1337;

/// How a migration is carried out.
#[derive(Clone, Copy, Debug, PartialEq, Eq, Structural)]
pub enum MigrationType {
    Cold,
    Live,
}

impl MigrationType {
    /// Reads a migration kind from its name.
    pub fn from_str(s: &str) -> (r: Result<MigrationType, Error>)
        ensures
            match r {
                Ok(MigrationType::Cold) => s.spec_bytes() == ascii_of("cold"@) || s.spec_bytes()
                    == ascii_of("COLD"@),
                Ok(MigrationType::Live) => s.spec_bytes() == ascii_of("live"@) || s.spec_bytes()
                    == ascii_of("LIVE"@),
                Err(e) => !(s.spec_bytes() == ascii_of("cold"@) || s.spec_bytes() == ascii_of(
                    "COLD"@,
                ) || s.spec_bytes() == ascii_of("live"@) || s.spec_bytes() == ascii_of("LIVE"@))
                    && (match e {
                    Error::UnsupportedMigrationType(m) => m@ == s@,
                    _ => false,
                }),
            },
            s.spec_bytes() == ascii_of("cold"@) || s.spec_bytes() == ascii_of("COLD"@) ==> r
                == Ok::<MigrationType, Error>(MigrationType::Cold),
            s.spec_bytes() == ascii_of("live"@) || s.spec_bytes() == ascii_of("LIVE"@) ==> r
                == Ok::<MigrationType, Error>(MigrationType::Live),
    {
        proof {
            reveal_strlit("cold");
            reveal_strlit("COLD");
            reveal_strlit("live");
            reveal_strlit("LIVE");
            assert(vstd::string::is_ascii("cold"));
            assert(vstd::string::is_ascii("COLD"));
            assert(vstd::string::is_ascii("live"));
            assert(vstd::string::is_ascii("LIVE"));
            assert(ascii_of("cold"@)[0] == 0x63 && ascii_of("COLD"@)[0] == 0x43 && ascii_of(
                "live"@,
            )[0] == 0x6c && ascii_of("LIVE"@)[0] == 0x4c);
        }
        let b = s.as_bytes();
        if bytes_eq(b, lit_bytes("cold")) || bytes_eq(b, lit_bytes("COLD")) {
            Ok(MigrationType::Cold)
        } else if bytes_eq(b, lit_bytes("live")) || bytes_eq(b, lit_bytes("LIVE")) {
            Ok(MigrationType::Live)
        } else {
            Err(Error::UnsupportedMigrationType(s.to_owned()))
        }
    }
}

/// Bytes taken by a configuration on the wire: five 64-bit words.
pub const CONFIG_WIRE_SIZE: usize = 40;

/// The wire bytes carry this configuration: core count, memory size,
/// generation number, entry point and the full-checkpoint flag, each as
/// one little-endian word.
pub open spec fn config_wire_matches(c: CheckpointConfig, b: Seq<u8>) -> bool {
    &&& b.len() == CONFIG_WIRE_SIZE
    &&& c.num_cpus == le64_val(b.subrange(0, 8)) as u32
    &&& c.mem_size == le64_val(b.subrange(8, 16))
    &&& c.checkpoint_number == le64_val(b.subrange(16, 24)) as u32
    &&& c.elf_entry == le64_val(b.subrange(24, 32))
    &&& c.full == (le64_val(b.subrange(32, 40)) != 0)
}

/// Writes a configuration for the wire.
pub fn encode_config_wire(c: &CheckpointConfig) -> (v: Vec<u8>)
    ensures
        config_wire_matches(*c, v@),
{
    let mut v: Vec<u8> = Vec::new();
    push_u64_le(&mut v, c.num_cpus as u64);
    push_u64_le(&mut v, c.mem_size);
    push_u64_le(&mut v, c.checkpoint_number as u64);
    push_u64_le(&mut v, c.elf_entry);
    push_u64_le(&mut v, if c.full {
        1
    } else {
        0
    });
    proof {
        lemma_le64_roundtrip(c.num_cpus as u64);
        lemma_le64_roundtrip(c.mem_size);
        lemma_le64_roundtrip(c.checkpoint_number as u64);
        lemma_le64_roundtrip(c.elf_entry);
        lemma_le64_roundtrip(
            if c.full {
                1
            } else {
                0
            },
        );
        assert(v@.subrange(0, 8) =~= u64_le(c.num_cpus as u64));
        assert(v@.subrange(8, 16) =~= u64_le(c.mem_size));
        assert(v@.subrange(16, 24) =~= u64_le(c.checkpoint_number as u64));
        assert(v@.subrange(24, 32) =~= u64_le(c.elf_entry));
        assert(v@.subrange(32, 40) =~= u64_le(
            if c.full {
                1u64
            } else {
                0u64
            },
        ));
    }
    v
}

/// Reads a configuration off the wire; accepts exactly buffers of the
/// wire size.
pub fn decode_config_wire(b: &[u8]) -> (r: Option<CheckpointConfig>)
    ensures
        match r {
            Some(c) => config_wire_matches(c, b@),
            None => b@.len() != CONFIG_WIRE_SIZE,
        },
{
    if b.len() != CONFIG_WIRE_SIZE {
        return None;
    }
    Some(
        CheckpointConfig {
            num_cpus: read_u64_le(b, 0) as u32,
            mem_size: read_u64_le(b, 8),
            checkpoint_number: read_u64_le(b, 16) as u32,
            elf_entry: read_u64_le(b, 24),
            full: read_u64_le(b, 32) != 0,
        },
    )
}

/// The metadata a migration sender transmits: the current configuration
/// with the generation number cleared, so the receiver starts afresh.
pub fn migration_metadata(cfg: &CheckpointConfig) -> (r: CheckpointConfig)
    ensures
        r == (CheckpointConfig { checkpoint_number: 0, ..*cfg }),
        r.checkpoint_number == 0,
        r.num_cpus == cfg.num_cpus,
        r.mem_size == cfg.mem_size,
        r.elf_entry == cfg.elf_entry,
        r.full == cfg.full,
{
    CheckpointConfig {
        num_cpus: cfg.num_cpus,
        mem_size: cfg.mem_size,
        checkpoint_number: 0,
        elf_entry: cfg.elf_entry,
        full: cfg.full,
    }
}

/// Two configurations the same wire bytes carry agree on every field:
/// the wire form determines the configuration.
pub proof fn lemma_config_wire_agree(c1: CheckpointConfig, c2: CheckpointConfig, b: Seq<u8>)
    requires
        config_wire_matches(c1, b),
        config_wire_matches(c2, b),
    ensures
        c1 == c2,
{
}

} // verus!
