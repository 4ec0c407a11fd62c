//! The checkpoint configuration text, the file names, and the migration
//! wire form.

use uhyve::checkpoint::{CheckpointConfig, FileCheckpoint};
use uhyve::error::Error;
use uhyve::migration::{
    decode_config_wire, encode_config_wire, migration_metadata, MigrationType, MIGRATION_PORT,
};

fn sample() -> CheckpointConfig {
    CheckpointConfig {
        num_cpus: 4,
        mem_size: 0x20000000,
        checkpoint_number: 2,
        elf_entry: 0x200000,
        full: false,
    }
}

#[test]
fn config_text_exact() {
    let text = sample().to_string();
    assert_eq!(
        text,
        "number of cores: 4\nmemory size: 0x20000000\ncheckpoint number: 2\nentry point: 0x200000\nfull checkpoint: 0"
    );
}

#[test]
fn config_text_roundtrip() {
    let cfg = sample();
    let text = cfg.to_string();
    let back = CheckpointConfig::from(&text).unwrap();
    assert_eq!(back, cfg);

    let full = CheckpointConfig { full: true, checkpoint_number: 0, ..cfg };
    let back2 = CheckpointConfig::from(&full.to_string()).unwrap();
    assert_eq!(back2, full);
}

#[test]
fn config_text_rejects_missing_keys() {
    assert_eq!(
        CheckpointConfig::from("number of cores: 4"),
        Err(Error::InvalidCheckpoint)
    );
    assert_eq!(CheckpointConfig::from(""), Err(Error::InvalidCheckpoint));
    assert_eq!(
        CheckpointConfig::from("number of cores: x\nmemory size: 0x1\ncheckpoint number: 0\nentry point: 0x1\nfull checkpoint: 0"),
        Err(Error::InvalidCheckpoint)
    );
}

#[test]
fn checkpoint_file_names() {
    assert_eq!(FileCheckpoint::get_mem_file_path(0), "checkpoint/chk0_mem.dat");
    assert_eq!(FileCheckpoint::get_mem_file_path(17), "checkpoint/chk17_mem.dat");
    assert_eq!(
        FileCheckpoint::get_core_file_path(3, 1),
        "checkpoint/chk3_core1.dat"
    );
}

#[test]
fn migration_wire_roundtrip() {
    let cfg = sample();
    let wire = encode_config_wire(&cfg);
    assert_eq!(wire.len(), 40);
    let back = decode_config_wire(&wire).unwrap();
    assert_eq!(back, cfg);
    assert!(decode_config_wire(&wire[..39]).is_none());
}

#[test]
fn migration_metadata_resets_generation() {
    let meta = migration_metadata(&sample());
    assert_eq!(meta.checkpoint_number, 0);
    assert_eq!(meta.num_cpus, 4);
    assert_eq!(meta.mem_size, 0x20000000);
    assert_eq!(MIGRATION_PORT, 1337);
}

#[test]
fn migration_type_names() {
    assert_eq!(MigrationType::from_str("cold"), Ok(MigrationType::Cold));
    assert_eq!(MigrationType::from_str("LIVE"), Ok(MigrationType::Live));
    assert!(matches!(
        MigrationType::from_str("warm"),
        Err(Error::UnsupportedMigrationType(_))
    ));
}

#[test]
fn config_text_rejects_reordered_lines() {
    // the same five lines with the memory-size line first must be refused
    let reordered = "memory size: 0x20000000\nnumber of cores: 4\ncheckpoint number: 2\nentry point: 0x200000\nfull checkpoint: 0";
    assert_eq!(
        CheckpointConfig::from(reordered),
        Err(Error::InvalidCheckpoint)
    );
    let trailing = "number of cores: 4\nmemory size: 0x20000000\ncheckpoint number: 2\nentry point: 0x200000\nfull checkpoint: 0\nstray line";
    assert_eq!(CheckpointConfig::from(trailing), Err(Error::InvalidCheckpoint));
}
