//! Checkpoints: the on-disk text format of a checkpoint's configuration,
//! and the names of the files a checkpoint generation is stored in.

use vstd::prelude::*;
use vstd::string::StringSliceAdditionalSpecFns;
use vstd::utf8::encode_utf8;

use crate::error::Error;
use crate::text::{
    all_ascii, all_digits, all_hex, ascii_of, dec_rep, dec_val, hex_rep,
    hex_val, lemma_all_ascii_concat, lemma_ascii_of_all_ascii, lemma_dec_rep,
    lemma_digits_all_ascii, lemma_hex_rep, lemma_lines_of_cons, lemma_lines_of_single, lines_of,
    lemma_digits_nl_free, lemma_nl_free_concat, lit_bytes, nl_free, parse_dec_u64, parse_hex_u64, push_dec_u64, push_hex_u64,
    split_lines, string_from_ascii,
};

verus! {

/// One checkpoint generation's configuration: what must be known to bring
/// the guest back.
#[derive(Clone, Copy, Debug, PartialEq, Eq, Structural)]
pub struct CheckpointConfig {
    pub num_cpus: u32,
    pub mem_size: u64,
    pub checkpoint_number: u32,
    pub elf_entry: u64,
    pub full: bool,
}

/// The text that a configuration is written as: five lines of
/// `key: value`, the sizes in hexadecimal with a `0x` prefix, the flag as
/// `0` or `1`, and no trailing newline.
pub open spec fn config_text(c: CheckpointConfig) -> Seq<u8> {
    ascii_of("number of cores: "@) + dec_rep(c.num_cpus as nat) + seq![0x0au8] + ascii_of(
        "memory size: 0x"@,
    ) + hex_rep(c.mem_size as nat) + seq![0x0au8] + ascii_of("checkpoint number: "@) + dec_rep(
        c.checkpoint_number as nat,
    ) + seq![0x0au8] + ascii_of("entry point: 0x"@) + hex_rep(c.elf_entry as nat) + seq![0x0au8]
        + ascii_of("full checkpoint: "@) + dec_rep(if c.full {
        1nat
    } else {
        0nat
    })
}

/// A decimal field value that fits a `u32`.
pub open spec fn config_u32_field(v: Seq<u8>) -> Option<u32> {
    if v.len() > 0 && all_digits(v) && dec_val(v) <= u32::MAX {
        Some(dec_val(v) as u32)
    } else {
        None
    }
}

/// A hexadecimal field value that fits a `u64`.
pub open spec fn config_u64_field(v: Seq<u8>) -> Option<u64> {
    if v.len() > 0 && all_hex(v) && hex_val(v) <= u64::MAX {
        Some(hex_val(v) as u64)
    } else {
        None
    }
}

/// The value of one line when the line starts with the given key.
pub open spec fn line_value(line: Seq<u8>, key: Seq<u8>) -> Option<Seq<u8>> {
    if key.is_prefix_of(line) {
        Some(line.skip(key.len() as int))
    } else {
        None
    }
}

/// What parsing a configuration text gives: exactly five lines carrying
/// the five keys in their canonical order, each field read back as it
/// was written; anything else gives nothing.
pub open spec fn parse_config(b: Seq<u8>) -> Option<CheckpointConfig> {
    let ls = lines_of(b);
    if ls.len() != 5 {
        None
    } else {
        match line_value(ls[0], ascii_of("number of cores: "@)) {
            Some(cores_v) => match config_u32_field(cores_v) {
                Some(cores) => match line_value(ls[1], ascii_of("memory size: 0x"@)) {
                    Some(mem_v) => match config_u64_field(mem_v) {
                        Some(mem) => match line_value(ls[2], ascii_of("checkpoint number: "@)) {
                            Some(num_v) => match config_u32_field(num_v) {
                                Some(num) => match line_value(ls[3], ascii_of("entry point: 0x"@)) {
                                    Some(entry_v) => match config_u64_field(entry_v) {
                                        Some(entry) => match line_value(
                                            ls[4],
                                            ascii_of("full checkpoint: "@),
                                        ) {
                                            Some(full_v) => match config_u32_field(full_v) {
                                                Some(full) => Some(
                                                    CheckpointConfig {
                                                        num_cpus: cores,
                                                        mem_size: mem,
                                                        checkpoint_number: num,
                                                        elf_entry: entry,
                                                        full: full != 0,
                                                    },
                                                ),
                                                None => None,
                                            },
                                            None => None,
                                        },
                                        None => None,
                                    },
                                    None => None,
                                },
                                None => None,
                            },
                            None => None,
                        },
                        None => None,
                    },
                    None => None,
                },
                None => None,
            },
            None => None,
        }
    }
}

impl CheckpointConfig {
    pub fn get_num_cpus(&self) -> (r: u32)
        ensures
            r == self.num_cpus,
    {
        self.num_cpus
    }

    pub fn get_mem_size(&self) -> (r: u64)
        ensures
            r == self.mem_size,
    {
        self.mem_size
    }

    pub fn get_elf_entry(&self) -> (r: u64)
        ensures
            r == self.elf_entry,
    {
        self.elf_entry
    }

    pub fn get_checkpoint_number(&self) -> (r: u32)
        ensures
            r == self.checkpoint_number,
    {
        self.checkpoint_number
    }

    pub fn get_full(&self) -> (r: bool)
        ensures
            r == self.full,
    {
        self.full
    }

    /// Writes the configuration in its text format.
    pub fn to_string(&self) -> (r: String)
        ensures
            encode_utf8(r@) == config_text(*self),
    {
        let mut v: Vec<u8> = Vec::new();
        proof {
            reveal_strlit("number of cores: ");
            reveal_strlit("memory size: 0x");
            reveal_strlit("checkpoint number: ");
            reveal_strlit("entry point: 0x");
            reveal_strlit("full checkpoint: ");
            assert(vstd::string::is_ascii("number of cores: "));
            assert(vstd::string::is_ascii("memory size: 0x"));
            assert(vstd::string::is_ascii("checkpoint number: "));
            assert(vstd::string::is_ascii("entry point: 0x"));
            assert(vstd::string::is_ascii("full checkpoint: "));
        }
        v.extend_from_slice(lit_bytes("number of cores: "));
        push_dec_u64(&mut v, self.num_cpus as u64);
        v.push(0x0a);
        v.extend_from_slice(lit_bytes("memory size: 0x"));
        push_hex_u64(&mut v, self.mem_size);
        v.push(0x0a);
        v.extend_from_slice(lit_bytes("checkpoint number: "));
        push_dec_u64(&mut v, self.checkpoint_number as u64);
        v.push(0x0a);
        v.extend_from_slice(lit_bytes("entry point: 0x"));
        push_hex_u64(&mut v, self.elf_entry);
        v.push(0x0a);
        v.extend_from_slice(lit_bytes("full checkpoint: "));
        push_dec_u64(&mut v, if self.full {
            1
        } else {
            0
        });
        proof {
            assert(v@ =~= config_text(*self));
            lemma_config_text_ascii(*self);
        }
        string_from_ascii(v)
    }

    /// Reads a configuration back from its text format.
    pub fn from(data: &str) -> (r: Result<CheckpointConfig, Error>)
        ensures
            match r {
                Ok(c) => parse_config(data.spec_bytes()) == Some(c),
                Err(e) => parse_config(data.spec_bytes()) is None && e
                    == Error::InvalidCheckpoint,
            },
    {
        proof {
            reveal_strlit("number of cores: ");
            reveal_strlit("memory size: 0x");
            reveal_strlit("checkpoint number: ");
            reveal_strlit("entry point: 0x");
            reveal_strlit("full checkpoint: ");
            assert(vstd::string::is_ascii("number of cores: "));
            assert(vstd::string::is_ascii("memory size: 0x"));
            assert(vstd::string::is_ascii("checkpoint number: "));
            assert(vstd::string::is_ascii("entry point: 0x"));
            assert(vstd::string::is_ascii("full checkpoint: "));
        }
        let bytes = data.as_bytes();
        let lines = split_lines(bytes);
        if lines.len() != 5 {
            return Err(Error::InvalidCheckpoint);
        }
        proof {
            assert(crate::text::line_views(lines@)[0] == lines@[0]@);
            assert(crate::text::line_views(lines@)[1] == lines@[1]@);
            assert(crate::text::line_views(lines@)[2] == lines@[2]@);
            assert(crate::text::line_views(lines@)[3] == lines@[3]@);
            assert(crate::text::line_views(lines@)[4] == lines@[4]@);
        }

        let cores_v = match Self::line_suffix(&lines[0], lit_bytes("number of cores: ")) {
            Some(v) => v,
            None => {
                return Err(Error::InvalidCheckpoint);
            },
        };
        let cores = match Self::u32_field(&cores_v) {
            Some(x) => x,
            None => {
                return Err(Error::InvalidCheckpoint);
            },
        };
        let mem_v = match Self::line_suffix(&lines[1], lit_bytes("memory size: 0x")) {
            Some(v) => v,
            None => {
                return Err(Error::InvalidCheckpoint);
            },
        };
        let mem = match Self::u64_field(&mem_v) {
            Some(x) => x,
            None => {
                return Err(Error::InvalidCheckpoint);
            },
        };
        let num_v = match Self::line_suffix(&lines[2], lit_bytes("checkpoint number: ")) {
            Some(v) => v,
            None => {
                return Err(Error::InvalidCheckpoint);
            },
        };
        let num = match Self::u32_field(&num_v) {
            Some(x) => x,
            None => {
                return Err(Error::InvalidCheckpoint);
            },
        };
        let entry_v = match Self::line_suffix(&lines[3], lit_bytes("entry point: 0x")) {
            Some(v) => v,
            None => {
                return Err(Error::InvalidCheckpoint);
            },
        };
        let entry = match Self::u64_field(&entry_v) {
            Some(x) => x,
            None => {
                return Err(Error::InvalidCheckpoint);
            },
        };
        let full_v = match Self::line_suffix(&lines[4], lit_bytes("full checkpoint: ")) {
            Some(v) => v,
            None => {
                return Err(Error::InvalidCheckpoint);
            },
        };
        let full = match Self::u32_field(&full_v) {
            Some(x) => x,
            None => {
                return Err(Error::InvalidCheckpoint);
            },
        };
        Ok(
            CheckpointConfig {
                num_cpus: cores,
                mem_size: mem,
                checkpoint_number: num,
                elf_entry: entry,
                full: full != 0,
            },
        )
    }

    /// The rest of a line after its key, when the key is there.
    fn line_suffix(line: &Vec<u8>, key: &[u8]) -> (r: Option<Vec<u8>>)
        ensures
            match r {
                Some(v) => line_value(line@, key@) == Some(v@),
                None => line_value(line@, key@) is None,
            },
    {
        if crate::text::bytes_start_with(line.as_slice(), key) {
            let v = vstd::slice::slice_to_vec(&line.as_slice()[key.len()..line.len()]);
            proof {
                assert(v@ =~= line@.skip(key@.len() as int));
            }
            Some(v)
        } else {
            None
        }
    }

    /// A decimal field value that fits a `u32`.
    fn u32_field(v: &Vec<u8>) -> (r: Option<u32>)
        ensures
            r == config_u32_field(v@),
    {
        match parse_dec_u64(v.as_slice()) {
            Some(x) => if x <= u32::MAX as u64 {
                Some(x as u32)
            } else {
                None
            },
            None => None,
        }
    }

    /// A hexadecimal field value that fits a `u64`.
    fn u64_field(v: &Vec<u8>) -> (r: Option<u64>)
        ensures
            r == config_u64_field(v@),
    {
        parse_hex_u64(v.as_slice())
    }
}

/// Writing a configuration and parsing the text back gives the same
/// configuration: the text format loses nothing.
#[verifier::rlimit(100)]
#[verifier::spinoff_prover]
pub proof fn lemma_config_text_roundtrip(c: CheckpointConfig)
    ensures
        parse_config(config_text(c)) == Some(c),
{
    reveal_strlit("number of cores: ");
    reveal_strlit("memory size: 0x");
    reveal_strlit("checkpoint number: ");
    reveal_strlit("entry point: 0x");
    reveal_strlit("full checkpoint: ");
    let p1 = ascii_of("number of cores: "@);
    let p2 = ascii_of("memory size: 0x"@);
    let p3 = ascii_of("checkpoint number: "@);
    let p4 = ascii_of("entry point: 0x"@);
    let p5 = ascii_of("full checkpoint: "@);
    let d1 = dec_rep(c.num_cpus as nat);
    let h2 = hex_rep(c.mem_size as nat);
    let d3 = dec_rep(c.checkpoint_number as nat);
    let h4 = hex_rep(c.elf_entry as nat);
    let d5 = dec_rep(
        if c.full {
            1nat
        } else {
            0nat
        },
    );
    lemma_dec_rep(c.num_cpus as nat);
    lemma_hex_rep(c.mem_size as nat);
    lemma_dec_rep(c.checkpoint_number as nat);
    lemma_hex_rep(c.elf_entry as nat);
    lemma_dec_rep(
        if c.full {
            1nat
        } else {
            0nat
        },
    );
    let l1 = p1 + d1;
    let l2 = p2 + h2;
    let l3 = p3 + d3;
    let l4 = p4 + h4;
    let l5 = p5 + d5;

    assert(nl_free(p1));
    assert(nl_free(p2));
    assert(nl_free(p3));
    assert(nl_free(p4));
    assert(nl_free(p5));
    lemma_digits_nl_free(d1);
    lemma_digits_nl_free(h2);
    lemma_digits_nl_free(d3);
    lemma_digits_nl_free(h4);
    lemma_digits_nl_free(d5);
    lemma_nl_free_concat(p1, d1);
    lemma_nl_free_concat(p2, h2);
    lemma_nl_free_concat(p3, d3);
    lemma_nl_free_concat(p4, h4);
    lemma_nl_free_concat(p5, d5);

    let nl = seq![0x0au8];
    let rest4 = l5;
    let rest3 = l4 + nl + rest4;
    let rest2 = l3 + nl + rest3;
    let rest1 = l2 + nl + rest2;
    assert(config_text(c) =~= l1 + nl + rest1);
    lemma_lines_of_cons(l1, rest1);
    assert(rest1 =~= l2 + nl + rest2);
    lemma_lines_of_cons(l2, rest2);
    assert(rest2 =~= l3 + nl + rest3);
    lemma_lines_of_cons(l3, rest3);
    assert(rest3 =~= l4 + nl + rest4);
    lemma_lines_of_cons(l4, rest4);
    lemma_lines_of_single(l5);
    let ls = seq![l1, l2, l3, l4, l5];
    assert(lines_of(config_text(c)) =~= ls);

    assert(p1.is_prefix_of(l1)) by {
        assert(p1 =~= l1.subrange(0, p1.len() as int));
    }
    assert(line_value(ls[0], p1) == Some(l1.skip(p1.len() as int)));
    assert(l1.skip(p1.len() as int) =~= d1);
    assert(config_u32_field(d1) == Some(c.num_cpus));

    assert(p2.is_prefix_of(l2)) by {
        assert(p2 =~= l2.subrange(0, p2.len() as int));
    }
    assert(line_value(ls[1], p2) == Some(l2.skip(p2.len() as int)));
    assert(l2.skip(p2.len() as int) =~= h2);
    assert(config_u64_field(h2) == Some(c.mem_size));

    assert(p3.is_prefix_of(l3)) by {
        assert(p3 =~= l3.subrange(0, p3.len() as int));
    }
    assert(line_value(ls[2], p3) == Some(l3.skip(p3.len() as int)));
    assert(l3.skip(p3.len() as int) =~= d3);
    assert(config_u32_field(d3) == Some(c.checkpoint_number));

    assert(p4.is_prefix_of(l4)) by {
        assert(p4 =~= l4.subrange(0, p4.len() as int));
    }
    assert(line_value(ls[3], p4) == Some(l4.skip(p4.len() as int)));
    assert(l4.skip(p4.len() as int) =~= h4);
    assert(config_u64_field(h4) == Some(c.elf_entry));

    assert(p5.is_prefix_of(l5)) by {
        assert(p5 =~= l5.subrange(0, p5.len() as int));
    }
    assert(line_value(ls[4], p5) == Some(l5.skip(p5.len() as int)));
    assert(l5.skip(p5.len() as int) =~= d5);
    assert(config_u32_field(d5) == Some(

        if c.full {
            1u32
        } else {
            0u32
        },
    ));
}

/// The configuration text holds ASCII bytes only.
pub proof fn lemma_config_text_ascii(c: CheckpointConfig)
    ensures
        all_ascii(config_text(c)),
{
    reveal_strlit("number of cores: ");
    reveal_strlit("memory size: 0x");
    reveal_strlit("checkpoint number: ");
    reveal_strlit("entry point: 0x");
    reveal_strlit("full checkpoint: ");
    assert(vstd::utf8::is_ascii_chars("number of cores: "@));
    assert(vstd::utf8::is_ascii_chars("memory size: 0x"@));
    assert(vstd::utf8::is_ascii_chars("checkpoint number: "@));
    assert(vstd::utf8::is_ascii_chars("entry point: 0x"@));
    assert(vstd::utf8::is_ascii_chars("full checkpoint: "@));
    lemma_ascii_of_all_ascii("number of cores: "@);
    lemma_ascii_of_all_ascii("memory size: 0x"@);
    lemma_ascii_of_all_ascii("checkpoint number: "@);
    lemma_ascii_of_all_ascii("entry point: 0x"@);
    lemma_ascii_of_all_ascii("full checkpoint: "@);
    lemma_dec_rep(c.num_cpus as nat);
    lemma_hex_rep(c.mem_size as nat);
    lemma_dec_rep(c.checkpoint_number as nat);
    lemma_hex_rep(c.elf_entry as nat);
    lemma_dec_rep(
        if c.full {
            1nat
        } else {
            0nat
        },
    );
    lemma_digits_all_ascii(dec_rep(c.num_cpus as nat));
    lemma_digits_all_ascii(hex_rep(c.mem_size as nat));
    lemma_digits_all_ascii(dec_rep(c.checkpoint_number as nat));
    lemma_digits_all_ascii(hex_rep(c.elf_entry as nat));
    lemma_digits_all_ascii(
        dec_rep(
            if c.full {
                1nat
            } else {
                0nat
            },
        ),
    );
    let nl = seq![0x0au8];
    assert(all_ascii(nl));
    let p1 = ascii_of("number of cores: "@) + dec_rep(c.num_cpus as nat);
    lemma_all_ascii_concat(ascii_of("number of cores: "@), dec_rep(c.num_cpus as nat));
    let p2 = p1 + nl;
    lemma_all_ascii_concat(p1, nl);
    let p3 = p2 + ascii_of("memory size: 0x"@);
    lemma_all_ascii_concat(p2, ascii_of("memory size: 0x"@));
    let p4 = p3 + hex_rep(c.mem_size as nat);
    lemma_all_ascii_concat(p3, hex_rep(c.mem_size as nat));
    let p5 = p4 + nl;
    lemma_all_ascii_concat(p4, nl);
    let p6 = p5 + ascii_of("checkpoint number: "@);
    lemma_all_ascii_concat(p5, ascii_of("checkpoint number: "@));
    let p7 = p6 + dec_rep(c.checkpoint_number as nat);
    lemma_all_ascii_concat(p6, dec_rep(c.checkpoint_number as nat));
    let p8 = p7 + nl;
    lemma_all_ascii_concat(p7, nl);
    let p9 = p8 + ascii_of("entry point: 0x"@);
    lemma_all_ascii_concat(p8, ascii_of("entry point: 0x"@));
    let p10 = p9 + hex_rep(c.elf_entry as nat);
    lemma_all_ascii_concat(p9, hex_rep(c.elf_entry as nat));
    let p11 = p10 + nl;
    lemma_all_ascii_concat(p10, nl);
    let p12 = p11 + ascii_of("full checkpoint: "@);
    lemma_all_ascii_concat(p11, ascii_of("full checkpoint: "@));
    let p13 = p12 + dec_rep(
        if c.full {
            1nat
        } else {
            0nat
        },
    );
    lemma_all_ascii_concat(
        p12,
        dec_rep(
            if c.full {
                1nat
            } else {
                0nat
            },
        ),
    );
    assert(config_text(c) =~= p13);
}

} // verus!
// The storage side of a checkpoint: what the files hold.

verus! {

/// Everything one checkpoint generation carries in memory.
pub struct CheckpointData {
    pub config: CheckpointConfig,
    pub cpu_states: Vec<crate::kvm::vcpu_state>,
}

/// A checkpoint kept in files under the checkpoint directory.
pub struct FileCheckpoint {
    pub data: CheckpointData,
}

impl FileCheckpoint {
    /// Wraps a configuration with no vCPU snapshots yet.
    pub fn new(config: CheckpointConfig) -> (r: FileCheckpoint)
        ensures
            r.data.config == config,
            r.data.cpu_states@.len() == 0,
    {
        FileCheckpoint { data: CheckpointData { config, cpu_states: Vec::new() } }
    }

    pub fn get_config(&self) -> (r: &CheckpointConfig)
        ensures
            *r == self.data.config,
    {
        &self.data.config
    }

    pub fn get_cpu_states(&mut self) -> (r: &mut Vec<crate::kvm::vcpu_state>)
        ensures
            final(self).data.config == old(self).data.config,
    {
        &mut self.data.cpu_states
    }

    /// The file name a generation's memory pages are stored under.
    pub fn get_mem_file_path(checkpoint_num: u32) -> (r: String)
        ensures
            encode_utf8(r@) == mem_file_path_text(checkpoint_num),
    {
        proof {
            reveal_strlit("checkpoint/chk");
            reveal_strlit("_mem.dat");
            assert(vstd::string::is_ascii("checkpoint/chk"));
            assert(vstd::string::is_ascii("_mem.dat"));
        }
        let mut v: Vec<u8> = Vec::new();
        v.extend_from_slice(lit_bytes("checkpoint/chk"));
        push_dec_u64(&mut v, checkpoint_num as u64);
        v.extend_from_slice(lit_bytes("_mem.dat"));
        proof {
            assert(v@ =~= mem_file_path_text(checkpoint_num));
            lemma_path_ascii(checkpoint_num);
        }
        string_from_ascii(v)
    }

    /// The file name one vCPU's snapshot is stored under.
    pub fn get_core_file_path(checkpoint_num: u32, cpu: u32) -> (r: String)
        ensures
            encode_utf8(r@) == core_file_path_text(checkpoint_num, cpu),
    {
        proof {
            reveal_strlit("checkpoint/chk");
            reveal_strlit("_core");
            reveal_strlit(".dat");
            assert(vstd::string::is_ascii("checkpoint/chk"));
            assert(vstd::string::is_ascii("_core"));
            assert(vstd::string::is_ascii(".dat"));
        }
        let mut v: Vec<u8> = Vec::new();
        v.extend_from_slice(lit_bytes("checkpoint/chk"));
        push_dec_u64(&mut v, checkpoint_num as u64);
        v.extend_from_slice(lit_bytes("_core"));
        push_dec_u64(&mut v, cpu as u64);
        v.extend_from_slice(lit_bytes(".dat"));
        proof {
            assert(v@ =~= core_file_path_text(checkpoint_num, cpu));
            lemma_core_path_ascii(checkpoint_num, cpu);
        }
        string_from_ascii(v)
    }
}

/// The text of a generation's memory file name.
pub open spec fn mem_file_path_text(n: u32) -> Seq<u8> {
    ascii_of("checkpoint/chk"@) + dec_rep(n as nat) + ascii_of("_mem.dat"@)
}

/// The text of one vCPU's snapshot file name.
pub open spec fn core_file_path_text(n: u32, cpu: u32) -> Seq<u8> {
    ascii_of("checkpoint/chk"@) + dec_rep(n as nat) + ascii_of("_core"@) + dec_rep(cpu as nat)
        + ascii_of(".dat"@)
}

proof fn lemma_path_ascii(n: u32)
    ensures
        all_ascii(mem_file_path_text(n)),
{
    reveal_strlit("checkpoint/chk");
    reveal_strlit("_mem.dat");
    assert(vstd::utf8::is_ascii_chars("checkpoint/chk"@));
    assert(vstd::utf8::is_ascii_chars("_mem.dat"@));
    lemma_ascii_of_all_ascii("checkpoint/chk"@);
    lemma_ascii_of_all_ascii("_mem.dat"@);
    lemma_dec_rep(n as nat);
    lemma_digits_all_ascii(dec_rep(n as nat));
    lemma_all_ascii_concat(ascii_of("checkpoint/chk"@), dec_rep(n as nat));
    lemma_all_ascii_concat(
        ascii_of("checkpoint/chk"@) + dec_rep(n as nat),
        ascii_of("_mem.dat"@),
    );
}

proof fn lemma_core_path_ascii(n: u32, cpu: u32)
    ensures
        all_ascii(core_file_path_text(n, cpu)),
{
    reveal_strlit("checkpoint/chk");
    reveal_strlit("_core");
    reveal_strlit(".dat");
    assert(vstd::utf8::is_ascii_chars("checkpoint/chk"@));
    assert(vstd::utf8::is_ascii_chars("_core"@));
    assert(vstd::utf8::is_ascii_chars(".dat"@));
    lemma_ascii_of_all_ascii("checkpoint/chk"@);
    lemma_ascii_of_all_ascii("_core"@);
    lemma_ascii_of_all_ascii(".dat"@);
    lemma_dec_rep(n as nat);
    lemma_dec_rep(cpu as nat);
    lemma_digits_all_ascii(dec_rep(n as nat));
    lemma_digits_all_ascii(dec_rep(cpu as nat));
    let p1 = ascii_of("checkpoint/chk"@);
    lemma_all_ascii_concat(p1, dec_rep(n as nat));
    let p2 = p1 + dec_rep(n as nat);
    lemma_all_ascii_concat(p2, ascii_of("_core"@));
    let p3 = p2 + ascii_of("_core"@);
    lemma_all_ascii_concat(p3, dec_rep(cpu as nat));
    let p4 = p3 + dec_rep(cpu as nat);
    lemma_all_ascii_concat(p4, ascii_of(".dat"@));
}

/// One page recorded in a memory file: the page-table entry, then the
/// page bytes, a large page's worth when the entry maps one.
pub struct PageRecord {
    pub entry: u64,
    pub data: Vec<u8>,
}

impl PageRecord {
    /// A record's page data has the size its entry calls for.
    pub open spec fn wf(&self) -> bool {
        self.data@.len() == (if self.entry & crate::paging::PAGE_HUGE != 0 {
            crate::paging::LARGE_PAGE_SIZE as int
        } else {
            crate::paging::BASE_PAGE_SIZE as int
        })
    }
}

/// The bytes of a run of page records: each record's entry word, then
/// its page data.
pub open spec fn records_bytes(rs: Seq<PageRecord>) -> Seq<u8>
    decreases rs.len(),
{
    if rs.len() == 0 {
        Seq::empty()
    } else {
        records_bytes(rs.drop_last()) + crate::bytes::u64_le(rs.last().entry) + rs.last().data@
    }
}

/// Writes a run of page records.
pub fn encode_records(rs: &Vec<PageRecord>) -> (v: Vec<u8>)
    ensures
        v@ == records_bytes(rs@),
{
    let mut v: Vec<u8> = Vec::new();
    let n = rs.len();
    let mut i: usize = 0;
    proof {
        assert(rs@.take(0) =~= Seq::<PageRecord>::empty());
    }
    while i < n
        invariant
            i <= n,
            n == rs@.len(),
            v@ == records_bytes(rs@.take(i as int)),
        decreases n - i,
    {
        crate::bytes::push_u64_le(&mut v, rs[i].entry);
        v.extend_from_slice(rs[i].data.as_slice());
        proof {
            assert(rs@.take(i + 1).drop_last() =~= rs@.take(i as int));
            assert(rs@.take(i + 1).last() == rs@[i as int]);
            assert(v@ =~= records_bytes(rs@.take(i + 1)));
        }
        i += 1;
    }
    proof {
        assert(rs@.take(n as int) =~= rs@);
    }
    v
}

/// Whether a byte run is a whole sequence of records: entry word, then
/// exactly the page size its huge bit calls for, and so on to the end.
pub open spec fn valid_records_bytes(b: Seq<u8>) -> bool
    decreases b.len(),
{
    if b.len() == 0 {
        true
    } else if b.len() < 8 {
        false
    } else {
        let e = crate::bytes::le64_val(b.subrange(0, 8));
        let size: int = if e & crate::paging::PAGE_HUGE != 0 {
            crate::paging::LARGE_PAGE_SIZE as int
        } else {
            crate::paging::BASE_PAGE_SIZE as int
        };
        b.len() >= 8 + size && valid_records_bytes(b.skip(8 + size))
    }
}

/// Reads a run of page records back: exactly the byte runs that a
/// well-formed record list writes are accepted, and re-encoding the
/// result gives the input back.
pub fn decode_records(b: &[u8]) -> (r: Option<Vec<PageRecord>>)
    ensures
        match r {
            Some(rs) => records_bytes(rs@) == b@ && valid_records_bytes(b@) && forall|i: int|
                0 <= i < rs@.len() ==> (#[trigger] rs@[i]).wf(),
            None => !valid_records_bytes(b@),
        },
{
    let n = b.len();
    let mut rs: Vec<PageRecord> = Vec::new();
    let mut off: usize = 0;
    proof {
        assert(records_bytes(rs@) =~= b@.subrange(0, 0));
        assert(b@.skip(0) =~= b@);
    }
    while off < n
        invariant
            off <= n,
            n == b@.len(),
            records_bytes(rs@) == b@.subrange(0, off as int),
            valid_records_bytes(b@) <==> valid_records_bytes(b@.skip(off as int)),
            forall|i: int| 0 <= i < rs@.len() ==> (#[trigger] rs@[i]).wf(),
        decreases n - off,
    {
        let ghost rest = b@.skip(off as int);
        if n - off < 8 {
            proof {
                assert(rest.len() == n - off);
                assert(!valid_records_bytes(rest));
            }
            return None;
        }
        let entry = crate::bytes::read_u64_le(b, off);
        let size: usize = if entry & crate::paging::PAGE_HUGE != 0 {
            crate::paging::LARGE_PAGE_SIZE as usize
        } else {
            crate::paging::BASE_PAGE_SIZE as usize
        };
        proof {
            assert(rest.subrange(0, 8) =~= b@.subrange(off as int, off + 8));
        }
        if n - off - 8 < size {
            proof {
                assert(!valid_records_bytes(rest));
            }
            return None;
        }
        let data = vstd::slice::slice_to_vec(&b[off + 8..off + 8 + size]);
        let rec = PageRecord { entry, data };
        let ghost old_rs = rs@;
        rs.push(rec);
        proof {
            assert(rs@.drop_last() =~= old_rs);
            assert(rs@.last() == rec);
            crate::bytes::lemma_le64_roundtrip(entry);
            crate::bytes::lemma_u64_le_of_val(b@.subrange(off as int, off + 8));
            assert(b@.subrange(off as int, off + 8) == crate::bytes::u64_le(entry));
            assert(records_bytes(rs@) =~= b@.subrange(0, off + 8 + size));
            assert(rest.skip(8 + size) =~= b@.skip(off + 8 + size));
            assert(valid_records_bytes(rest) <==> valid_records_bytes(b@.skip(off + 8 + size)));
        }
        off = off + 8 + size;
    }
    proof {
        assert(b@.subrange(0, n as int) =~= b@);
        assert(b@.skip(n as int) =~= Seq::<u8>::empty());
        assert(valid_records_bytes(b@.skip(n as int)));
    }
    Some(rs)
}

/// Applies page records to guest RAM: every recorded page goes back to
/// the address its entry names.
pub open spec fn apply_all(m: Seq<u8>, rs: Seq<PageRecord>) -> Seq<u8>
    decreases rs.len(),
{
    if rs.len() == 0 {
        m
    } else {
        let prev = apply_all(m, rs.drop_last());
        let r = rs.last();
        let addr = r.entry & crate::paging::PAGE_ADDR_MASK;
        if addr + r.data@.len() <= prev.len() {
            crate::bytes::splice(prev, addr as int, r.data@)
        } else {
            prev
        }
    }
}

/// A record whose masked address and page length leave a memory of the
/// given size.
pub open spec fn record_oob(r: PageRecord, len: int) -> bool {
    (r.entry & crate::paging::PAGE_ADDR_MASK) + r.data@.len() > len
}

/// Index of the first record that leaves the memory, or the count when
/// every record fits.
pub open spec fn first_oob(rs: Seq<PageRecord>, len: int) -> int
    decreases rs.len(),
{
    if rs.len() == 0 {
        0
    } else if record_oob(rs[0], len) {
        0
    } else {
        1 + first_oob(rs.drop_first(), len)
    }
}

/// A scan that saw only fitting records up to a stop found the first
/// misfit there.
proof fn lemma_first_oob_is(rs: Seq<PageRecord>, len: int, i: int)
    requires
        0 <= i <= rs.len(),
        forall|t: int| 0 <= t < i ==> !record_oob(#[trigger] rs[t], len),
        i < rs.len() ==> record_oob(rs[i], len),
    ensures
        first_oob(rs, len) == i,
    decreases i,
{
    if i > 0 {
        let d = rs.drop_first();
        assert forall|t: int| 0 <= t < i - 1 implies !record_oob(#[trigger] d[t], len) by {
            assert(d[t] == rs[t + 1]);
        }
        if i - 1 < d.len() {
            assert(d[i - 1] == rs[i]);
        }
        lemma_first_oob_is(d, len, i - 1);
    }
}

/// Writes every record's page back into guest RAM, in order, stopping at
/// the first record that points outside the RAM: that record and the
/// rest are refused, with everything before it already applied.
pub fn apply_records(mem: &mut crate::mem::GuestMemory, rs: &Vec<PageRecord>) -> (r: Result<
    (),
    Error,
>)
    ensures
        final(mem)@.len() == old(mem)@.len(),
        r is Ok <==> first_oob(rs@, old(mem)@.len() as int) == rs@.len(),
        r is Ok ==> final(mem)@ == apply_all(old(mem)@, rs@),
        (match r {
            Err(e) => e == Error::InvalidCheckpoint && final(mem)@ == apply_all(
                old(mem)@,
                rs@.take(first_oob(rs@, old(mem)@.len() as int)),
            ),
            Ok(_) => true,
        }),
{
    let n = rs.len();
    let total = mem.len();
    let mut i: usize = 0;
    proof {
        assert(apply_all(old(mem)@, rs@.take(0)) =~= old(mem)@);
    }
    while i < n
        invariant
            i <= n,
            n == rs@.len(),
            total == old(mem)@.len(),
            mem@.len() == old(mem)@.len(),
            mem@ == apply_all(old(mem)@, rs@.take(i as int)),
            forall|t: int| 0 <= t < i ==> !record_oob(#[trigger] rs@[t], old(mem)@.len() as int),
        decreases n - i,
    {
        let entry = rs[i].entry;
        let addr = entry & crate::paging::PAGE_ADDR_MASK;
        let len = rs[i].data.len() as u64;
        if addr > u64::MAX - len || addr + len > mem.len() {
            proof {
                lemma_first_oob_is(rs@, old(mem)@.len() as int, i as int);
            }
            return Err(Error::InvalidCheckpoint);
        }
        mem.write_bytes(addr, rs[i].data.as_slice());
        proof {
            assert(rs@.take(i + 1).drop_last() =~= rs@.take(i as int));
            assert(rs@.take(i + 1).last() == rs@[i as int]);
        }
        i += 1;
    }
    proof {
        assert(rs@.take(n as int) =~= rs@);
        lemma_first_oob_is(rs@, old(mem)@.len() as int, n as int);
    }
    Ok(())
}

} // verus!
