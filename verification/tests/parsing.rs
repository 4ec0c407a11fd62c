//! Option parsing: memory sizes, hardware addresses, tap specs.

use uhyve::error::Error;
use uhyve::net::{parse_tap_spec, set_mac, validate_mac, TapSpec};
use uhyve::utils::{cpufreq_decide, parse_mem};

#[test]
fn parse_mem_accepts_binary_suffixes() {
    assert_eq!(parse_mem("512M").unwrap(), 536_870_912);
    assert_eq!(parse_mem("1G").unwrap(), 1_073_741_824);
    assert_eq!(parse_mem("2K").unwrap(), 2048);
    assert_eq!(parse_mem("3T").unwrap(), 3 * (1u64 << 40));
    assert_eq!(parse_mem("1P").unwrap(), 1u64 << 50);
    assert_eq!(parse_mem("1E").unwrap(), 1u64 << 60);
    assert_eq!(parse_mem("7g").unwrap(), 7 * (1u64 << 30));
}

#[test]
fn parse_mem_rejects_unknown_suffixes() {
    assert_eq!(parse_mem("7X"), Err(Error::ParseMemory));
    assert_eq!(parse_mem("512"), Err(Error::ParseMemory));
    assert_eq!(parse_mem("M"), Err(Error::ParseMemory));
    assert_eq!(parse_mem(""), Err(Error::ParseMemory));
    assert_eq!(parse_mem("1GB"), Err(Error::ParseMemory));
}

#[test]
fn parse_mem_rejects_overflow() {
    assert_eq!(parse_mem("99999999999E"), Err(Error::ParseMemory));
}

#[test]
fn mac_validation() {
    assert!(validate_mac("aa:bb:cc:dd:ee:ff"));
    assert!(validate_mac("00:11:22:33:44:55"));
    assert!(!validate_mac("aa:bb:cc:dd:ee"));
    assert!(!validate_mac("aabbccddeeff"));
    assert!(!validate_mac("aa:bb:cc:dd:ee:fg"));
    assert!(!validate_mac(""));
}

#[test]
fn mac_supplied_is_kept() {
    let out = set_mac(Some("aa:bb:cc:dd:ee:ff"));
    assert_eq!(out.len(), 18);
    assert_eq!(&out[..17], b"aa:bb:cc:dd:ee:ff");
    assert_eq!(out[17], 0);
}

#[test]
fn mac_generated_is_locally_administered_unicast() {
    let out = set_mac(None);
    assert_eq!(out.len(), 18);
    assert_eq!(out[17], 0);
    let text = std::str::from_utf8(&out[..17]).unwrap();
    assert!(validate_mac(text));
    let byte0 = u8::from_str_radix(&text[0..2], 16).unwrap();
    assert_eq!(byte0 & 0x01, 0);
    assert_eq!(byte0 & 0x02, 2);
}

#[test]
fn tap_spec_parsing() {
    assert_eq!(parse_tap_spec("@7"), Ok(TapSpec::Fd(7)));
    match parse_tap_spec("tap0") {
        Ok(TapSpec::Dev(name)) => assert_eq!(name, "tap0"),
        other => panic!("unexpected: {:?}", other),
    }
    assert_eq!(
        parse_tap_spec("a-name-way-over-sixteen-bytes"),
        Err(Error::NetworkInterface)
    );
    assert_eq!(parse_tap_spec("@notanumber"), Err(Error::NetworkInterface));
}

#[test]
fn cpufreq_sources() {
    assert_eq!(cpufreq_decide(Some(2400), None), Ok(2400));
    let content = b"3500000\n".to_vec();
    assert_eq!(cpufreq_decide(None, Some(&content)), Ok(3500));
    assert_eq!(
        cpufreq_decide(None, None),
        Err(Error::MissingFrequency)
    );
    let junk = b"fast\n".to_vec();
    assert_eq!(
        cpufreq_decide(None, Some(&junk)),
        Err(Error::MissingFrequency)
    );
}

#[test]
fn parse_mem_wants_the_suffix_last() {
    // digits scattered around the suffix are not a size
    assert_eq!(parse_mem("5M12"), Err(Error::ParseMemory));
    assert_eq!(parse_mem("M512"), Err(Error::ParseMemory));
}
