use bier::config::{BierConfig, ConfigEntry, SerdeBierHdr};
use bier::mapping::Mappings;
use bier::monitor::truncate_bitstring;
use bier::table::Addr;
use bier::text::{addr_string, u64_string};

fn sample_record() -> SerdeBierHdr {
    let mut bs = [0u8; 32];
    bs[0] = 0x80;
    bs[1] = 0x0A;
    SerdeBierHdr {
        bift_id: 74565,
        tc: 5,
        s: true,
        ttl: 64,
        nibble: 5,
        version: 0,
        bsl: 3,
        entropy: 703710,
        oam: 1,
        rsv: 2,
        dscp: 33,
        proto: 4,
        bfir_id: 48879,
        bitstring: bs,
    }
}

#[test]
fn decimal_rendering() {
    assert_eq!(u64_string(0), "0");
    assert_eq!(u64_string(7), "7");
    assert_eq!(u64_string(10), "10");
    assert_eq!(u64_string(12345), "12345");
    assert_eq!(u64_string(u64::MAX), "18446744073709551615");
}

#[test]
fn address_rendering() {
    assert_eq!(
        addr_string(Addr::V4(u32::from_be_bytes([203, 0, 113, 5]))),
        "203.0.113.5"
    );
    assert_eq!(addr_string(Addr::V4(0)), "0.0.0.0");
    assert_eq!(addr_string(Addr::V4(u32::MAX)), "255.255.255.255");
    assert_eq!(
        addr_string(Addr::V6(0x2001_0db8_0000_0000_0000_0000_0000_0001)),
        "2001:db8:0:0:0:0:0:1"
    );
    assert_eq!(addr_string(Addr::V6(0)), "0:0:0:0:0:0:0:0");
    assert_eq!(addr_string(Addr::V6(u128::MAX)), "ffff:ffff:ffff:ffff:ffff:ffff:ffff:ffff");
}

#[test]
fn header_field_lines() {
    let lines = sample_record().to_string_vec();
    assert_eq!(lines.len(), 14);
    assert_eq!(lines[0], "bift_id: 74565");
    assert_eq!(lines[1], "tc: 5");
    assert_eq!(lines[2], "s: true");
    assert_eq!(lines[3], "ttl: 64");
    assert_eq!(lines[4], "nibble: 5");
    assert_eq!(lines[5], "version: 0");
    assert_eq!(lines[6], "bsl: 3");
    assert_eq!(lines[7], "entropy: 703710");
    assert_eq!(lines[8], "oam: 1");
    assert_eq!(lines[9], "rsv: 2");
    assert_eq!(lines[10], "dscp: 33");
    assert_eq!(lines[11], "proto: 4");
    assert_eq!(lines[12], "bfir_id: 48879");
    assert!(lines[13].starts_with("bitstring: 80.a.0.0."));
}

#[test]
fn monitoring_rows() {
    let dst = u32::from_be_bytes([203, 0, 113, 5]);
    let mut mask = [0u8; 32];
    mask[0] = 0x80;
    let mut bad = sample_record();
    bad.dscp = 64;
    let cfg = BierConfig {
        local: mask,
        entries: vec![
            ConfigEntry { addr: Addr::V4(dst), hdr: sample_record() },
            ConfigEntry { addr: Addr::V4(dst + 1), hdr: bad },
        ],
    };
    let mut m = Mappings::new(cfg);

    // before synchronization the counter of a configured address shows the
    // all-ones sentinel
    let rows = m.get_data();
    assert_eq!(rows.len(), 2);
    assert_eq!(rows[0].ipmc_group, "local BFER");
    assert_eq!(rows[0].packet_count, 0);
    assert!(rows[0].bitstring.starts_with("80.0.0."));
    assert_eq!(rows[1].ipmc_group, "203.0.113.5");
    assert_eq!(rows[1].packet_count, u64::MAX);
    assert!(rows[1].bitstring.starts_with("80.a.0."));

    // after synchronization the loaded counter shows zero
    m.write_config().unwrap_err();
    let fixed = BierConfig {
        local: mask,
        entries: vec![ConfigEntry { addr: Addr::V4(dst), hdr: sample_record() }],
    };
    let mut m = Mappings::new(fixed);
    m.write_config().unwrap();
    let rows = m.get_data();
    assert_eq!(rows.len(), 2);
    assert_eq!(rows[1].packet_count, 0);
}

#[test]
fn header_fields_lookup() {
    let dst = u32::from_be_bytes([203, 0, 113, 5]);
    let cfg = BierConfig {
        local: [0u8; 32],
        entries: vec![ConfigEntry { addr: Addr::V4(dst), hdr: sample_record() }],
    };
    let m = Mappings::new(cfg);
    let lines = m.get_header_fields(Addr::V4(dst));
    assert_eq!(lines.len(), 14);
    assert_eq!(lines[0], "bift_id: 74565");
    assert!(m.get_header_fields(Addr::V4(dst + 1)).is_empty());
    assert!(m.get_header_fields(Addr::V6(1)).is_empty());
}

#[test]
fn bitstring_truncation() {
    assert_eq!(truncate_bitstring("80.0.0", 6), "80.0.0");
    assert_eq!(truncate_bitstring("80.0.0", 256), "80.0.0");
    assert_eq!(truncate_bitstring("80.0.0.0", 6), "80....");
    assert_eq!(truncate_bitstring("abcdef", 2), "...");
    assert_eq!(truncate_bitstring("", 0), "");
}
