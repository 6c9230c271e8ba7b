use bier::bier::BierHdr;
use bier::config::{BierConfig, ConfigEntry, SerdeBierHdr};
use bier::egress::{process_egress, EgressOutcome};
use bier::ingress::{process_ingress, IngressOutcome, LocalMembership};
use bier::mapping::Mappings;
use bier::table::{Addr, FwdTable};

fn sample_header() -> BierHdr {
    let mut hdr = BierHdr::new();
    hdr.set_bift_id(7).unwrap();
    hdr.set_ttl(32);
    hdr.set_proto(4).unwrap();
    let mut bs = [0u8; 32];
    bs[0] = 0x80;
    hdr.set_bitstring(bs);
    hdr
}

fn sample_record() -> SerdeBierHdr {
    let mut bs = [0u8; 32];
    bs[0] = 0x80;
    SerdeBierHdr {
        bift_id: 7,
        tc: 0,
        s: false,
        ttl: 32,
        nibble: 0,
        version: 0,
        bsl: 0,
        entropy: 0,
        oam: 0,
        rsv: 0,
        dscp: 0,
        proto: 4,
        bfir_id: 0,
        bitstring: bs,
    }
}

/// An Ethernet frame with an IPv4 payload whose destination is `dst`.
fn v4_frame(dst: [u8; 4]) -> Vec<u8> {
    let mut f = vec![0u8; 34];
    for (i, b) in f.iter_mut().enumerate().take(12) {
        *b = i as u8 + 1;
    }
    f[12] = 0x08;
    f[13] = 0x00;
    f[30..34].copy_from_slice(&dst);
    f.push(0xDE);
    f.push(0xAD);
    f
}

const DST: u32 = u32::from_be_bytes([203, 0, 113, 5]);

#[test]
fn table_upsert_lookup_increment() {
    let mut t = FwdTable::new();
    assert_eq!(t.len(), 0);
    assert!(!t.contains(Addr::V4(DST)));
    assert!(t.get(Addr::V4(DST)).is_none());
    assert!(!t.increment(Addr::V4(DST)));

    let enc = sample_header().into_bytes();
    t.upsert(Addr::V4(DST), enc);
    assert_eq!(t.len(), 1);
    let rec = t.get(Addr::V4(DST)).unwrap();
    assert_eq!(rec.hdr, enc);
    assert_eq!(rec.counter, 0);

    assert!(t.increment(Addr::V4(DST)));
    assert!(t.increment(Addr::V4(DST)));
    assert_eq!(t.get(Addr::V4(DST)).unwrap().counter, 2);

    // a later upsert overwrites and resets the counter
    t.upsert(Addr::V4(DST), enc);
    assert_eq!(t.len(), 1);
    assert_eq!(t.get(Addr::V4(DST)).unwrap().counter, 0);

    let snap = t.snapshot();
    assert_eq!(snap.len(), 1);
    assert_eq!(snap[0].addr, Addr::V4(DST));
}

#[test]
fn egress_hit_prepends_header() {
    let mut t4 = FwdTable::new();
    let mut t6 = FwdTable::new();
    let enc = sample_header().into_bytes();
    t4.upsert(Addr::V4(DST), enc);

    let original = v4_frame([203, 0, 113, 5]);
    let mut frame = original.clone();
    let outcome = process_egress(&mut frame, &mut t4, &mut t6);
    assert_eq!(outcome, EgressOutcome::Encapsulated);

    // the frame gained exactly 44 bytes
    assert_eq!(frame.len(), original.len() + 44);
    // link-layer addresses kept, protocol tag now the BIER tag
    assert_eq!(&frame[0..12], &original[0..12]);
    assert_eq!(&frame[12..14], &[0xAB, 0x37]);
    // the encoded header sits right after the link-layer header
    assert_eq!(&frame[14..58], &enc[..]);
    // the rest of the frame is byte-identical
    assert_eq!(&frame[58..], &original[14..]);
    // the hit was counted
    assert_eq!(t4.get(Addr::V4(DST)).unwrap().counter, 1);
}

#[test]
fn egress_miss_passes_frame_unchanged() {
    let mut t4 = FwdTable::new();
    let mut t6 = FwdTable::new();
    t4.upsert(Addr::V4(DST), sample_header().into_bytes());

    let original = v4_frame([203, 0, 113, 6]);
    let mut frame = original.clone();
    let outcome = process_egress(&mut frame, &mut t4, &mut t6);
    assert_eq!(outcome, EgressOutcome::PassedNoMapping);
    assert_eq!(frame, original);
    assert_eq!(t4.get(Addr::V4(DST)).unwrap().counter, 0);
}

#[test]
fn egress_ignores_foreign_and_short_frames() {
    let mut t4 = FwdTable::new();
    let mut t6 = FwdTable::new();

    // ARP tag: not IP at all
    let mut arp = v4_frame([203, 0, 113, 5]);
    arp[12] = 0x08;
    arp[13] = 0x06;
    let copy = arp.clone();
    assert_eq!(process_egress(&mut arp, &mut t4, &mut t6), EgressOutcome::PassedNonIp);
    assert_eq!(arp, copy);

    // too short for a link-layer header
    let mut tiny = vec![1u8, 2, 3];
    assert_eq!(process_egress(&mut tiny, &mut t4, &mut t6), EgressOutcome::PassedBuffer);
    assert_eq!(tiny, vec![1u8, 2, 3]);

    // an IPv4 tag but no room for the IPv4 header
    let mut cut = vec![0u8; 20];
    cut[12] = 0x08;
    cut[13] = 0x00;
    let copy = cut.clone();
    assert_eq!(process_egress(&mut cut, &mut t4, &mut t6), EgressOutcome::PassedBuffer);
    assert_eq!(cut, copy);
}

#[test]
fn egress_v6_hit() {
    let mut t4 = FwdTable::new();
    let mut t6 = FwdTable::new();
    let dst6: u128 = 0xFF02_0000_0000_0000_0000_0000_0000_0001;
    let enc = sample_header().into_bytes();
    t6.upsert(Addr::V6(dst6), enc);

    let mut frame = vec![0u8; 54];
    frame[12] = 0x86;
    frame[13] = 0xDD;
    frame[38..54].copy_from_slice(&dst6.to_be_bytes());
    let original = frame.clone();
    assert_eq!(process_egress(&mut frame, &mut t4, &mut t6), EgressOutcome::Encapsulated);
    assert_eq!(frame.len(), original.len() + 44);
    assert_eq!(&frame[12..14], &[0xAB, 0x37]);
    assert_eq!(&frame[14..58], &enc[..]);
    assert_eq!(t6.get(Addr::V6(dst6)).unwrap().counter, 1);
}

#[test]
fn egress_counts_each_packet_exactly_once() {
    let mut t4 = FwdTable::new();
    let mut t6 = FwdTable::new();
    t4.upsert(Addr::V4(DST), sample_header().into_bytes());

    let original = v4_frame([203, 0, 113, 5]);
    let n = 1000;
    for _ in 0..n {
        let mut frame = original.clone();
        assert_eq!(
            process_egress(&mut frame, &mut t4, &mut t6),
            EgressOutcome::Encapsulated
        );
    }
    assert_eq!(t4.get(Addr::V4(DST)).unwrap().counter, n);
}

/// A BIER-tagged frame whose bitstring and Proto field are as given.
fn bier_frame(bitstring: [u8; 32], proto: u8) -> Vec<u8> {
    let mut f = vec![0u8; 58];
    for (i, b) in f.iter_mut().enumerate().take(12) {
        *b = i as u8 + 1;
    }
    f[12] = 0xAB;
    f[13] = 0x37;
    f[23] = proto & 0x3F;
    f[26..58].copy_from_slice(&bitstring);
    f.push(0xBE);
    f.push(0xEF);
    f
}

#[test]
fn ingress_match_strips_header() {
    let mut mask = [0u8; 32];
    mask[0] = 0x80;
    let local = LocalMembership::new(mask);
    let mut drops: u64 = 0;

    let mut bs = [0u8; 32];
    bs[0] = 0x80;
    let original = bier_frame(bs, 4);
    let mut frame = original.clone();
    let outcome = process_ingress(&mut frame, &local, &mut drops);
    assert_eq!(outcome, IngressOutcome::Decapsulated);
    assert_eq!(drops, 0);
    // the 44-byte header is gone and the IPv4 tag is restored
    assert_eq!(frame.len(), original.len() - 44);
    assert_eq!(&frame[0..12], &original[0..12]);
    assert_eq!(&frame[12..14], &[0x08, 0x00]);
    assert_eq!(&frame[14..], &original[58..]);
}

#[test]
fn ingress_no_match_drops() {
    let mut mask = [0u8; 32];
    mask[0] = 0x80;
    let local = LocalMembership::new(mask);
    let mut drops: u64 = 0;

    let original = bier_frame([0u8; 32], 4);
    let mut frame = original.clone();
    let outcome = process_ingress(&mut frame, &local, &mut drops);
    assert_eq!(outcome, IngressOutcome::DroppedNoMatch);
    assert_eq!(drops, 1);
    assert_eq!(frame, original);
}

#[test]
fn ingress_match_on_later_byte() {
    let mut mask = [0u8; 32];
    mask[31] = 0x01;
    let local = LocalMembership::new(mask);
    let mut drops: u64 = 0;

    let mut bs = [0u8; 32];
    bs[31] = 0xFF;
    let mut frame = bier_frame(bs, 4);
    assert_eq!(
        process_ingress(&mut frame, &local, &mut drops),
        IngressOutcome::Decapsulated
    );
    assert_eq!(drops, 0);
}

#[test]
fn ingress_passes_foreign_frames() {
    let local = LocalMembership::new([0xFFu8; 32]);
    let mut drops: u64 = 0;
    let original = v4_frame([10, 0, 0, 1]);
    let mut frame = original.clone();
    assert_eq!(
        process_ingress(&mut frame, &local, &mut drops),
        IngressOutcome::Passed
    );
    assert_eq!(frame, original);
    assert_eq!(drops, 0);
}

#[test]
fn ingress_drops_short_frames() {
    let local = LocalMembership::new([0xFFu8; 32]);
    let mut drops: u64 = 0;

    let mut tiny = vec![0u8; 5];
    assert_eq!(
        process_ingress(&mut tiny, &local, &mut drops),
        IngressOutcome::DroppedBuffer
    );
    assert_eq!(drops, 1);

    // tagged as BIER but too short to hold the header
    let mut cut = vec![0u8; 40];
    cut[12] = 0xAB;
    cut[13] = 0x37;
    let copy = cut.clone();
    assert_eq!(
        process_ingress(&mut cut, &local, &mut drops),
        IngressOutcome::DroppedBuffer
    );
    assert_eq!(drops, 2);
    assert_eq!(cut, copy);
}

#[test]
fn ingress_restores_v6_tag_from_proto() {
    let local = LocalMembership::new([0xFFu8; 32]);
    let mut drops: u64 = 0;
    let mut frame = bier_frame([0x01u8; 32], 6);
    assert_eq!(
        process_ingress(&mut frame, &local, &mut drops),
        IngressOutcome::Decapsulated
    );
    assert_eq!(&frame[12..14], &[0x86, 0xDD]);
}

#[test]
fn write_config_loads_both_tables() {
    let mut mask = [0u8; 32];
    mask[0] = 0x80;
    let dst6: u128 = 0xFF02_0000_0000_0000_0000_0000_0000_0001;
    let cfg = BierConfig {
        local: mask,
        entries: vec![
            ConfigEntry { addr: Addr::V4(DST), hdr: sample_record() },
            ConfigEntry { addr: Addr::V6(dst6), hdr: sample_record() },
        ],
    };
    let mut m = Mappings::new(cfg);
    assert_eq!(m.get_local(), mask);
    m.write_config().unwrap();

    let (t4, t6) = m.tables();
    let rec4 = t4.get(Addr::V4(DST)).unwrap();
    assert_eq!(rec4.hdr, sample_header().into_bytes());
    assert_eq!(rec4.counter, 0);
    let rec6 = t6.get(Addr::V6(dst6)).unwrap();
    assert_eq!(rec6.hdr, sample_header().into_bytes());
}

#[test]
fn write_config_rejects_overflow_field() {
    let mut bad = sample_record();
    bad.tc = 8;
    let cfg = BierConfig {
        local: [0u8; 32],
        entries: vec![
            ConfigEntry { addr: Addr::V4(DST), hdr: sample_record() },
            ConfigEntry { addr: Addr::V4(DST + 1), hdr: bad },
        ],
    };
    let mut m = Mappings::new(cfg);
    let err = m.write_config().unwrap_err();
    assert_eq!(err.addr, Addr::V4(DST + 1));
    assert_eq!(err.field, bier::bier::HdrField::Tc);
    // the load aborted before touching either table
    let (t4, t6) = m.tables();
    assert_eq!(t4.len(), 0);
    assert_eq!(t6.len(), 0);
}

#[test]
fn reload_is_idempotent() {
    let cfg = BierConfig {
        local: [0u8; 32],
        entries: vec![
            ConfigEntry { addr: Addr::V4(DST), hdr: sample_record() },
            ConfigEntry { addr: Addr::V4(DST + 7), hdr: sample_record() },
        ],
    };
    let mut m = Mappings::new(cfg);
    m.write_config().unwrap();
    let first = {
        let (t4, _) = m.tables();
        t4.snapshot()
    };
    // the second load succeeds and leaves the table identical
    m.write_config().unwrap();
    let second = {
        let (t4, _) = m.tables();
        t4.snapshot()
    };
    assert_eq!(first, second);
}
