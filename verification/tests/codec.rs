use bier::bier::{BierHdr, HdrField};

#[test]
fn test_bier_hdr_creation() {
    let hdr = BierHdr::new();
    assert_eq!(hdr.bift_id(), 0);
    assert_eq!(hdr.tc(), 0);
    assert_eq!(hdr.s(), false);
    assert_eq!(hdr.ttl(), 0);
}

#[test]
fn test_word0_fields() {
    let mut hdr = BierHdr::new();

    // BIFT-id (20 bits, max value = 2^20 - 1 = 1,048,575)
    hdr.set_bift_id(1048575).unwrap();
    assert_eq!(hdr.bift_id(), 1048575);

    // TC (3 bits, max value = 7)
    hdr.set_tc(7).unwrap();
    assert_eq!(hdr.tc(), 7);

    // S bit
    hdr.set_s(true);
    assert_eq!(hdr.s(), true);

    // TTL (8 bits, max value = 255)
    hdr.set_ttl(255);
    assert_eq!(hdr.ttl(), 255);
}

#[test]
fn test_word1_fields() {
    let mut hdr = BierHdr::new();

    // Nibble (4 bits, max value = 15)
    hdr.set_nibble(15).unwrap();
    assert_eq!(hdr.nibble(), 15);

    // Version (4 bits, max value = 15)
    hdr.set_version(15).unwrap();
    assert_eq!(hdr.version(), 15);

    // BSL (4 bits, max value = 15)
    hdr.set_bsl(15).unwrap();
    assert_eq!(hdr.bsl(), 15);

    // Entropy (20 bits, max value = 1,048,575)
    hdr.set_entropy(1048575).unwrap();
    assert_eq!(hdr.entropy(), 1048575);
}

#[test]
fn test_word2_fields() {
    let mut hdr = BierHdr::new();

    // OAM (2 bits, max value = 3)
    hdr.set_oam(3).unwrap();
    assert_eq!(hdr.oam(), 3);

    // Reserved (2 bits, max value = 3)
    hdr.set_rsv(3).unwrap();
    assert_eq!(hdr.rsv(), 3);

    // DSCP (6 bits, max value = 63)
    hdr.set_dscp(63).unwrap();
    assert_eq!(hdr.dscp(), 63);

    // Protocol (6 bits, max value = 63)
    hdr.set_proto(63).unwrap();
    assert_eq!(hdr.proto(), 63);

    // BFIR-id (16 bits, max value = 65,535)
    hdr.set_bfir_id(65535);
    assert_eq!(hdr.bfir_id(), 65535);
}

#[test]
fn test_bitstring_operations() {
    let mut hdr = BierHdr::new();

    let test_bitstring = [
        0x12, 0x34, 0x56, 0x78, 0x9A, 0xBC, 0xDE, 0xF0, 0x12, 0x34, 0x56, 0x78, 0x9A, 0xBC, 0xDE,
        0xF0, 0x12, 0x34, 0x56, 0x78, 0x9A, 0xBC, 0xDE, 0xF0, 0x12, 0x34, 0x56, 0x78, 0x9A, 0xBC,
        0xDE, 0xF0,
    ];
    hdr.set_bitstring(test_bitstring);
    assert_eq!(hdr.bitstring(), test_bitstring);

    hdr.set_bit(0, true);
    assert_eq!(hdr.get_bit(0), true);

    hdr.set_bit(0, false);
    assert_eq!(hdr.get_bit(0), false);

    hdr.set_bit(63, true);
    assert_eq!(hdr.get_bit(63), true);
}

fn sample_header() -> BierHdr {
    let mut hdr = BierHdr::new();
    hdr.set_bift_id(0x12345).unwrap();
    hdr.set_tc(5).unwrap();
    hdr.set_s(true);
    hdr.set_ttl(64);
    hdr.set_nibble(5).unwrap();
    hdr.set_version(0).unwrap();
    hdr.set_bsl(3).unwrap();
    hdr.set_entropy(0xABCDE).unwrap();
    hdr.set_oam(1).unwrap();
    hdr.set_rsv(2).unwrap();
    hdr.set_dscp(33).unwrap();
    hdr.set_proto(4).unwrap();
    hdr.set_bfir_id(0xBEEF);
    let mut bs = [0u8; 32];
    for (i, b) in bs.iter_mut().enumerate() {
        *b = i as u8;
    }
    hdr.set_bitstring(bs);
    hdr
}

#[test]
fn encode_exact_bytes() {
    let hdr = sample_header();
    let bytes = hdr.into_bytes();
    assert_eq!(bytes.len(), 44);
    // word 0: 0x12345 | 5 | 1 | 64
    assert_eq!(&bytes[0..4], &[0x12, 0x34, 0x5B, 0x40]);
    // word 1: 5 | 0 | 3 | 0xABCDE
    assert_eq!(&bytes[4..8], &[0x50, 0x3A, 0xBC, 0xDE]);
    // word 2: 1 | 2 | 33 | 4 | 0xBEEF
    assert_eq!(&bytes[8..12], &[0x68, 0x44, 0xBE, 0xEF]);
    // bitstring verbatim
    for i in 0..32 {
        assert_eq!(bytes[12 + i], i as u8);
    }
}

#[test]
fn decode_inverts_encode() {
    let hdr = sample_header();
    let bytes = hdr.into_bytes();
    let back = BierHdr::from_bytes(&bytes).unwrap();
    assert_eq!(back.bift_id(), 0x12345);
    assert_eq!(back.tc(), 5);
    assert_eq!(back.s(), true);
    assert_eq!(back.ttl(), 64);
    assert_eq!(back.nibble(), 5);
    assert_eq!(back.version(), 0);
    assert_eq!(back.bsl(), 3);
    assert_eq!(back.entropy(), 0xABCDE);
    assert_eq!(back.oam(), 1);
    assert_eq!(back.rsv(), 2);
    assert_eq!(back.dscp(), 33);
    assert_eq!(back.proto(), 4);
    assert_eq!(back.bfir_id(), 0xBEEF);
    assert_eq!(back.bitstring(), hdr.bitstring());
}

#[test]
fn decode_rejects_wrong_length() {
    assert!(BierHdr::from_bytes(&[0u8; 43]).is_none());
    assert!(BierHdr::from_bytes(&[0u8; 45]).is_none());
    assert!(BierHdr::from_bytes(&[]).is_none());
    assert!(BierHdr::from_bytes(&[0u8; 44]).is_some());
}

#[test]
fn setters_reject_overflow() {
    let mut hdr = sample_header();
    assert_eq!(hdr.set_bift_id(0x100000), Err(HdrField::BiftId));
    assert_eq!(hdr.set_tc(8), Err(HdrField::Tc));
    assert_eq!(hdr.set_nibble(16), Err(HdrField::Nibble));
    assert_eq!(hdr.set_version(16), Err(HdrField::Version));
    assert_eq!(hdr.set_bsl(16), Err(HdrField::Bsl));
    assert_eq!(hdr.set_entropy(0x100000), Err(HdrField::Entropy));
    assert_eq!(hdr.set_oam(4), Err(HdrField::Oam));
    assert_eq!(hdr.set_rsv(4), Err(HdrField::Rsv));
    assert_eq!(hdr.set_dscp(64), Err(HdrField::Dscp));
    assert_eq!(hdr.set_proto(64), Err(HdrField::Proto));
    // a failed setter leaves the header unmodified
    assert_eq!(hdr.bift_id(), 0x12345);
    assert_eq!(hdr.tc(), 5);
    assert_eq!(hdr.nibble(), 5);
    assert_eq!(hdr.version(), 0);
    assert_eq!(hdr.bsl(), 3);
    assert_eq!(hdr.entropy(), 0xABCDE);
    assert_eq!(hdr.oam(), 1);
    assert_eq!(hdr.rsv(), 2);
    assert_eq!(hdr.dscp(), 33);
    assert_eq!(hdr.proto(), 4);
    assert_eq!(hdr.into_bytes(), sample_header().into_bytes());
}

#[test]
fn setters_accept_limit_values() {
    let mut hdr = BierHdr::new();
    assert_eq!(hdr.set_bift_id(0xFFFFF), Ok(()));
    assert_eq!(hdr.set_tc(7), Ok(()));
    assert_eq!(hdr.set_nibble(15), Ok(()));
    assert_eq!(hdr.set_entropy(0xFFFFF), Ok(()));
    assert_eq!(hdr.set_oam(3), Ok(()));
    assert_eq!(hdr.set_dscp(63), Ok(()));
    assert_eq!(hdr.set_proto(63), Ok(()));
}

#[test]
fn bit_addressing_exact_position() {
    let mut hdr = BierHdr::new();
    // bit 0 is the most significant bit of byte 0
    hdr.set_bit(0, true);
    assert_eq!(hdr.bitstring()[0], 0x80);
    hdr.set_bit(0, false);
    // bit 9 is the second-most-significant bit of byte 1
    hdr.set_bit(9, true);
    assert_eq!(hdr.bitstring()[1], 0x40);
    assert!(hdr.get_bit(9));
    assert!(!hdr.get_bit(8));
    // setting one bit leaves every other bit alone
    hdr.set_bit(255, true);
    assert_eq!(hdr.bitstring()[31], 0x01);
    assert!(hdr.get_bit(9));
    hdr.set_bit(9, false);
    assert!(!hdr.get_bit(9));
    assert!(hdr.get_bit(255));
}

#[test]
fn bit_addressing_out_of_range_is_noop() {
    let mut hdr = BierHdr::new();
    hdr.set_bit(256, true);
    hdr.set_bit(10_000, true);
    assert_eq!(hdr.bitstring(), [0u8; 32]);
    assert_eq!(hdr.get_bit(256), false);
    assert_eq!(hdr.get_bit(usize::MAX), false);
}

#[test]
fn default_is_all_zero() {
    let hdr = BierHdr::default();
    assert_eq!(hdr.into_bytes(), [0u8; 44]);
}

#[test]
fn reverse_and_swap_helpers() {
    let mut buf = [0x80u8, 0x01, 0xF0, 0b1010_0000];
    bier::bier::reverse_bits_in_bytes(&mut buf);
    assert_eq!(buf, [0x01, 0x80, 0x0F, 0b0000_0101]);
    let mut buf = [0xABu8, 0x12, 0xF0];
    bier::bier::swap_4B_in_byte(&mut buf);
    assert_eq!(buf, [0xBA, 0x21, 0x0F]);
}
