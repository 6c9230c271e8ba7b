//! The BIER header wire format (RFC 8296): a 44-byte header made of three
//! 32-bit words followed by a 256-bit bitstring.
//!
//! Layout of the three words, most-significant bit first:
//!
//! ```text
//!  0                   1                   2                   3
//!  0 1 2 3 4 5 6 7 8 9 0 1 2 3 4 5 6 7 8 9 0 1 2 3 4 5 6 7 8 9 0 1
//! +-+-+-+-+-+-+-+-+-+-+-+-+-+-+-+-+-+-+-+-+-+-+-+-+-+-+-+-+-+-+-+-+
//! |              BIFT-id                  | TC  |S|     TTL       |
//! +-+-+-+-+-+-+-+-+-+-+-+-+-+-+-+-+-+-+-+-+-+-+-+-+-+-+-+-+-+-+-+-+
//! |Nibble |  Ver  |  BSL  |              Entropy                  |
//! +-+-+-+-+-+-+-+-+-+-+-+-+-+-+-+-+-+-+-+-+-+-+-+-+-+-+-+-+-+-+-+-+
//! |OAM|Rsv|    DSCP   |   Proto   |            BFIR-id            |
//! +-+-+-+-+-+-+-+-+-+-+-+-+-+-+-+-+-+-+-+-+-+-+-+-+-+-+-+-+-+-+-+-+
//! |                     BitString (32 bytes)                      |
//! +-+-+-+-+-+-+-+-+-+-+-+-+-+-+-+-+-+-+-+-+-+-+-+-+-+-+-+-+-+-+-+-+
//! ```
//!
//! Every field value must fit its declared bit width; the checked setters
//! reject out-of-range values instead of truncating. Bit index `i` of the
//! bitstring lives in byte `i / 8` at position `7 - i % 8` from the least
//! significant bit (network bit order: bit 0 is the most significant bit of
//! byte 0).

use vstd::prelude::*;

verus! {

/// The reserved two-byte protocol tag that marks a BIER-encapsulated frame,
/// as a big-endian value (bytes `0xAB`, `0x37` on the wire).
pub const BIER_ETHERTYPE: u16 = 0xAB37;

/// Size of the serialized header in bytes.
pub const BIER_HEADER_SIZE: usize = 44;

/// Size of the link-layer header that precedes the protocol tag.
pub const ETH_HEADER_SIZE: usize = 14;

/// The protocol tag of a plain IPv4 frame.
pub const IPV4_ETHERTYPE: u16 = 0x0800;

/// The protocol tag of a plain IPv6 frame.
pub const IPV6_ETHERTYPE: u16 = 0x86DD;

/// Size of the bitstring in bytes (256 bits).
pub const BITSTRING_BYTES: usize = 32;

/// Names the header field that a checked setter rejected a value for.
#[derive(Clone, Copy, Debug, PartialEq, Eq, Structural)]
pub enum HdrField {
    BiftId,
    Tc,
    Nibble,
    Version,
    Bsl,
    Entropy,
    Oam,
    Rsv,
    Dscp,
    Proto,
}

/// Mathematical model of a header: every field as a plain value, the
/// bitstring as a byte sequence.
#[verifier::ext_equal]
pub ghost struct HdrModel {
    pub bift_id: u32,
    pub tc: u8,
    pub s: bool,
    pub ttl: u8,
    pub nibble: u8,
    pub version: u8,
    pub bsl: u8,
    pub entropy: u32,
    pub oam: u8,
    pub rsv: u8,
    pub dscp: u8,
    pub proto: u8,
    pub bfir_id: u16,
    pub bitstring: Seq<u8>,
}

/// Every field fits its declared bit width and the bitstring is 32 bytes.
pub open spec fn hdr_valid(m: HdrModel) -> bool {
    &&& m.bift_id < 0x100000
    &&& m.tc < 8
    &&& m.nibble < 16
    &&& m.version < 16
    &&& m.bsl < 16
    &&& m.entropy < 0x100000
    &&& m.oam < 4
    &&& m.rsv < 4
    &&& m.dscp < 64
    &&& m.proto < 64
    &&& m.bitstring.len() == 32
}

/// The all-zero header model.
pub open spec fn zero_hdr() -> HdrModel {
    HdrModel {
        bift_id: 0,
        tc: 0,
        s: false,
        ttl: 0,
        nibble: 0,
        version: 0,
        bsl: 0,
        entropy: 0,
        oam: 0,
        rsv: 0,
        dscp: 0,
        proto: 0,
        bfir_id: 0,
        bitstring: Seq::new(32, |i: int| 0u8),
    }
}

/// First 32-bit word: BIFT-id (20 bits), TC (3), S (1), TTL (8).
#[derive(Clone, Copy, Debug, PartialEq, Eq, Structural)]
pub struct Word0 {
    pub bift_id: u32,
    pub tc: u8,
    pub s: bool,
    pub ttl: u8,
}

/// Second 32-bit word: Nibble (4 bits), Version (4), BSL (4), Entropy (20).
#[derive(Clone, Copy, Debug, PartialEq, Eq, Structural)]
pub struct Word1 {
    pub nibble: u8,
    pub version: u8,
    pub bsl: u8,
    pub entropy: u32,
}

/// Third 32-bit word: OAM (2 bits), Rsv (2), DSCP (6), Proto (6), BFIR-id (16).
#[derive(Clone, Copy, Debug, PartialEq, Eq, Structural)]
pub struct Word2 {
    pub oam: u8,
    pub rsv: u8,
    pub dscp: u8,
    pub proto: u8,
    pub bfir_id: u16,
}

/// A BIER header held as plain field values plus the 32-byte bitstring.
#[derive(Clone, Copy, Debug)]
pub struct BierHdr {
    pub word0: Word0,
    pub word1: Word1,
    pub word2: Word2,
    pub bitstring: [u8; 32],
}

impl View for BierHdr {
    type V = HdrModel;

    open spec fn view(&self) -> HdrModel {
        HdrModel {
            bift_id: self.word0.bift_id,
            tc: self.word0.tc,
            s: self.word0.s,
            ttl: self.word0.ttl,
            nibble: self.word1.nibble,
            version: self.word1.version,
            bsl: self.word1.bsl,
            entropy: self.word1.entropy,
            oam: self.word2.oam,
            rsv: self.word2.rsv,
            dscp: self.word2.dscp,
            proto: self.word2.proto,
            bfir_id: self.word2.bfir_id,
            bitstring: self.bitstring@,
        }
    }
}

impl BierHdr {
    /// Every field fits its bit width.
    pub open spec fn wf(self) -> bool {
        hdr_valid(self@)
    }

    /// Create a new all-zero header.
    pub fn new() -> (r: Self)
        ensures
            r@ == zero_hdr(),
            r.wf(),
    {
        let r = BierHdr {
            word0: Word0 { bift_id: 0, tc: 0, s: false, ttl: 0 },
            word1: Word1 { nibble: 0, version: 0, bsl: 0, entropy: 0 },
            word2: Word2 { oam: 0, rsv: 0, dscp: 0, proto: 0, bfir_id: 0 },
            bitstring: [0; 32],
        };
        proof {
            assert(r@.bitstring =~= zero_hdr().bitstring);
            assert(r@ =~= zero_hdr());
        }
        r
    }

    /// Get the BIFT-id field (20 bits).
    pub fn bift_id(&self) -> (r: u32)
        ensures
            r == self@.bift_id,
    {
        self.word0.bift_id
    }

    /// Set the BIFT-id field (20 bits); rejects values that do not fit.
    pub fn set_bift_id(&mut self, value: u32) -> (r: Result<(), HdrField>)
        ensures
            r is Ok <==> value < 0x100000,
            r is Ok ==> *final(self) == (BierHdr {
                word0: (Word0 { bift_id: value, ..old(self).word0 }),
                ..*old(self)
            }),
            r is Err ==> *final(self) == *old(self) && r == Err::<(), HdrField>(HdrField::BiftId),
    {
        if value < 0x100000 {
            self.word0.bift_id = value;
            Ok(())
        } else {
            Err(HdrField::BiftId)
        }
    }

    /// Get the TC (Traffic Class) field (3 bits).
    pub fn tc(&self) -> (r: u8)
        ensures
            r == self@.tc,
    {
        self.word0.tc
    }

    /// Set the TC (Traffic Class) field (3 bits); rejects values that do not fit.
    pub fn set_tc(&mut self, value: u8) -> (r: Result<(), HdrField>)
        ensures
            r is Ok <==> value < 8,
            r is Ok ==> *final(self) == (BierHdr {
                word0: (Word0 { tc: value, ..old(self).word0 }),
                ..*old(self)
            }),
            r is Err ==> *final(self) == *old(self) && r == Err::<(), HdrField>(HdrField::Tc),
    {
        if value < 8 {
            self.word0.tc = value;
            Ok(())
        } else {
            Err(HdrField::Tc)
        }
    }

    /// Get the S (Stack) bit.
    pub fn s(&self) -> (r: bool)
        ensures
            r == self@.s,
    {
        self.word0.s
    }

    /// Set the S (Stack) bit. A single bit cannot overflow.
    pub fn set_s(&mut self, value: bool)
        ensures
            *final(self) == (BierHdr {
                word0: (Word0 { s: value, ..old(self).word0 }),
                ..*old(self)
            }),
    {
        self.word0.s = value;
    }

    /// Get the TTL field (8 bits).
    pub fn ttl(&self) -> (r: u8)
        ensures
            r == self@.ttl,
    {
        self.word0.ttl
    }

    /// Set the TTL field (8 bits). Any byte value fits.
    pub fn set_ttl(&mut self, value: u8)
        ensures
            *final(self) == (BierHdr {
                word0: (Word0 { ttl: value, ..old(self).word0 }),
                ..*old(self)
            }),
    {
        self.word0.ttl = value;
    }

    /// Get the Nibble field (4 bits).
    pub fn nibble(&self) -> (r: u8)
        ensures
            r == self@.nibble,
    {
        self.word1.nibble
    }

    /// Set the Nibble field (4 bits); rejects values that do not fit.
    pub fn set_nibble(&mut self, value: u8) -> (r: Result<(), HdrField>)
        ensures
            r is Ok <==> value < 16,
            r is Ok ==> *final(self) == (BierHdr {
                word1: (Word1 { nibble: value, ..old(self).word1 }),
                ..*old(self)
            }),
            r is Err ==> *final(self) == *old(self) && r == Err::<(), HdrField>(HdrField::Nibble),
    {
        if value < 16 {
            self.word1.nibble = value;
            Ok(())
        } else {
            Err(HdrField::Nibble)
        }
    }

    /// Get the Version field (4 bits).
    pub fn version(&self) -> (r: u8)
        ensures
            r == self@.version,
    {
        self.word1.version
    }

    /// Set the Version field (4 bits); rejects values that do not fit.
    pub fn set_version(&mut self, value: u8) -> (r: Result<(), HdrField>)
        ensures
            r is Ok <==> value < 16,
            r is Ok ==> *final(self) == (BierHdr {
                word1: (Word1 { version: value, ..old(self).word1 }),
                ..*old(self)
            }),
            r is Err ==> *final(self) == *old(self) && r == Err::<(), HdrField>(HdrField::Version),
    {
        if value < 16 {
            self.word1.version = value;
            Ok(())
        } else {
            Err(HdrField::Version)
        }
    }

    /// Get the BSL (BitString Length) field (4 bits).
    pub fn bsl(&self) -> (r: u8)
        ensures
            r == self@.bsl,
    {
        self.word1.bsl
    }

    /// Set the BSL (BitString Length) field (4 bits); rejects values that do not fit.
    pub fn set_bsl(&mut self, value: u8) -> (r: Result<(), HdrField>)
        ensures
            r is Ok <==> value < 16,
            r is Ok ==> *final(self) == (BierHdr {
                word1: (Word1 { bsl: value, ..old(self).word1 }),
                ..*old(self)
            }),
            r is Err ==> *final(self) == *old(self) && r == Err::<(), HdrField>(HdrField::Bsl),
    {
        if value < 16 {
            self.word1.bsl = value;
            Ok(())
        } else {
            Err(HdrField::Bsl)
        }
    }

    /// Get the Entropy field (20 bits).
    pub fn entropy(&self) -> (r: u32)
        ensures
            r == self@.entropy,
    {
        self.word1.entropy
    }

    /// Set the Entropy field (20 bits); rejects values that do not fit.
    pub fn set_entropy(&mut self, value: u32) -> (r: Result<(), HdrField>)
        ensures
            r is Ok <==> value < 0x100000,
            r is Ok ==> *final(self) == (BierHdr {
                word1: (Word1 { entropy: value, ..old(self).word1 }),
                ..*old(self)
            }),
            r is Err ==> *final(self) == *old(self) && r == Err::<(), HdrField>(HdrField::Entropy),
    {
        if value < 0x100000 {
            self.word1.entropy = value;
            Ok(())
        } else {
            Err(HdrField::Entropy)
        }
    }

    /// Get the OAM field (2 bits).
    pub fn oam(&self) -> (r: u8)
        ensures
            r == self@.oam,
    {
        self.word2.oam
    }

    /// Set the OAM field (2 bits); rejects values that do not fit.
    pub fn set_oam(&mut self, value: u8) -> (r: Result<(), HdrField>)
        ensures
            r is Ok <==> value < 4,
            r is Ok ==> *final(self) == (BierHdr {
                word2: (Word2 { oam: value, ..old(self).word2 }),
                ..*old(self)
            }),
            r is Err ==> *final(self) == *old(self) && r == Err::<(), HdrField>(HdrField::Oam),
    {
        if value < 4 {
            self.word2.oam = value;
            Ok(())
        } else {
            Err(HdrField::Oam)
        }
    }

    /// Get the Reserved field (2 bits).
    pub fn rsv(&self) -> (r: u8)
        ensures
            r == self@.rsv,
    {
        self.word2.rsv
    }

    /// Set the Reserved field (2 bits); rejects values that do not fit.
    pub fn set_rsv(&mut self, value: u8) -> (r: Result<(), HdrField>)
        ensures
            r is Ok <==> value < 4,
            r is Ok ==> *final(self) == (BierHdr {
                word2: (Word2 { rsv: value, ..old(self).word2 }),
                ..*old(self)
            }),
            r is Err ==> *final(self) == *old(self) && r == Err::<(), HdrField>(HdrField::Rsv),
    {
        if value < 4 {
            self.word2.rsv = value;
            Ok(())
        } else {
            Err(HdrField::Rsv)
        }
    }

    /// Get the DSCP field (6 bits).
    pub fn dscp(&self) -> (r: u8)
        ensures
            r == self@.dscp,
    {
        self.word2.dscp
    }

    /// Set the DSCP field (6 bits); rejects values that do not fit.
    pub fn set_dscp(&mut self, value: u8) -> (r: Result<(), HdrField>)
        ensures
            r is Ok <==> value < 64,
            r is Ok ==> *final(self) == (BierHdr {
                word2: (Word2 { dscp: value, ..old(self).word2 }),
                ..*old(self)
            }),
            r is Err ==> *final(self) == *old(self) && r == Err::<(), HdrField>(HdrField::Dscp),
    {
        if value < 64 {
            self.word2.dscp = value;
            Ok(())
        } else {
            Err(HdrField::Dscp)
        }
    }

    /// Get the Protocol field (6 bits).
    pub fn proto(&self) -> (r: u8)
        ensures
            r == self@.proto,
    {
        self.word2.proto
    }

    /// Set the Protocol field (6 bits); rejects values that do not fit.
    pub fn set_proto(&mut self, value: u8) -> (r: Result<(), HdrField>)
        ensures
            r is Ok <==> value < 64,
            r is Ok ==> *final(self) == (BierHdr {
                word2: (Word2 { proto: value, ..old(self).word2 }),
                ..*old(self)
            }),
            r is Err ==> *final(self) == *old(self) && r == Err::<(), HdrField>(HdrField::Proto),
    {
        if value < 64 {
            self.word2.proto = value;
            Ok(())
        } else {
            Err(HdrField::Proto)
        }
    }

    /// Get the BFIR-id field (16 bits).
    pub fn bfir_id(&self) -> (r: u16)
        ensures
            r == self@.bfir_id,
    {
        self.word2.bfir_id
    }

    /// Set the BFIR-id field (16 bits). Any 16-bit value fits.
    pub fn set_bfir_id(&mut self, value: u16)
        ensures
            *final(self) == (BierHdr {
                word2: (Word2 { bfir_id: value, ..old(self).word2 }),
                ..*old(self)
            }),
    {
        self.word2.bfir_id = value;
    }

    /// Get the bitstring as a byte array.
    pub fn bitstring(&self) -> (r: [u8; 32])
        ensures
            r@ == self@.bitstring,
    {
        self.bitstring
    }

    /// Set the bitstring from a byte array. Exactly 32 bytes always fit.
    pub fn set_bitstring(&mut self, value: [u8; 32])
        ensures
            *final(self) == (BierHdr { bitstring: value, ..*old(self) }),
    {
        self.bitstring = value;
    }

    /// Read bit `bit_index` of the bitstring; an index past the bitstring
    /// reads as `false` rather than failing.
    pub fn get_bit(&self, bit_index: usize) -> (r: bool)
        ensures
            r == spec_get_bit(self@.bitstring, bit_index as int),
    {
        if bit_index >= 256 {
            return false;
        }
        let byte: u8 = self.bitstring[bit_index / 8];
        let off: usize = 7 - bit_index % 8;
        ((byte >> (off as u8)) & 1) == 1
    }

    /// Write bit `bit_index` of the bitstring; an index past the bitstring is
    /// a no-op rather than a failure.
    pub fn set_bit(&mut self, bit_index: usize, value: bool)
        ensures
            final(self).word0 == old(self).word0,
            final(self).word1 == old(self).word1,
            final(self).word2 == old(self).word2,
            final(self)@.bitstring == spec_set_bit(old(self)@.bitstring, bit_index as int, value),
    {
        if bit_index >= 256 {
            return;
        }
        let byte_index: usize = bit_index / 8;
        let off: usize = 7 - bit_index % 8;
        let mask: u8 = 1u8 << (off as u8);
        let b: u8 = self.bitstring[byte_index];
        if value {
            self.bitstring[byte_index] = b | mask;
        } else {
            self.bitstring[byte_index] = b & !mask;
        }
    }
}

impl Default for BierHdr {
    /// The default header is the all-zero header.
    fn default() -> (r: Self)
        ensures
            r@ == zero_hdr(),
    {
        Self::new()
    }
}

/// Value of bit `i` of a bitstring in network bit order: bit `i` lives in
/// byte `i / 8` at position `7 - i % 8` from the least significant bit. An
/// index outside `[0, 256)` reads as `false`.
pub open spec fn spec_get_bit(bs: Seq<u8>, i: int) -> bool {
    if 0 <= i < 256 {
        ((bs[i / 8] >> ((7 - i % 8) as u8)) & 1) == 1
    } else {
        false
    }
}

/// The bitstring with bit `i` set to `v`, in network bit order; unchanged for
/// an index outside `[0, 256)`.
pub open spec fn spec_set_bit(bs: Seq<u8>, i: int, v: bool) -> Seq<u8> {
    if 0 <= i < 256 {
        let mask = 1u8 << ((7 - i % 8) as u8);
        bs.update(i / 8, if v { bs[i / 8] | mask } else { bs[i / 8] & !mask })
    } else {
        bs
    }
}

/// The protocol tag of a frame, read big-endian from the two bytes that
/// follow the link-layer addresses.
pub open spec fn spec_ethertype(f: Seq<u8>) -> u16
    recommends
        f.len() >= 14,
{
    (((f[12] as u16) << 8) | (f[13] as u16)) as u16
}

/// The canonical 44-byte serialized form of a header: bytes 0-3 pack
/// `bift_id|tc|s|ttl`, bytes 4-7 pack `nibble|version|bsl|entropy`, bytes
/// 8-11 pack `oam|rsv|dscp|proto|bfir_id`, each word big-endian with the
/// most significant bit first, and bytes 12-43 carry the bitstring verbatim.
pub open spec fn spec_encode(m: HdrModel) -> Seq<u8> {
    seq![
        (m.bift_id >> 12) as u8,
        (m.bift_id >> 4) as u8,
        ((((m.bift_id as u8) & 0xF) << 4) | (m.tc << 1) | (if m.s {
            1u8
        } else {
            0u8
        })),
        m.ttl,
        ((m.nibble << 4) | m.version),
        ((m.bsl << 4) | (((m.entropy >> 16) as u8) & 0xF)),
        (m.entropy >> 8) as u8,
        m.entropy as u8,
        ((m.oam << 6) | (m.rsv << 4) | (m.dscp >> 2)),
        (((m.dscp & 0x3) << 6) | m.proto),
        (m.bfir_id >> 8) as u8,
        m.bfir_id as u8,
    ] + m.bitstring
}

/// The header described by a 44-byte serialized form: the exact inverse of
/// `spec_encode` on every header whose fields fit their widths.
pub open spec fn spec_decode(b: Seq<u8>) -> HdrModel {
    HdrModel {
        bift_id: (((b[0] as u32) << 12) | ((b[1] as u32) << 4) | ((b[2] as u32) >> 4)),
        tc: ((b[2] >> 1) & 0x7),
        s: (b[2] & 1) == 1,
        ttl: b[3],
        nibble: (b[4] >> 4),
        version: (b[4] & 0xF),
        bsl: (b[5] >> 4),
        entropy: ((((b[5] & 0xF) as u32) << 16) | ((b[6] as u32) << 8) | (b[7] as u32)),
        oam: (b[8] >> 6),
        rsv: ((b[8] >> 4) & 0x3),
        dscp: (((b[8] & 0xF) << 2) | (b[9] >> 6)),
        proto: (b[9] & 0x3F),
        bfir_id: (((b[10] as u16) << 8) | (b[11] as u16)),
        bitstring: b.subrange(12, 44),
    }
}

impl BierHdr {
    /// Serialize the header into its canonical 44-byte form.
    pub fn into_bytes(&self) -> (r: [u8; 44])
        ensures
            r@ == spec_encode(self@),
    {
        let w0 = self.word0;
        let w1 = self.word1;
        let w2 = self.word2;
        let mut buf: [u8; 44] = [0; 44];
        buf[0] = (w0.bift_id >> 12) as u8;
        buf[1] = (w0.bift_id >> 4) as u8;
        buf[2] = (((w0.bift_id as u8) & 0xF) << 4) | (w0.tc << 1) | (if w0.s {
            1
        } else {
            0
        });
        buf[3] = w0.ttl;
        buf[4] = (w1.nibble << 4) | w1.version;
        buf[5] = (w1.bsl << 4) | (((w1.entropy >> 16) as u8) & 0xF);
        buf[6] = (w1.entropy >> 8) as u8;
        buf[7] = w1.entropy as u8;
        buf[8] = (w2.oam << 6) | (w2.rsv << 4) | (w2.dscp >> 2);
        buf[9] = ((w2.dscp & 0x3) << 6) | w2.proto;
        buf[10] = (w2.bfir_id >> 8) as u8;
        buf[11] = w2.bfir_id as u8;
        let ghost enc = spec_encode(self@);
        let mut i: usize = 0;
        while i < 32
            invariant
                i <= 32,
                buf@.len() == 44,
                forall|k: int| 0 <= k < 12 ==> buf@[k] == enc[k],
                forall|k: int| 0 <= k < i ==> buf@[12 + k] == self.bitstring@[k],
            decreases 32 - i,
        {
            buf[12 + i] = self.bitstring[i];
            i += 1;
        }
        proof {
            assert(buf@ =~= enc);
        }
        buf
    }

    /// Deserialize a header from its canonical 44-byte form; any other
    /// length is rejected. Every field read out of 44 bytes fits its width,
    /// so the result is always well formed.
    pub fn from_bytes(bytes: &[u8]) -> (r: Option<BierHdr>)
        ensures
            r is Some <==> bytes@.len() == 44,
            r matches Some(h) ==> h@ == spec_decode(bytes@) && h.wf(),
    {
        if bytes.len() != 44 {
            return None;
        }
        let b0 = bytes[0];
        let b1 = bytes[1];
        let b2 = bytes[2];
        let b4 = bytes[4];
        let b5 = bytes[5];
        let b6 = bytes[6];
        let b7 = bytes[7];
        let b8 = bytes[8];
        let b9 = bytes[9];
        let mut bs: [u8; 32] = [0; 32];
        let mut i: usize = 0;
        while i < 32
            invariant
                i <= 32,
                bytes@.len() == 44,
                forall|k: int| 0 <= k < i ==> bs@[k] == bytes@[12 + k],
            decreases 32 - i,
        {
            bs[i] = bytes[12 + i];
            i += 1;
        }
        let h = BierHdr {
            word0: Word0 {
                bift_id: ((b0 as u32) << 12) | ((b1 as u32) << 4) | ((b2 as u32) >> 4),
                tc: (b2 >> 1) & 0x7,
                s: (b2 & 1) == 1,
                ttl: bytes[3],
            },
            word1: Word1 {
                nibble: b4 >> 4,
                version: b4 & 0xF,
                bsl: b5 >> 4,
                entropy: (((b5 & 0xF) as u32) << 16) | ((b6 as u32) << 8) | (b7 as u32),
            },
            word2: Word2 {
                oam: b8 >> 6,
                rsv: (b8 >> 4) & 0x3,
                dscp: ((b8 & 0xF) << 2) | (b9 >> 6),
                proto: b9 & 0x3F,
                bfir_id: ((bytes[10] as u16) << 8) | (bytes[11] as u16),
            },
            bitstring: bs,
        };
        proof {
            assert(h@.bitstring =~= spec_decode(bytes@).bitstring);
            assert(h@ =~= spec_decode(bytes@));
            assert((((b0 as u32) << 12) | ((b1 as u32) << 4) | ((b2 as u32) >> 4)) < 0x100000
                && ((b2 >> 1) & 0x7) < 8 && (b4 >> 4) < 16 && (b4 & 0xF) < 16 && (b5 >> 4) < 16
                && ((((b5 & 0xF) as u32) << 16) | ((b6 as u32) << 8) | (b7 as u32)) < 0x100000 && (
            b8 >> 6) < 4 && ((b8 >> 4) & 0x3) < 4 && (((b8 & 0xF) << 2) | (b9 >> 6)) < 64 && (b9
                & 0x3F) < 64) by (bit_vector);
        }
        Some(h)
    }
}

/// Round trip: decoding the canonical serialized form of any well-formed
/// header reproduces that header exactly.
pub proof fn lemma_round_trip(m: HdrModel)
    requires
        hdr_valid(m),
    ensures
        spec_decode(spec_encode(m)) == m,
{
    let b = spec_encode(m);
    let bift: u32 = m.bift_id;
    let tc: u8 = m.tc;
    let nib: u8 = m.nibble;
    let ver: u8 = m.version;
    let bsl: u8 = m.bsl;
    let ent: u32 = m.entropy;
    let oam: u8 = m.oam;
    let rsv: u8 = m.rsv;
    let dscp: u8 = m.dscp;
    let proto: u8 = m.proto;
    let bfir: u16 = m.bfir_id;
    let sbit: u8 = if m.s {
        1
    } else {
        0
    };
    let b2: u8 = (((bift as u8) & 0xF) << 4) | (tc << 1) | sbit;
    let b5: u8 = (bsl << 4) | (((ent >> 16) as u8) & 0xF);
    let b8: u8 = (oam << 6) | (rsv << 4) | (dscp >> 2);
    let b9: u8 = ((dscp & 0x3) << 6) | proto;
    assert((((((bift >> 12) as u8) as u32) << 12) | ((((bift >> 4) as u8) as u32) << 4) | ((
    b2 as u32) >> 4)) == bift && ((b2 >> 1) & 0x7) == tc && (b2 & 1) == sbit) by (bit_vector)
        requires
            b2 == (((bift as u8) & 0xF) << 4) | (tc << 1) | sbit,
            bift < 0x100000,
            tc < 8,
            sbit < 2,
    ;
    assert((((nib << 4) | ver) >> 4) == nib && (((nib << 4) | ver) & 0xF) == ver) by (bit_vector)
        requires
            nib < 16,
            ver < 16,
    ;
    assert((b5 >> 4) == bsl && ((((b5 & 0xF) as u32) << 16) | ((((ent >> 8) as u8) as u32) << 8)
        | ((ent as u8) as u32)) == ent) by (bit_vector)
        requires
            b5 == (bsl << 4) | (((ent >> 16) as u8) & 0xF),
            bsl < 16,
            ent < 0x100000,
    ;
    assert((b8 >> 6) == oam && ((b8 >> 4) & 0x3) == rsv && (((b8 & 0xF) << 2) | (b9 >> 6)) == dscp
        && (b9 & 0x3F) == proto) by (bit_vector)
        requires
            b8 == (oam << 6) | (rsv << 4) | (dscp >> 2),
            b9 == ((dscp & 0x3) << 6) | proto,
            oam < 4,
            rsv < 4,
            dscp < 64,
            proto < 64,
    ;
    assert(((((bfir >> 8) as u8) as u16) << 8) | ((bfir as u8) as u16) == bfir) by (bit_vector);
    assert(b.subrange(12, 44) =~= m.bitstring);
    assert(spec_decode(b) =~= m);
}

/// Bit addressing: writing bit `i` makes exactly that bit read back as the
/// written value and leaves every other bit as it was; an out-of-range index
/// changes nothing.
pub proof fn lemma_bit_addressing(bs: Seq<u8>, i: int, v: bool)
    requires
        bs.len() == 32,
    ensures
        0 <= i < 256 ==> spec_get_bit(spec_set_bit(bs, i, v), i) == v,
        forall|j: int|
            0 <= j < 256 && j != i ==> spec_get_bit(spec_set_bit(bs, i, v), j) == spec_get_bit(
                bs,
                j,
            ),
        !(0 <= i < 256) ==> spec_set_bit(bs, i, v) == bs,
{
    if 0 <= i < 256 {
        let off = (7 - i % 8) as u8;
        let b = bs[i / 8];
        assert(((b | (1u8 << off)) >> off) & 1 == 1 && ((b & !(1u8 << off)) >> off) & 1 == 0)
            by (bit_vector)
            requires
                off < 8,
        ;
        assert forall|j: int| 0 <= j < 256 && j != i implies spec_get_bit(
            spec_set_bit(bs, i, v),
            j,
        ) == spec_get_bit(bs, j) by {
            if j / 8 == i / 8 {
                assert(j % 8 != i % 8) by (nonlinear_arith)
                    requires
                        j / 8 == i / 8,
                        j != i,
                        0 <= j < 256,
                        0 <= i < 256,
                ;
                let oj = (7 - j % 8) as u8;
                assert(((b | (1u8 << off)) >> oj) & 1 == (b >> oj) & 1 && ((b & !(1u8 << off))
                    >> oj) & 1 == (b >> oj) & 1) by (bit_vector)
                    requires
                        off < 8,
                        oj < 8,
                        off != oj,
                ;
            }
        }
    }
}

/// A byte with its bit order reversed: bit `k` of the result is bit `7 - k`
/// of the input.
pub open spec fn spec_rev8(b: u8) -> u8 {
    ((b & 0x80) >> 7) | ((b & 0x40) >> 5) | ((b & 0x20) >> 3) | ((b & 0x10) >> 1) | ((b & 0x08)
        << 1) | ((b & 0x04) << 3) | ((b & 0x02) << 5) | ((b & 0x01) << 7)
}

/// `spec_rev8` swaps bit positions end to end.
pub proof fn lemma_rev8(b: u8, k: u8)
    by (bit_vector)
    requires
        k < 8,
    ensures
        (spec_rev8(b) >> k) & 1 == (b >> ((7 - k) as u8)) & 1,
{
}

/// A byte with its two 4-bit halves swapped.
pub open spec fn spec_nibble_swap(b: u8) -> u8 {
    (b >> 4) | (b << 4)
}

/// Reverse the bit order inside every byte of a buffer.
pub fn reverse_bits_in_bytes(buf: &mut [u8])
    ensures
        final(buf)@.len() == old(buf)@.len(),
        forall|k: int| 0 <= k < old(buf)@.len() ==> final(buf)@[k] == spec_rev8(old(buf)@[k]),
{
    let n: usize = buf.len();
    let mut i: usize = 0;
    while i < n
        invariant
            i <= n,
            buf@.len() == n,
            old(buf)@.len() == n,
            forall|k: int| 0 <= k < i ==> buf@[k] == spec_rev8(old(buf)@[k]),
            forall|k: int| i <= k < n ==> buf@[k] == old(buf)@[k],
        decreases n - i,
    {
        let b: u8 = buf[i];
        buf[i] = ((b & 0x80) >> 7) | ((b & 0x40) >> 5) | ((b & 0x20) >> 3) | ((b & 0x10) >> 1) | ((b
            & 0x08) << 1) | ((b & 0x04) << 3) | ((b & 0x02) << 5) | ((b & 0x01) << 7);
        i += 1;
    }
}

/// Swap the two 4-bit halves of every byte of a buffer.
#[allow(non_snake_case)]
pub fn swap_4B_in_byte(buf: &mut [u8])
    ensures
        final(buf)@.len() == old(buf)@.len(),
        forall|k: int| 0 <= k < old(buf)@.len() ==> final(buf)@[k] == spec_nibble_swap(old(buf)@[k]),
{
    let n: usize = buf.len();
    let mut i: usize = 0;
    while i < n
        invariant
            i <= n,
            buf@.len() == n,
            old(buf)@.len() == n,
            forall|k: int| 0 <= k < i ==> buf@[k] == spec_nibble_swap(old(buf)@[k]),
            forall|k: int| i <= k < n ==> buf@[k] == old(buf)@[k],
        decreases n - i,
    {
        let b: u8 = buf[i];
        buf[i] = (b >> 4) | (b << 4);
        i += 1;
    }
}

} // verus!
