//! The static configuration document: per-address header field records plus
//! this node's membership mask. It is read once at startup and handed to the
//! synchronizer, which validates every field before any table is touched.

use vstd::prelude::*;
use vstd::string::StringExecFns;
use crate::bier::{BierHdr, HdrField, HdrModel, Word0, Word1, Word2};
use crate::table::Addr;
use crate::text::{dec_rep, hex_dotted};

verus! {

/// A header field record as it appears in the configuration document: every
/// field as a plain value, to be checked against its bit width before use.
#[derive(Clone, Copy, Debug)]
pub struct SerdeBierHdr {
    pub bift_id: u32,
    pub tc: u8,
    pub s: bool,
    pub ttl: u8,
    pub nibble: u8,
    pub version: u8,
    pub bsl: u8,
    pub entropy: u32,
    pub oam: u8,
    pub rsv: u8,
    pub dscp: u8,
    pub proto: u8,
    pub bfir_id: u16,
    pub bitstring: [u8; 32],
}

impl View for SerdeBierHdr {
    type V = HdrModel;

    open spec fn view(&self) -> HdrModel {
        HdrModel {
            bift_id: self.bift_id,
            tc: self.tc,
            s: self.s,
            ttl: self.ttl,
            nibble: self.nibble,
            version: self.version,
            bsl: self.bsl,
            entropy: self.entropy,
            oam: self.oam,
            rsv: self.rsv,
            dscp: self.dscp,
            proto: self.proto,
            bfir_id: self.bfir_id,
            bitstring: self.bitstring@,
        }
    }
}

/// The first field, in declaration order, whose value does not fit its bit
/// width; `None` when the whole record is valid.
pub open spec fn first_bad_field(m: HdrModel) -> Option<HdrField> {
    if m.bift_id >= 0x100000 {
        Some(HdrField::BiftId)
    } else if m.tc >= 8 {
        Some(HdrField::Tc)
    } else if m.nibble >= 16 {
        Some(HdrField::Nibble)
    } else if m.version >= 16 {
        Some(HdrField::Version)
    } else if m.bsl >= 16 {
        Some(HdrField::Bsl)
    } else if m.entropy >= 0x100000 {
        Some(HdrField::Entropy)
    } else if m.oam >= 4 {
        Some(HdrField::Oam)
    } else if m.rsv >= 4 {
        Some(HdrField::Rsv)
    } else if m.dscp >= 64 {
        Some(HdrField::Dscp)
    } else if m.proto >= 64 {
        Some(HdrField::Proto)
    } else {
        None
    }
}

/// The fourteen `name: value` lines that render a header field record, in
/// declaration order: decimal for the numeric fields, `true`/`false` for the
/// stack bit, dotted hexadecimal for the bitstring.
pub open spec fn hdr_field_lines(m: HdrModel) -> Seq<Seq<char>> {
    seq![
        "bift_id: "@ + dec_rep(m.bift_id as int),
        "tc: "@ + dec_rep(m.tc as int),
        "s: "@ + (if m.s {
            "true"@
        } else {
            "false"@
        }),
        "ttl: "@ + dec_rep(m.ttl as int),
        "nibble: "@ + dec_rep(m.nibble as int),
        "version: "@ + dec_rep(m.version as int),
        "bsl: "@ + dec_rep(m.bsl as int),
        "entropy: "@ + dec_rep(m.entropy as int),
        "oam: "@ + dec_rep(m.oam as int),
        "rsv: "@ + dec_rep(m.rsv as int),
        "dscp: "@ + dec_rep(m.dscp as int),
        "proto: "@ + dec_rep(m.proto as int),
        "bfir_id: "@ + dec_rep(m.bfir_id as int),
        "bitstring: "@ + hex_dotted(m.bitstring),
    ]
}

impl SerdeBierHdr {
    /// Build the wire header from this record, checking every field against
    /// its bit width; the error names the first field, in declaration order,
    /// whose value does not fit.
    pub fn to_bier_hdr(&self) -> (r: Result<BierHdr, HdrField>)
        ensures
            match r {
                Ok(h) => first_bad_field(self@) is None && h@ == self@ && h.wf(),
                Err(f) => first_bad_field(self@) == Some(f),
            },
    {
        if self.bift_id >= 0x100000 {
            return Err(HdrField::BiftId);
        }
        if self.tc >= 8 {
            return Err(HdrField::Tc);
        }
        if self.nibble >= 16 {
            return Err(HdrField::Nibble);
        }
        if self.version >= 16 {
            return Err(HdrField::Version);
        }
        if self.bsl >= 16 {
            return Err(HdrField::Bsl);
        }
        if self.entropy >= 0x100000 {
            return Err(HdrField::Entropy);
        }
        if self.oam >= 4 {
            return Err(HdrField::Oam);
        }
        if self.rsv >= 4 {
            return Err(HdrField::Rsv);
        }
        if self.dscp >= 64 {
            return Err(HdrField::Dscp);
        }
        if self.proto >= 64 {
            return Err(HdrField::Proto);
        }
        let h = BierHdr {
            word0: Word0 { bift_id: self.bift_id, tc: self.tc, s: self.s, ttl: self.ttl },
            word1: Word1 {
                nibble: self.nibble,
                version: self.version,
                bsl: self.bsl,
                entropy: self.entropy,
            },
            word2: Word2 {
                oam: self.oam,
                rsv: self.rsv,
                dscp: self.dscp,
                proto: self.proto,
                bfir_id: self.bfir_id,
            },
            bitstring: self.bitstring,
        };
        proof {
            assert(h@ =~= self@);
        }
        Ok(h)
    }

    /// Render the record as fourteen `name: value` strings, one per field,
    /// in declaration order.
    pub fn to_string_vec(&self) -> (r: Vec<String>)
        ensures
            r@.len() == 14,
            forall|i: int| 0 <= i < 14 ==> r@[i]@ == hdr_field_lines(self@)[i],
    {
        let mut out: Vec<String> = Vec::new();
        let mut s = String::from_str("bift_id: ");
        crate::text::append_u64(&mut s, self.bift_id as u64);
        out.push(s);
        let mut s = String::from_str("tc: ");
        crate::text::append_u64(&mut s, self.tc as u64);
        out.push(s);
        let mut s = String::from_str("s: ");
        if self.s {
            s.append("true");
        } else {
            s.append("false");
        }
        out.push(s);
        let mut s = String::from_str("ttl: ");
        crate::text::append_u64(&mut s, self.ttl as u64);
        out.push(s);
        let mut s = String::from_str("nibble: ");
        crate::text::append_u64(&mut s, self.nibble as u64);
        out.push(s);
        let mut s = String::from_str("version: ");
        crate::text::append_u64(&mut s, self.version as u64);
        out.push(s);
        let mut s = String::from_str("bsl: ");
        crate::text::append_u64(&mut s, self.bsl as u64);
        out.push(s);
        let mut s = String::from_str("entropy: ");
        crate::text::append_u64(&mut s, self.entropy as u64);
        out.push(s);
        let mut s = String::from_str("oam: ");
        crate::text::append_u64(&mut s, self.oam as u64);
        out.push(s);
        let mut s = String::from_str("rsv: ");
        crate::text::append_u64(&mut s, self.rsv as u64);
        out.push(s);
        let mut s = String::from_str("dscp: ");
        crate::text::append_u64(&mut s, self.dscp as u64);
        out.push(s);
        let mut s = String::from_str("proto: ");
        crate::text::append_u64(&mut s, self.proto as u64);
        out.push(s);
        let mut s = String::from_str("bfir_id: ");
        crate::text::append_u64(&mut s, self.bfir_id as u64);
        out.push(s);
        let mut s = String::from_str("bitstring: ");
        crate::text::append_hex_dotted(&mut s, self.bitstring.as_slice());
        out.push(s);
        out
    }
}

/// One configured mapping: a destination address and the header to stamp on
/// frames bound for it.
#[derive(Clone, Copy, Debug)]
pub struct ConfigEntry {
    pub addr: Addr,
    pub hdr: SerdeBierHdr,
}

/// The address-to-header part of the configuration document.
pub type BierMapping = Vec<ConfigEntry>;

/// The whole configuration document: this node's 32-byte membership mask and
/// the configured mappings.
#[derive(Debug)]
pub struct BierConfig {
    pub local: [u8; 32],
    pub entries: BierMapping,
}

} // verus!
