//! Ingress decapsulation: the Bit-Forwarding Egress Router role.
//!
//! An arriving frame that carries the BIER protocol tag has its bitstring
//! tested byte by byte against this node's membership mask, short-circuiting
//! on the first byte whose bitwise AND is non-zero. On a match the fixed
//! 44-byte header is stripped: the link-layer header moves forward over the
//! gap and the protocol tag of the inner payload is restored from the
//! header's own Proto field. No match means none of the named egress bits
//! belong to this node, so the frame is dropped and counted; a frame too
//! short to carry what is read is likewise dropped. Frames without the BIER
//! tag pass through untouched.

use vstd::prelude::*;
use crate::table::sat_inc;

verus! {

/// The 256-bit mask naming the bitstring positions this node owns as egress
/// point. Set once at startup from configuration and read-only afterwards.
#[derive(Clone, Copy, Debug)]
pub struct LocalMembership {
    pub mask: [u8; 32],
}

impl View for LocalMembership {
    type V = Seq<u8>;

    open spec fn view(&self) -> Seq<u8> {
        self.mask@
    }
}

impl LocalMembership {
    /// Adopt a 32-byte mask.
    pub fn new(mask: [u8; 32]) -> (r: Self)
        ensures
            r@ == mask@,
    {
        LocalMembership { mask }
    }
}

/// The disposition of one arriving frame.
#[derive(Clone, Copy, Debug, PartialEq, Eq, Structural)]
pub enum IngressOutcome {
    /// The frame does not carry the BIER tag and passes through untouched.
    Passed,
    /// The header was stripped and the inner protocol tag restored.
    Decapsulated,
    /// No bitstring position named in the frame belongs to this node.
    DroppedNoMatch,
    /// The frame is too short to carry what decapsulation reads.
    DroppedBuffer,
}

/// Whether the frame's bitstring and the membership mask share a set bit.
/// The bitstring sits at bytes 26..58 of an encapsulated frame.
pub open spec fn spec_bits_match(f: Seq<u8>, mask: Seq<u8>) -> bool
    recommends
        f.len() >= 58,
        mask.len() == 32,
{
    exists|i: int| 0 <= i < 32 && (f[26 + i] & mask[i]) != 0
}

/// The protocol tag restored for a BIER Proto code: code 6 is an IPv6
/// payload, every other code is treated as IPv4, which the encapsulation
/// side emits for all its traffic.
pub open spec fn spec_proto_tag(p: u8) -> u16 {
    if p == 6 {
        0x86DDu16
    } else {
        0x0800u16
    }
}

/// The frame after decapsulation: the 12 link-layer address bytes, the
/// restored protocol tag, then everything past the 44-byte BIER header. The
/// Proto field lives in the low six bits of header byte 9 (frame byte 23).
pub open spec fn spec_decap(f: Seq<u8>) -> Seq<u8>
    recommends
        f.len() >= 58,
{
    let tag = spec_proto_tag(f[23] & 0x3F);
    f.subrange(0, 12) + seq![(tag >> 8) as u8, tag as u8] + f.subrange(58, f.len() as int)
}

/// The complete ingress decision: the outcome and the frame after one
/// arriving frame is processed against the membership mask.
pub open spec fn spec_ingress(f: Seq<u8>, mask: Seq<u8>) -> (IngressOutcome, Seq<u8>) {
    if f.len() < 14 {
        (IngressOutcome::DroppedBuffer, f)
    } else if crate::bier::spec_ethertype(f) != 0xAB37 {
        (IngressOutcome::Passed, f)
    } else if f.len() < 58 {
        (IngressOutcome::DroppedBuffer, f)
    } else if !spec_bits_match(f, mask) {
        (IngressOutcome::DroppedNoMatch, f)
    } else {
        (IngressOutcome::Decapsulated, spec_decap(f))
    }
}

/// Rewrite a frame in place into its decapsulated form. The new frame is
/// assembled aside and swapped in whole, so the original is intact until the
/// rewrite is complete.
fn strip_header(frame: &mut Vec<u8>)
    requires
        old(frame)@.len() >= 58,
    ensures
        final(frame)@ == spec_decap(old(frame)@),
{
    let n = frame.len();
    let mut out: Vec<u8> = Vec::new();
    let mut i: usize = 0;
    while i < 12
        invariant
            i <= 12,
            n == frame@.len(),
            n >= 58,
            frame@ == old(frame)@,
            out@ =~= frame@.subrange(0, i as int),
        decreases 12 - i,
    {
        out.push(frame[i]);
        i += 1;
    }
    let proto: u8 = frame[23] & 0x3F;
    let tag: u16 = if proto == 6 {
        0x86DD
    } else {
        0x0800
    };
    out.push((tag >> 8) as u8);
    out.push(tag as u8);
    let mut k: usize = 58;
    while k < n
        invariant
            58 <= k <= n,
            n == frame@.len(),
            frame@ == old(frame)@,
            out@ =~= frame@.subrange(0, 12) + seq![
                (spec_proto_tag(frame@[23] & 0x3F) >> 8) as u8,
                spec_proto_tag(frame@[23] & 0x3F) as u8,
            ] + frame@.subrange(58, k as int),
        decreases n - k,
    {
        out.push(frame[k]);
        k += 1;
    }
    proof {
        assert(out@ =~= spec_decap(old(frame)@));
    }
    *frame = out;
}

/// Process one arriving frame against this node's membership mask: pass
/// foreign frames through, strip the header on a bit match, and drop (and
/// count) frames that match no owned bit or are malformed. Everything that
/// happens is pinned by `spec_ingress`; the drop counter rises by one on
/// exactly the dropped dispositions.
pub fn process_ingress(frame: &mut Vec<u8>, local: &LocalMembership, drops: &mut u64) -> (r:
    IngressOutcome)
    ensures
        ({
            let (o, nf) = spec_ingress(old(frame)@, local@);
            r == o && final(frame)@ == nf
        }),
        r == IngressOutcome::DroppedNoMatch || r == IngressOutcome::DroppedBuffer ==> *final(drops)
            == sat_inc(*old(drops)),
        r == IngressOutcome::Passed || r == IngressOutcome::Decapsulated ==> *final(drops) == *old(
            drops,
        ),
{
    if frame.len() < 14 {
        if *drops < 0xFFFF_FFFF_FFFF_FFFF {
            *drops = *drops + 1;
        }
        return IngressOutcome::DroppedBuffer;
    }
    let ethertype: u16 = ((frame[12] as u16) << 8) | (frame[13] as u16);
    if ethertype != 0xAB37 {
        return IngressOutcome::Passed;
    }
    if frame.len() < 58 {
        if *drops < 0xFFFF_FFFF_FFFF_FFFF {
            *drops = *drops + 1;
        }
        return IngressOutcome::DroppedBuffer;
    }
    let mut matched = false;
    let mut i: usize = 0;
    while i < 32 && !matched
        invariant
            i <= 32,
            frame@.len() >= 58,
            !matched ==> forall|j: int| 0 <= j < i ==> (frame@[26 + j] & local@[j]) == 0,
            matched ==> spec_bits_match(frame@, local@),
        decreases 32 - i + (if matched {
            0int
        } else {
            1int
        }),
    {
        if frame[26 + i] & local.mask[i] > 0 {
            matched = true;
        } else {
            i += 1;
        }
    }
    if !matched {
        if *drops < 0xFFFF_FFFF_FFFF_FFFF {
            *drops = *drops + 1;
        }
        return IngressOutcome::DroppedNoMatch;
    }
    strip_header(frame);
    IngressOutcome::Decapsulated
}

} // verus!
