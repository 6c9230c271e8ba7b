//! Egress encapsulation: the Bit-Forwarding Ingress Router role.
//!
//! A departing frame destined to a configured multicast address grows by the
//! 44-byte BIER header at its front: the link-layer header is relocated to
//! the new front, the looked-up encoded header is written immediately after
//! it, the protocol tag becomes the BIER tag, and that destination's packet
//! counter is raised. A lookup miss, a foreign protocol or a frame too short
//! to classify passes through byte-for-byte unchanged: the frame is never
//! left half-rewritten.

use vstd::prelude::*;
use crate::table::{Addr, FwdTable, RecModel, addr_index, has_addr, seq_bump};

verus! {

/// The disposition of one departing frame.
#[derive(Clone, Copy, Debug, PartialEq, Eq, Structural)]
pub enum EgressOutcome {
    /// The frame gained a BIER header and its destination was counted.
    Encapsulated,
    /// The frame is too short to carry the headers classification reads.
    PassedBuffer,
    /// The frame carries neither an IPv4 nor an IPv6 protocol tag.
    PassedNonIp,
    /// No mapping is configured for the frame's destination address.
    PassedNoMapping,
}

/// The IPv4 destination address of a frame, read big-endian from the
/// link-layer payload.
pub open spec fn spec_v4_dst(f: Seq<u8>) -> u32
    recommends
        f.len() >= 34,
{
    (((f[30] as u32) << 24) | ((f[31] as u32) << 16) | ((f[32] as u32) << 8) | (f[33] as u32)) as u32
}

/// The IPv6 destination address of a frame, read big-endian from the
/// link-layer payload.
pub open spec fn spec_v6_dst(f: Seq<u8>) -> u128
    recommends
        f.len() >= 54,
{
    (((f[38] as u128) << 120) | ((f[39] as u128) << 112) | ((f[40] as u128) << 104) | ((
    f[41] as u128) << 96) | ((f[42] as u128) << 88) | ((f[43] as u128) << 80) | ((f[44] as u128)
        << 72) | ((f[45] as u128) << 64) | ((f[46] as u128) << 56) | ((f[47] as u128) << 48) | ((
    f[48] as u128) << 40) | ((f[49] as u128) << 32) | ((f[50] as u128) << 24) | ((f[51] as u128)
        << 16) | ((f[52] as u128) << 8) | (f[53] as u128)) as u128
}

/// The frame after encapsulation: the 12 link-layer address bytes, the BIER
/// protocol tag, the 44 encoded header bytes, then everything that followed
/// the original protocol tag.
pub open spec fn spec_encap(f: Seq<u8>, hdr: Seq<u8>) -> Seq<u8>
    recommends
        f.len() >= 14,
        hdr.len() == 44,
{
    f.subrange(0, 12) + seq![0xABu8, 0x37u8] + hdr + f.subrange(14, f.len() as int)
}

/// The complete egress decision: the outcome, the departing frame, and the
/// two forwarding tables after one frame is processed.
pub open spec fn spec_egress(f: Seq<u8>, t4: Seq<RecModel>, t6: Seq<RecModel>) -> (
    EgressOutcome,
    Seq<u8>,
    Seq<RecModel>,
    Seq<RecModel>,
) {
    if f.len() < 14 {
        (EgressOutcome::PassedBuffer, f, t4, t6)
    } else if crate::bier::spec_ethertype(f) == 0x0800 {
        if f.len() < 34 {
            (EgressOutcome::PassedBuffer, f, t4, t6)
        } else {
            let a = Addr::V4(spec_v4_dst(f));
            if !has_addr(t4, a) {
                (EgressOutcome::PassedNoMapping, f, t4, t6)
            } else {
                (
                    EgressOutcome::Encapsulated,
                    spec_encap(f, t4[addr_index(t4, a)].hdr),
                    seq_bump(t4, a),
                    t6,
                )
            }
        }
    } else if crate::bier::spec_ethertype(f) == 0x86DD {
        if f.len() < 54 {
            (EgressOutcome::PassedBuffer, f, t4, t6)
        } else {
            let a = Addr::V6(spec_v6_dst(f));
            if !has_addr(t6, a) {
                (EgressOutcome::PassedNoMapping, f, t4, t6)
            } else {
                (
                    EgressOutcome::Encapsulated,
                    spec_encap(f, t6[addr_index(t6, a)].hdr),
                    t4,
                    seq_bump(t6, a),
                )
            }
        }
    } else {
        (EgressOutcome::PassedNonIp, f, t4, t6)
    }
}

/// Rewrite a frame in place into its encapsulated form. The new frame is
/// assembled aside and swapped in whole, so the original is intact until the
/// rewrite is complete.
fn encapsulate_with(frame: &mut Vec<u8>, hdr: &[u8; 44])
    requires
        old(frame)@.len() >= 14,
    ensures
        final(frame)@ == spec_encap(old(frame)@, hdr@),
{
    let n = frame.len();
    let mut out: Vec<u8> = Vec::new();
    let mut i: usize = 0;
    while i < 12
        invariant
            i <= 12,
            n == frame@.len(),
            n >= 14,
            frame@ == old(frame)@,
            out@ =~= frame@.subrange(0, i as int),
        decreases 12 - i,
    {
        out.push(frame[i]);
        i += 1;
    }
    out.push(0xAB);
    out.push(0x37);
    let mut j: usize = 0;
    while j < 44
        invariant
            j <= 44,
            n == frame@.len(),
            n >= 14,
            frame@ == old(frame)@,
            out@ =~= frame@.subrange(0, 12) + seq![0xABu8, 0x37u8] + hdr@.subrange(0, j as int),
        decreases 44 - j,
    {
        out.push(hdr[j]);
        j += 1;
    }
    let mut k: usize = 14;
    while k < n
        invariant
            14 <= k <= n,
            n == frame@.len(),
            frame@ == old(frame)@,
            out@ =~= frame@.subrange(0, 12) + seq![0xABu8, 0x37u8] + hdr@ + frame@.subrange(
                14,
                k as int,
            ),
        decreases n - k,
    {
        out.push(frame[k]);
        k += 1;
    }
    proof {
        assert(hdr@.subrange(0, 44) =~= hdr@);
        assert(out@ =~= spec_encap(old(frame)@, hdr@));
    }
    *frame = out;
}

/// Process one departing frame against the forwarding tables: classify it,
/// look its destination up, and on a hit stamp the looked-up header onto it
/// and count the packet. Everything that happens is pinned by `spec_egress`.
pub fn process_egress(frame: &mut Vec<u8>, v4: &mut FwdTable, v6: &mut FwdTable) -> (r:
    EgressOutcome)
    requires
        old(v4).wf(),
        old(v6).wf(),
    ensures
        final(v4).wf(),
        final(v6).wf(),
        ({
            let (o, nf, n4, n6) = spec_egress(old(frame)@, old(v4)@, old(v6)@);
            r == o && final(frame)@ == nf && final(v4)@ == n4 && final(v6)@ == n6
        }),
{
    if frame.len() < 14 {
        return EgressOutcome::PassedBuffer;
    }
    let ethertype: u16 = ((frame[12] as u16) << 8) | (frame[13] as u16);
    if ethertype == 0x0800 {
        if frame.len() < 34 {
            return EgressOutcome::PassedBuffer;
        }
        let dst: u32 = ((frame[30] as u32) << 24) | ((frame[31] as u32) << 16) | ((
        frame[32] as u32) << 8) | (frame[33] as u32);
        let a = Addr::V4(dst);
        let hdr: [u8; 44] = match v4.get(a) {
            None => {
                return EgressOutcome::PassedNoMapping;
            },
            Some(rec) => rec.hdr,
        };
        encapsulate_with(frame, &hdr);
        v4.increment(a);
        EgressOutcome::Encapsulated
    } else if ethertype == 0x86DD {
        if frame.len() < 54 {
            return EgressOutcome::PassedBuffer;
        }
        let dst: u128 = ((frame[38] as u128) << 120) | ((frame[39] as u128) << 112) | ((
        frame[40] as u128) << 104) | ((frame[41] as u128) << 96) | ((frame[42] as u128) << 88) | ((
        frame[43] as u128) << 80) | ((frame[44] as u128) << 72) | ((frame[45] as u128) << 64) | ((
        frame[46] as u128) << 56) | ((frame[47] as u128) << 48) | ((frame[48] as u128) << 40) | ((
        frame[49] as u128) << 32) | ((frame[50] as u128) << 24) | ((frame[51] as u128) << 16) | ((
        frame[52] as u128) << 8) | (frame[53] as u128);
        let a = Addr::V6(dst);
        let hdr: [u8; 44] = match v6.get(a) {
            None => {
                return EgressOutcome::PassedNoMapping;
            },
            Some(rec) => rec.hdr,
        };
        encapsulate_with(frame, &hdr);
        v6.increment(a);
        EgressOutcome::Encapsulated
    } else {
        EgressOutcome::PassedNonIp
    }
}

} // verus!
