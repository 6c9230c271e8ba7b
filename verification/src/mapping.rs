//! The configuration synchronizer and the owned handles it populates: the
//! per-family forwarding tables, this node's configuration, and the
//! monitoring projection over both.
//!
//! Synchronization validates every field of every configured header before
//! it touches a table, so a rejected configuration leaves both tables
//! exactly as they were and the transforms never see a half-loaded table.

use vstd::prelude::*;
use vstd::string::StringExecFns;
use crate::bier::{HdrField, spec_encode};
use crate::config::{BierConfig, ConfigEntry, first_bad_field};
use crate::monitor::RowData;
use crate::table::{Addr, FwdTable, RecModel, addr_index, has_addr, seq_load, seq_upsert, uniq};
use crate::text::{addr_text, hex_dotted};

verus! {

/// A rejected configuration: the offending address and the first of its
/// header fields whose value does not fit its bit width.
#[derive(Clone, Copy, Debug, PartialEq, Eq, Structural)]
pub struct ConfigError {
    pub addr: Addr,
    pub field: HdrField,
}

/// Mathematical model of the synchronizer's state: the configuration as
/// read, and the two tables it loads.
#[verifier::ext_equal]
pub ghost struct MapModel {
    pub local: Seq<u8>,
    pub entries: Seq<ConfigEntry>,
    pub v4: Seq<RecModel>,
    pub v6: Seq<RecModel>,
}

/// The IPv4 entries of a configuration as (address, encoded header) load
/// pairs, in configuration order.
pub open spec fn cfg_pairs_v4(es: Seq<ConfigEntry>) -> Seq<(Addr, Seq<u8>)>
    decreases es.len(),
{
    if es.len() == 0 {
        Seq::empty()
    } else {
        cfg_pairs_v4(es.drop_last()) + (if es.last().addr is V4 {
            seq![(es.last().addr, spec_encode(es.last().hdr@))]
        } else {
            Seq::empty()
        })
    }
}

/// The IPv6 entries of a configuration as (address, encoded header) load
/// pairs, in configuration order.
pub open spec fn cfg_pairs_v6(es: Seq<ConfigEntry>) -> Seq<(Addr, Seq<u8>)>
    decreases es.len(),
{
    if es.len() == 0 {
        Seq::empty()
    } else {
        cfg_pairs_v6(es.drop_last()) + (if es.last().addr is V6 {
            seq![(es.last().addr, spec_encode(es.last().hdr@))]
        } else {
            Seq::empty()
        })
    }
}

/// The first configuration entry, in order, with an out-of-width field;
/// `None` when the whole document is valid.
pub open spec fn first_config_error(es: Seq<ConfigEntry>) -> Option<ConfigError>
    decreases es.len(),
{
    if es.len() == 0 {
        None
    } else {
        match first_bad_field(es[0].hdr@) {
            Some(f) => Some(ConfigError { addr: es[0].addr, field: f }),
            None => first_config_error(es.drop_first()),
        }
    }
}

/// The configuration entries whose every field fits, in order: the ones the
/// monitoring projection shows.
pub open spec fn valid_entries(es: Seq<ConfigEntry>) -> Seq<ConfigEntry>
    decreases es.len(),
{
    if es.len() == 0 {
        Seq::empty()
    } else {
        valid_entries(es.drop_last()) + (if first_bad_field(es.last().hdr@) is None {
            seq![es.last()]
        } else {
            Seq::empty()
        })
    }
}

/// The first configured entry for an address, if any.
pub open spec fn find_entry(es: Seq<ConfigEntry>, a: Addr) -> Option<ConfigEntry>
    decreases es.len(),
{
    if es.len() == 0 {
        None
    } else if es[0].addr == a {
        Some(es[0])
    } else {
        find_entry(es.drop_first(), a)
    }
}

/// The packet count the monitoring projection shows for an address: the
/// counter of its record in the family's table, or the all-ones sentinel
/// when the table holds no record for it.
pub open spec fn shown_count(m: MapModel, a: Addr) -> u64 {
    match a {
        Addr::V4(_) => if has_addr(m.v4, a) {
            m.v4[addr_index(m.v4, a)].counter
        } else {
            0xFFFF_FFFF_FFFF_FFFFu64
        },
        Addr::V6(_) => if has_addr(m.v6, a) {
            m.v6[addr_index(m.v6, a)].counter
        } else {
            0xFFFF_FFFF_FFFF_FFFFu64
        },
    }
}

/// A monitoring row faithfully reports one configured entry: its address in
/// text form, the packet count its family's table shows, and its bitstring
/// in dotted hexadecimal.
pub open spec fn row_matches(m: MapModel, row: RowData, e: ConfigEntry) -> bool {
    &&& row.ipmc_group@ == addr_text(e.addr)
    &&& row.packet_count == shown_count(m, e.addr)
    &&& row.bitstring@ == hex_dotted(e.hdr@.bitstring)
}

/// Loading one more pair is an upsert on the loaded table.
proof fn lemma_load_push(t: Seq<RecModel>, ps: Seq<(Addr, Seq<u8>)>, p: (Addr, Seq<u8>))
    ensures
        seq_load(t, ps.push(p)) == seq_upsert(seq_load(t, ps), p.0, p.1),
    decreases ps.len(),
{
    let q = ps.push(p);
    if ps.len() == 0 {
        assert(q[0] == p);
        assert(q.drop_first() =~= Seq::<(Addr, Seq<u8>)>::empty());
        assert(seq_load(t, q) == seq_load(seq_upsert(t, q[0].0, q[0].1), q.drop_first()));
        assert(seq_load(seq_upsert(t, p.0, p.1), q.drop_first()) == seq_upsert(t, p.0, p.1));
        assert(seq_load(t, ps) == t);
    } else {
        assert(q[0] == ps[0]);
        assert(q.drop_first() =~= ps.drop_first().push(p));
        lemma_load_push(seq_upsert(t, ps[0].0, ps[0].1), ps.drop_first(), p);
        assert(seq_load(t, q) == seq_load(seq_upsert(t, q[0].0, q[0].1), q.drop_first()));
        assert(seq_load(t, ps) == seq_load(seq_upsert(t, ps[0].0, ps[0].1), ps.drop_first()));
    }
}

/// The synchronizer's state: the configuration document as read, and one
/// forwarding table per address family.
pub struct Mappings {
    data: BierConfig,
    v4: FwdTable,
    v6: FwdTable,
}

impl View for Mappings {
    type V = MapModel;

    closed spec fn view(&self) -> MapModel {
        MapModel {
            local: self.data.local@,
            entries: self.data.entries@,
            v4: self.v4@,
            v6: self.v6@,
        }
    }
}

impl Mappings {
    /// Both tables keep one record per address.
    pub open spec fn wf(self) -> bool {
        uniq(self@.v4) && uniq(self@.v6)
    }

    /// Adopt a configuration document with both tables still empty; nothing
    /// is loaded until `write_config` runs.
    pub fn new(data: BierConfig) -> (r: Mappings)
        ensures
            r.wf(),
            r@.local == data.local@,
            r@.entries == data.entries@,
            r@.v4 == Seq::<RecModel>::empty(),
            r@.v6 == Seq::<RecModel>::empty(),
    {
        Mappings { data, v4: FwdTable::new(), v6: FwdTable::new() }
    }

    /// Validate the whole configuration and bulk-load both forwarding
    /// tables. Any out-of-width field aborts the load before either table is
    /// touched, naming the offending address and field; on success each
    /// family's table is the old table with that family's pairs upserted in
    /// configuration order, every loaded counter reset to zero.
    pub fn write_config(&mut self) -> (r: Result<(), ConfigError>)
        requires
            old(self).wf(),
        ensures
            final(self).wf(),
            final(self)@.local == old(self)@.local,
            final(self)@.entries == old(self)@.entries,
            match r {
                Ok(()) => first_config_error(old(self)@.entries) is None && final(self)@.v4
                    == seq_load(old(self)@.v4, cfg_pairs_v4(old(self)@.entries)) && final(self)@.v6
                    == seq_load(old(self)@.v6, cfg_pairs_v6(old(self)@.entries)),
                Err(e) => first_config_error(old(self)@.entries) == Some(e) && final(self)@.v4
                    == old(self)@.v4 && final(self)@.v6 == old(self)@.v6,
            },
    {
        let n = self.data.entries.len();
        proof {
            assert(self@.entries.subrange(0, n as int) =~= self@.entries);
        }
        let mut encoded: Vec<[u8; 44]> = Vec::new();
        let mut k: usize = 0;
        while k < n
            invariant
                k <= n,
                n == self@.entries.len(),
                *self == *old(self),
                old(self).wf(),
                encoded@.len() == k,
                forall|j: int|
                    0 <= j < k ==> #[trigger] encoded@[j]@ == spec_encode(self@.entries[j].hdr@),
                forall|j: int| 0 <= j < k ==> first_bad_field(self@.entries[j].hdr@) is None,
                first_config_error(self@.entries) == first_config_error(
                    self@.entries.subrange(k as int, n as int),
                ),
            decreases n - k,
        {
            let e = self.data.entries[k];
            proof {
                let tail = self@.entries.subrange(k as int, n as int);
                assert(tail[0] == self@.entries[k as int]);
                assert(tail.drop_first() =~= self@.entries.subrange(k + 1, n as int));
            }
            match e.hdr.to_bier_hdr() {
                Ok(h) => {
                    encoded.push(h.into_bytes());
                },
                Err(f) => {
                    return Err(ConfigError { addr: e.addr, field: f });
                },
            }
            k += 1;
        }
        proof {
            assert(self@.entries.subrange(n as int, n as int) =~= Seq::<ConfigEntry>::empty());
        }
        let ghost t4_0 = self@.v4;
        let ghost t6_0 = self@.v6;
        let mut k: usize = 0;
        while k < n
            invariant
                k <= n,
                n == self@.entries.len(),
                self@.entries == old(self)@.entries,
                self@.local == old(self)@.local,
                t4_0 == old(self)@.v4,
                t6_0 == old(self)@.v6,
                encoded@.len() == n,
                forall|j: int|
                    0 <= j < n ==> #[trigger] encoded@[j]@ == spec_encode(self@.entries[j].hdr@),
                self.v4.wf(),
                self.v6.wf(),
                self@.v4 == seq_load(t4_0, cfg_pairs_v4(self@.entries.subrange(0, k as int))),
                self@.v6 == seq_load(t6_0, cfg_pairs_v6(self@.entries.subrange(0, k as int))),
            decreases n - k,
        {
            let e = self.data.entries[k];
            let hdr = encoded[k];
            let ghost pre = self@.entries.subrange(0, k as int);
            let ghost cur = self@.entries.subrange(0, k + 1);
            proof {
                assert(cur.drop_last() =~= pre);
                assert(cur.last() == self@.entries[k as int]);
            }
            match e.addr {
                Addr::V4(_) => {
                    self.v4.upsert(e.addr, hdr);
                    proof {
                        assert(cfg_pairs_v4(cur) =~= cfg_pairs_v4(pre).push(
                            (e.addr, spec_encode(e.hdr@)),
                        ));
                        lemma_load_push(t4_0, cfg_pairs_v4(pre), (e.addr, spec_encode(e.hdr@)));
                        assert(cfg_pairs_v6(cur) =~= cfg_pairs_v6(pre));
                    }
                },
                Addr::V6(_) => {
                    self.v6.upsert(e.addr, hdr);
                    proof {
                        assert(cfg_pairs_v6(cur) =~= cfg_pairs_v6(pre).push(
                            (e.addr, spec_encode(e.hdr@)),
                        ));
                        lemma_load_push(t6_0, cfg_pairs_v6(pre), (e.addr, spec_encode(e.hdr@)));
                        assert(cfg_pairs_v4(cur) =~= cfg_pairs_v4(pre));
                    }
                },
            }
            k += 1;
        }
        proof {
            assert(self@.entries.subrange(0, n as int) =~= self@.entries);
        }
        Ok(())
    }

    /// The monitoring rows: first this node's own membership mask, then one
    /// row per valid configured mapping, in configuration order, each with
    /// its address, the packet count its family's table shows, and its
    /// bitstring rendered in dotted hexadecimal.
    pub fn get_data(&self) -> (r: Vec<RowData>)
        requires
            self.wf(),
        ensures
            r@.len() == 1 + valid_entries(self@.entries).len(),
            r@[0].ipmc_group@ == "local BFER"@,
            r@[0].packet_count == 0,
            r@[0].bitstring@ == hex_dotted(self@.local),
            forall|i: int|
                0 <= i < valid_entries(self@.entries).len() ==> #[trigger] row_matches(
                    self@,
                    r@[i + 1],
                    valid_entries(self@.entries)[i],
                ),
    {
        let mut out: Vec<RowData> = Vec::new();
        let mut mask_text = String::new();
        crate::text::append_hex_dotted(&mut mask_text, self.data.local.as_slice());
        out.push(
            RowData {
                ipmc_group: String::from_str("local BFER"),
                packet_count: 0,
                bitstring: mask_text,
            },
        );
        let n = self.data.entries.len();
        let mut k: usize = 0;
        while k < n
            invariant
                k <= n,
                n == self@.entries.len(),
                self.wf(),
                out@.len() == 1 + valid_entries(self@.entries.subrange(0, k as int)).len(),
                out@[0].ipmc_group@ == "local BFER"@,
                out@[0].packet_count == 0,
                out@[0].bitstring@ == hex_dotted(self@.local),
                forall|i: int|
                    0 <= i < valid_entries(self@.entries.subrange(0, k as int)).len()
                        ==> #[trigger] row_matches(
                        self@,
                        out@[i + 1],
                        valid_entries(self@.entries.subrange(0, k as int))[i],
                    ),
            decreases n - k,
        {
            let e = self.data.entries[k];
            let ghost pre = self@.entries.subrange(0, k as int);
            let ghost cur = self@.entries.subrange(0, k + 1);
            proof {
                assert(cur.drop_last() =~= pre);
                assert(cur.last() == self@.entries[k as int]);
            }
            match e.hdr.to_bier_hdr() {
                Err(_) => {
                    proof {
                        assert(valid_entries(cur) =~= valid_entries(pre));
                        assert forall|i: int|
                            0 <= i < valid_entries(cur).len() implies #[trigger] row_matches(
                            self@,
                            out@[i + 1],
                            valid_entries(cur)[i],
                        ) by {
                            assert(row_matches(self@, out@[i + 1], valid_entries(pre)[i]));
                        }
                    }
                },
                Ok(_) => {
                    let count: u64 = match e.addr {
                        Addr::V4(_) => match self.v4.get(e.addr) {
                            Some(rec) => rec.counter,
                            None => 0xFFFF_FFFF_FFFF_FFFF,
                        },
                        Addr::V6(_) => match self.v6.get(e.addr) {
                            Some(rec) => rec.counter,
                            None => 0xFFFF_FFFF_FFFF_FFFF,
                        },
                    };
                    let mut bs_text = String::new();
                    crate::text::append_hex_dotted(&mut bs_text, e.hdr.bitstring.as_slice());
                    out.push(
                        RowData {
                            ipmc_group: crate::text::addr_string(e.addr),
                            packet_count: count,
                            bitstring: bs_text,
                        },
                    );
                    proof {
                        assert(valid_entries(cur) =~= valid_entries(pre).push(e));
                        assert(row_matches(self@, out@.last(), e));
                        assert forall|i: int|
                            0 <= i < valid_entries(cur).len() implies #[trigger] row_matches(
                            self@,
                            out@[i + 1],
                            valid_entries(cur)[i],
                        ) by {
                            if i < valid_entries(pre).len() {
                                assert(row_matches(self@, out@[i + 1], valid_entries(pre)[i]));
                                assert(valid_entries(cur)[i] == valid_entries(pre)[i]);
                            } else {
                                assert(valid_entries(cur)[i] == e);
                                assert(out@[i + 1] == out@.last());
                            }
                        }
                    }
                },
            }
            k += 1;
        }
        proof {
            assert(self@.entries.subrange(0, n as int) =~= self@.entries);
        }
        out
    }

    /// The fourteen rendered `name: value` lines of the header configured
    /// for an address, or nothing when no mapping for it is configured.
    pub fn get_header_fields(&self, addr: Addr) -> (r: Vec<String>)
        ensures
            match find_entry(self@.entries, addr) {
                None => r@.len() == 0,
                Some(e) => r@.len() == 14 && forall|i: int|
                    0 <= i < 14 ==> r@[i]@ == crate::config::hdr_field_lines(e.hdr@)[i],
            },
    {
        let n = self.data.entries.len();
        proof {
            assert(self@.entries.subrange(0, n as int) =~= self@.entries);
        }
        let mut k: usize = 0;
        while k < n
            invariant
                k <= n,
                n == self@.entries.len(),
                find_entry(self@.entries, addr) == find_entry(
                    self@.entries.subrange(k as int, n as int),
                    addr,
                ),
            decreases n - k,
        {
            let e = self.data.entries[k];
            proof {
                let tail = self@.entries.subrange(k as int, n as int);
                assert(tail[0] == self@.entries[k as int]);
                assert(tail.drop_first() =~= self@.entries.subrange(k + 1, n as int));
            }
            if e.addr == addr {
                return e.hdr.to_string_vec();
            }
            k += 1;
        }
        proof {
            assert(self@.entries.subrange(n as int, n as int) =~= Seq::<ConfigEntry>::empty());
        }
        Vec::new()
    }

    /// The configured destination addresses, in configuration order.
    pub fn addresses(&self) -> (r: Vec<Addr>)
        ensures
            r@.len() == self@.entries.len(),
            forall|i: int| 0 <= i < self@.entries.len() ==> r@[i] == self@.entries[i].addr,
    {
        let n = self.data.entries.len();
        let mut out: Vec<Addr> = Vec::new();
        let mut k: usize = 0;
        while k < n
            invariant
                k <= n,
                n == self@.entries.len(),
                out@.len() == k,
                forall|i: int| 0 <= i < k ==> out@[i] == self@.entries[i].addr,
            decreases n - k,
        {
            out.push(self.data.entries[k].addr);
            k += 1;
        }
        out
    }

    /// This node's 32-byte membership mask as configured.
    pub fn get_local(&self) -> (r: [u8; 32])
        ensures
            r@ == self@.local,
    {
        self.data.local
    }

    /// Borrow both forwarding tables at once for the data plane, which
    /// consults and mutates them per frame while the configuration stays
    /// read-only.
    pub fn tables(&mut self) -> ((t4, t6): (&mut FwdTable, &mut FwdTable))
        ensures
            (*t4)@ == old(self)@.v4,
            (*t6)@ == old(self)@.v6,
            final(self)@ == (MapModel { v4: final(t4)@, v6: final(t6)@, ..old(self)@ }),
    {
        (&mut self.v4, &mut self.v6)
    }
}

} // verus!
