//! The forwarding table: an associative store from a destination address to
//! an encoded BIER header plus a packet counter.
//!
//! The control plane bulk-upserts entries (later upserts overwrite and reset
//! the counter), the data plane performs exact-key lookups and counter
//! increments, and the monitoring projection takes read-only snapshots. A
//! lookup miss is not an error: it is the "no mapping configured" signal.

use vstd::prelude::*;

verus! {

/// A destination address in canonical network-order integer form: 32 bits
/// for IPv4, 128 bits for IPv6.
#[derive(Clone, Copy, Debug, PartialEq, Eq, Structural)]
pub enum Addr {
    V4(u32),
    V6(u128),
}

/// Mathematical model of one forwarding record.
#[verifier::ext_equal]
pub ghost struct RecModel {
    pub addr: Addr,
    pub hdr: Seq<u8>,
    pub counter: u64,
}

/// One forwarding entry: destination address, the encoded 44-byte header to
/// stamp onto matching frames, and the packet counter for that destination.
#[derive(Clone, Copy, Debug, PartialEq, Eq)]
pub struct FwdRecord {
    pub addr: Addr,
    pub hdr: [u8; 44],
    pub counter: u64,
}

impl View for FwdRecord {
    type V = RecModel;

    open spec fn view(&self) -> RecModel {
        RecModel { addr: self.addr, hdr: self.hdr@, counter: self.counter }
    }
}

/// No two records share an address.
pub open spec fn uniq(t: Seq<RecModel>) -> bool {
    forall|i: int, j: int| 0 <= i < j < t.len() ==> t[i].addr != t[j].addr
}

/// Some record carries address `a`.
pub open spec fn has_addr(t: Seq<RecModel>, a: Addr) -> bool {
    exists|i: int| 0 <= i < t.len() && t[i].addr == a
}

/// The index of the record carrying address `a`; unique when `uniq(t)`.
pub open spec fn addr_index(t: Seq<RecModel>, a: Addr) -> int
    recommends
        has_addr(t, a),
{
    choose|i: int| 0 <= i < t.len() && t[i].addr == a
}

/// The table after an upsert of `(a, h)`: an existing record for `a` is
/// overwritten in place (counter reset to zero), a new address is appended.
pub open spec fn seq_upsert(t: Seq<RecModel>, a: Addr, h: Seq<u8>) -> Seq<RecModel> {
    if has_addr(t, a) {
        t.update(addr_index(t, a), RecModel { addr: a, hdr: h, counter: 0 })
    } else {
        t.push(RecModel { addr: a, hdr: h, counter: 0 })
    }
}

/// A counter one higher, held at the ceiling once it reaches it.
pub open spec fn sat_inc(c: u64) -> u64 {
    if c < 0xFFFF_FFFF_FFFF_FFFFu64 {
        (c + 1) as u64
    } else {
        c
    }
}

/// The table after the data plane counts one packet toward address `a`; a
/// table without `a` is unchanged.
pub open spec fn seq_bump(t: Seq<RecModel>, a: Addr) -> Seq<RecModel> {
    if has_addr(t, a) {
        let i = addr_index(t, a);
        t.update(i, RecModel { addr: t[i].addr, hdr: t[i].hdr, counter: sat_inc(t[i].counter) })
    } else {
        t
    }
}

/// The table after `n` packets were counted toward address `a`.
pub open spec fn seq_bump_n(t: Seq<RecModel>, a: Addr, n: nat) -> Seq<RecModel>
    decreases n,
{
    if n == 0 {
        t
    } else {
        seq_bump(seq_bump_n(t, a, (n - 1) as nat), a)
    }
}

/// What an upsert does to the shape of a table: uniqueness is preserved,
/// addresses keep their positions, exactly `a` is added when absent, and
/// records for other addresses are untouched.
pub proof fn lemma_upsert(t: Seq<RecModel>, a: Addr, h: Seq<u8>)
    requires
        uniq(t),
    ensures
        uniq(seq_upsert(t, a, h)),
        seq_upsert(t, a, h).len() == t.len() + (if has_addr(t, a) {
            0int
        } else {
            1int
        }),
        forall|i: int| 0 <= i < t.len() ==> seq_upsert(t, a, h)[i].addr == t[i].addr,
        forall|b: Addr| has_addr(seq_upsert(t, a, h), b) <==> (has_addr(t, b) || b == a),
        forall|i: int|
            0 <= i < t.len() && t[i].addr != a ==> seq_upsert(t, a, h)[i] == t[i],
        has_addr(seq_upsert(t, a, h), a),
        seq_upsert(t, a, h)[addr_index(seq_upsert(t, a, h), a)] == (RecModel {
            addr: a,
            hdr: h,
            counter: 0,
        }),
{
    let u = seq_upsert(t, a, h);
    if has_addr(t, a) {
        let i = addr_index(t, a);
        assert(0 <= i < t.len() && t[i].addr == a);
        assert forall|b: Addr| has_addr(u, b) implies (has_addr(t, b) || b == a) by {
            let k = choose|k: int| 0 <= k < u.len() && u[k].addr == b;
            if k != i {
                assert(t[k].addr == b);
            }
        }
        assert forall|b: Addr| has_addr(t, b) || b == a implies has_addr(u, b) by {
            if b == a {
                assert(u[i].addr == a);
            } else {
                let k = choose|k: int| 0 <= k < t.len() && t[k].addr == b;
                assert(k != i);
                assert(u[k].addr == b);
            }
        }
        let j = addr_index(u, a);
        assert(0 <= j < u.len() && u[j].addr == a);
        if j != i {
            assert(t[j].addr == a);
        }
        assert(j == i);
    } else {
        assert(u[t.len() as int].addr == a);
        assert forall|b: Addr| has_addr(u, b) implies (has_addr(t, b) || b == a) by {
            let k = choose|k: int| 0 <= k < u.len() && u[k].addr == b;
            if k < t.len() {
                assert(t[k].addr == b);
            }
        }
        assert forall|b: Addr| has_addr(t, b) || b == a implies has_addr(u, b) by {
            if b == a {
                assert(u[t.len() as int].addr == a);
            } else {
                let k = choose|k: int| 0 <= k < t.len() && t[k].addr == b;
                assert(u[k].addr == b);
            }
        }
        let j = addr_index(u, a);
        assert(0 <= j < u.len() && u[j].addr == a);
        if j < t.len() {
            assert(has_addr(t, a));
        }
        assert(j == t.len());
    }
}

/// Counter exactness: counting `n` packets toward a present address raises
/// exactly that record's counter by exactly `n` and changes nothing else, as
/// long as the counter stays below its ceiling.
pub proof fn lemma_counter_exactness(t: Seq<RecModel>, a: Addr, n: nat)
    requires
        uniq(t),
        has_addr(t, a),
        t[addr_index(t, a)].counter + n <= 0xFFFF_FFFF_FFFF_FFFFu64,
    ensures
        seq_bump_n(t, a, n) == t.update(
            addr_index(t, a),
            RecModel {
                addr: t[addr_index(t, a)].addr,
                hdr: t[addr_index(t, a)].hdr,
                counter: (t[addr_index(t, a)].counter + n) as u64,
            },
        ),
    decreases n,
{
    let i = addr_index(t, a);
    assert(0 <= i < t.len() && t[i].addr == a);
    if n == 0 {
        assert(seq_bump_n(t, a, n) =~= t.update(
            i,
            RecModel { addr: t[i].addr, hdr: t[i].hdr, counter: (t[i].counter + 0) as u64 },
        ));
    } else {
        lemma_counter_exactness(t, a, (n - 1) as nat);
        let u = seq_bump_n(t, a, (n - 1) as nat);
        assert(u == t.update(
            i,
            RecModel { addr: t[i].addr, hdr: t[i].hdr, counter: (t[i].counter + n - 1) as u64 },
        ));
        assert(u[i].addr == a);
        let j = addr_index(u, a);
        assert(0 <= j < u.len() && u[j].addr == a);
        if j != i {
            assert(t[j].addr == a);
        }
        assert(j == i);
        assert(seq_bump(u, a) =~= t.update(
            i,
            RecModel { addr: t[i].addr, hdr: t[i].hdr, counter: (t[i].counter + n) as u64 },
        ));
    }
}

/// Some pair carries key `a`.
pub open spec fn key_in(ps: Seq<(Addr, Seq<u8>)>, a: Addr) -> bool {
    exists|k: int| 0 <= k < ps.len() && ps[k].0 == a
}

/// The header of the last pair carrying key `a` (the one that wins when the
/// same address is configured more than once).
pub open spec fn last_hdr(ps: Seq<(Addr, Seq<u8>)>, a: Addr) -> Seq<u8>
    decreases ps.len(),
{
    if ps.len() == 0 {
        Seq::empty()
    } else if ps.last().0 == a {
        ps.last().1
    } else {
        last_hdr(ps.drop_last(), a)
    }
}

/// The table after a bulk load: every (address, header) pair upserted in
/// order.
pub open spec fn seq_load(t: Seq<RecModel>, ps: Seq<(Addr, Seq<u8>)>) -> Seq<RecModel>
    decreases ps.len(),
{
    if ps.len() == 0 {
        t
    } else {
        seq_load(seq_upsert(t, ps[0].0, ps[0].1), ps.drop_first())
    }
}

/// A key that occurs past the front keeps its winning header when the front
/// pair is dropped.
proof fn lemma_last_hdr_tail(ps: Seq<(Addr, Seq<u8>)>, a: Addr)
    requires
        ps.len() >= 1,
        key_in(ps.drop_first(), a),
    ensures
        last_hdr(ps, a) == last_hdr(ps.drop_first(), a),
    decreases ps.len(),
{
    let ps1 = ps.drop_first();
    assert(ps1.len() >= 1);
    assert(ps.len() >= 2);
    assert(ps1.last() == ps.last());
    if ps.last().0 != a {
        assert(ps1.drop_last() =~= ps.drop_last().drop_first());
        let k = choose|k: int| 0 <= k < ps1.len() && ps1[k].0 == a;
        assert(k < ps1.len() - 1);
        assert(ps1.drop_last()[k].0 == a);
        assert(key_in(ps.drop_last().drop_first(), a));
        lemma_last_hdr_tail(ps.drop_last(), a);
    }
}

/// A key that occurs only at the front wins with the front pair's header.
proof fn lemma_last_hdr_head(ps: Seq<(Addr, Seq<u8>)>, a: Addr)
    requires
        ps.len() >= 1,
        ps[0].0 == a,
        !key_in(ps.drop_first(), a),
    ensures
        last_hdr(ps, a) == ps[0].1,
    decreases ps.len(),
{
    if ps.len() == 1 {
        assert(ps.last() == ps[0]);
    } else {
        let ps1 = ps.drop_first();
        if ps.last().0 == a {
            assert(ps1[ps1.len() - 1] == ps.last());
            assert(key_in(ps1, a));
        }
        assert(ps.last().0 != a);
        assert(ps.drop_last()[0] == ps[0]);
        assert forall|k: int| 0 <= k < ps.drop_last().drop_first().len() implies ps.drop_last()
            .drop_first()[k].0 != a by {
            assert(ps.drop_last().drop_first()[k] == ps1[k]);
        }
        lemma_last_hdr_head(ps.drop_last(), a);
    }
}

/// What a bulk load does to a table: uniqueness and address positions are
/// kept, exactly the loaded keys are added, a record whose address is not
/// loaded is untouched, and a record whose address is loaded holds the
/// winning header with a zero counter.
proof fn lemma_load(t: Seq<RecModel>, ps: Seq<(Addr, Seq<u8>)>)
    requires
        uniq(t),
    ensures
        uniq(seq_load(t, ps)),
        seq_load(t, ps).len() >= t.len(),
        forall|i: int| 0 <= i < t.len() ==> seq_load(t, ps)[i].addr == t[i].addr,
        forall|b: Addr| has_addr(seq_load(t, ps), b) <==> (has_addr(t, b) || key_in(ps, b)),
        (forall|k: int| 0 <= k < ps.len() ==> has_addr(t, ps[k].0)) ==> seq_load(t, ps).len()
            == t.len(),
        forall|i: int|
            0 <= i < t.len() && !key_in(ps, t[i].addr) ==> seq_load(t, ps)[i] == t[i],
        forall|i: int|
            0 <= i < seq_load(t, ps).len() && key_in(ps, seq_load(t, ps)[i].addr) ==> seq_load(
                t,
                ps,
            )[i] == (RecModel {
                addr: seq_load(t, ps)[i].addr,
                hdr: last_hdr(ps, seq_load(t, ps)[i].addr),
                counter: 0,
            }),
        forall|i: int|
            t.len() <= i < seq_load(t, ps).len() ==> key_in(ps, seq_load(t, ps)[i].addr),
    decreases ps.len(),
{
    let l = seq_load(t, ps);
    if ps.len() == 0 {
        assert(forall|b: Addr| key_in(ps, b) == false);
    } else {
        let a0 = ps[0].0;
        let h0 = ps[0].1;
        let t1 = seq_upsert(t, a0, h0);
        let ps1 = ps.drop_first();
        lemma_upsert(t, a0, h0);
        lemma_load(t1, ps1);
        assert(l == seq_load(t1, ps1));
        assert forall|b: Addr| key_in(ps, b) implies (b == a0 || key_in(ps1, b)) by {
            let k = choose|k: int| 0 <= k < ps.len() && ps[k].0 == b;
            if k > 0 {
                assert(ps1[k - 1].0 == b);
            }
        }
        assert forall|b: Addr| b == a0 || key_in(ps1, b) implies key_in(ps, b) by {
            if b == a0 {
                assert(ps[0].0 == b);
            } else {
                let k = choose|k: int| 0 <= k < ps1.len() && ps1[k].0 == b;
                assert(ps[k + 1].0 == b);
            }
        }
        // Loaded keys are exactly the old keys plus the keys of `ps`.
        assert(forall|b: Addr| has_addr(l, b) <==> (has_addr(t, b) || key_in(ps, b)));
        // When every key is already present the length is unchanged.
        if forall|k: int| 0 <= k < ps.len() ==> has_addr(t, ps[k].0) {
            assert(has_addr(t, a0));
            assert(t1.len() == t.len());
            assert forall|k: int| 0 <= k < ps1.len() implies has_addr(t1, ps1[k].0) by {
                assert(ps1[k] == ps[k + 1]);
                assert(has_addr(t, ps[k + 1].0));
            }
            assert(l.len() == t1.len());
        }
        // Records whose address is not loaded are untouched.
        assert forall|i: int| 0 <= i < t.len() && !key_in(ps, t[i].addr) implies l[i] == t[i] by {
            assert(t[i].addr != a0);
            assert(t1[i] == t[i]);
            assert(!key_in(ps1, t1[i].addr));
        }
        // Records whose address is loaded hold the winning header.
        assert forall|i: int| 0 <= i < l.len() && key_in(ps, l[i].addr) implies l[i] == (RecModel {
            addr: l[i].addr,
            hdr: last_hdr(ps, l[i].addr),
            counter: 0,
        }) by {
            let b = l[i].addr;
            if key_in(ps1, b) {
                lemma_last_hdr_tail(ps, b);
            } else {
                assert(b == a0);
                lemma_last_hdr_head(ps, b);
                let m = addr_index(t1, a0);
                assert(0 <= m < t1.len() && t1[m].addr == a0);
                assert(t1[m] == (RecModel { addr: a0, hdr: h0, counter: 0 }));
                assert(l[m].addr == t1[m].addr);
                if i != m {
                    assert(l[i].addr == l[m].addr);
                    assert(uniq(l));
                    if i < m {
                        assert(l[i].addr != l[m].addr);
                    } else {
                        assert(l[m].addr != l[i].addr);
                    }
                }
                assert(i == m);
                assert(!key_in(ps1, t1[m].addr));
                assert(l[m] == t1[m]);
            }
        }
        // Appended records carry loaded keys.
        assert forall|i: int| t.len() <= i < l.len() implies key_in(ps, l[i].addr) by {
            if i < t1.len() {
                assert(t1.len() == t.len() + 1);
                assert(i == t.len());
                assert(t1[i].addr == a0);
                assert(l[i].addr == t1[i].addr);
            } else {
                assert(key_in(ps1, l[i].addr));
            }
        }
    }
}

/// Reload idempotence: loading the same configuration pairs twice yields the
/// very same table as loading them once.
pub proof fn lemma_reload_idempotent(t: Seq<RecModel>, ps: Seq<(Addr, Seq<u8>)>)
    requires
        uniq(t),
    ensures
        seq_load(seq_load(t, ps), ps) == seq_load(t, ps),
{
    let u = seq_load(t, ps);
    lemma_load(t, ps);
    assert forall|k: int| 0 <= k < ps.len() implies has_addr(u, ps[k].0) by {
        assert(key_in(ps, ps[k].0));
    }
    lemma_load(u, ps);
    let w = seq_load(u, ps);
    assert(w.len() == u.len());
    assert forall|i: int| 0 <= i < u.len() implies w[i] == u[i] by {
        let b = u[i].addr;
        assert(w[i].addr == b);
        if key_in(ps, b) {
            assert(w[i] == (RecModel { addr: b, hdr: last_hdr(ps, b), counter: 0 }));
            assert(u[i] == (RecModel { addr: b, hdr: last_hdr(ps, b), counter: 0 }));
        } else {
            assert(w[i] == u[i]);
        }
    }
    assert(w =~= u);
}

/// The forwarding store for one address family. The store grows with the
/// configuration, so a control plane that plans for a thousand or more
/// entries per family is comfortably served.
pub struct FwdTable {
    recs: Vec<FwdRecord>,
}

impl View for FwdTable {
    type V = Seq<RecModel>;

    closed spec fn view(&self) -> Seq<RecModel> {
        self.recs@.map_values(|r: FwdRecord| r@)
    }
}

impl FwdTable {
    /// No two records share an address.
    pub open spec fn wf(self) -> bool {
        uniq(self@)
    }

    /// An empty table.
    pub fn new() -> (r: Self)
        ensures
            r@ == Seq::<RecModel>::empty(),
            r.wf(),
    {
        let r = FwdTable { recs: Vec::new() };
        proof {
            assert(r@ =~= Seq::<RecModel>::empty());
        }
        r
    }

    /// Number of records.
    pub fn len(&self) -> (r: usize)
        ensures
            r == self@.len(),
    {
        self.recs.len()
    }

    /// The position of the record for `a`, if one exists.
    fn position_of(&self, a: Addr) -> (r: Option<usize>)
        ensures
            match r {
                Some(i) => i < self@.len() && self@[i as int].addr == a,
                None => !has_addr(self@, a),
            },
    {
        let n = self.recs.len();
        let mut k: usize = 0;
        while k < n
            invariant
                k <= n,
                n == self@.len(),
                self@.len() == self.recs@.len(),
                forall|j: int| 0 <= j < k ==> self@[j].addr != a,
                forall|j: int| 0 <= j < n ==> self@[j] == self.recs@[j]@,
            decreases n - k,
        {
            if self.recs[k].addr == a {
                return Some(k);
            }
            k += 1;
        }
        None
    }

    /// Whether a mapping for `a` is configured.
    pub fn contains(&self, a: Addr) -> (r: bool)
        ensures
            r == has_addr(self@, a),
    {
        match self.position_of(a) {
            Some(_) => true,
            None => false,
        }
    }

    /// Upsert the mapping for `a`: overwrite an existing record (resetting
    /// its counter) or append a new one.
    pub fn upsert(&mut self, a: Addr, hdr: [u8; 44])
        requires
            old(self).wf(),
        ensures
            final(self)@ == seq_upsert(old(self)@, a, hdr@),
            final(self).wf(),
    {
        proof {
            lemma_upsert(self@, a, hdr@);
        }
        let rec = FwdRecord { addr: a, hdr, counter: 0 };
        match self.position_of(a) {
            Some(i) => {
                self.recs.set(i, rec);
                proof {
                    let ghost t = old(self)@;
                    let j = addr_index(t, a);
                    assert(0 <= j < t.len() && t[j].addr == a);
                    assert(j == i);
                    assert(self@ =~= seq_upsert(t, a, hdr@));
                }
            },
            None => {
                self.recs.push(rec);
                proof {
                    assert(self@ =~= seq_upsert(old(self)@, a, hdr@));
                }
            },
        }
    }

    /// Count one packet toward address `a`. Reports whether a record was
    /// found; a miss changes nothing.
    pub fn increment(&mut self, a: Addr) -> (hit: bool)
        requires
            old(self).wf(),
        ensures
            final(self)@ == seq_bump(old(self)@, a),
            final(self).wf(),
            hit == has_addr(old(self)@, a),
    {
        match self.position_of(a) {
            Some(i) => {
                let rec = self.recs[i];
                let nc: u64 = if rec.counter < 0xFFFF_FFFF_FFFF_FFFF {
                    rec.counter + 1
                } else {
                    rec.counter
                };
                self.recs.set(i, FwdRecord { counter: nc, ..rec });
                proof {
                    let ghost t = old(self)@;
                    let j = addr_index(t, a);
                    assert(0 <= j < t.len() && t[j].addr == a);
                    if j != i as int {
                        assert(t[i as int].addr == a && t[j].addr == a);
                    }
                    assert(j == i);
                    assert(self@ =~= seq_bump(t, a));
                    assert forall|x: int, y: int| 0 <= x < y < self@.len() implies self@[x].addr
                        != self@[y].addr by {
                        assert(self@[x].addr == t[x].addr && self@[y].addr == t[y].addr);
                    }
                }
                true
            },
            None => false,
        }
    }

    /// Exact-key lookup of the record for `a`; `None` means no mapping is
    /// configured for that destination.
    pub fn get(&self, a: Addr) -> (r: Option<&FwdRecord>)
        requires
            self.wf(),
        ensures
            match r {
                Some(rec) => has_addr(self@, a) && rec@ == self@[addr_index(self@, a)],
                None => !has_addr(self@, a),
            },
    {
        match self.position_of(a) {
            Some(i) => {
                proof {
                    let j = addr_index(self@, a);
                    assert(0 <= j < self@.len() && self@[j].addr == a);
                    assert(j == i);
                }
                Some(&self.recs[i])
            },
            None => None,
        }
    }

    /// A full read-only copy of the table for the monitoring projection:
    /// every (address, header, counter) record, in table order.
    pub fn snapshot(&self) -> (r: Vec<FwdRecord>)
        ensures
            r@.len() == self@.len(),
            forall|i: int| 0 <= i < self@.len() ==> r@[i]@ == self@[i],
    {
        let n = self.recs.len();
        let mut out: Vec<FwdRecord> = Vec::new();
        let mut k: usize = 0;
        while k < n
            invariant
                k <= n,
                n == self.recs@.len(),
                self@.len() == self.recs@.len(),
                out@.len() == k,
                forall|i: int| 0 <= i < k ==> out@[i]@ == self@[i],
                forall|i: int| 0 <= i < n ==> self@[i] == self.recs@[i]@,
            decreases n - k,
        {
            out.push(self.recs[k]);
            k += 1;
        }
        out
    }
}

} // verus!
