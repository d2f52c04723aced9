//! Per-sender table of recently seen request sequences, with the response that
//! answered each once it is known.
use vstd::prelude::*;
use crate::memory::keep_last;

verus! {

/// A sender's address as plain values: the IP (IPv4 addresses in the low 32 bits),
/// the port, and which family the address belongs to.
#[derive(Debug, Clone, Copy, PartialEq, Eq, Structural, Hash)]
pub struct PeerAddr {
    pub ip: u128,
    pub port: u16,
    pub is_v6: bool,
}

/// One remembered request sequence.
#[derive(Debug)]
pub struct DedupEntry {
    pub seq: u32,
    /// When the entry was made or last answered, in milliseconds of a monotonic clock.
    pub created_ms: u64,
    /// The response packet sent for this sequence, once there is one.
    pub cached_response: Option<Vec<u8>>,
}

/// What an entry holds.
pub struct DedupEntryView {
    pub seq: u32,
    pub created: u64,
    pub cached: Option<Seq<u8>>,
}

impl View for DedupEntry {
    type V = DedupEntryView;

    open spec fn view(&self) -> DedupEntryView {
        DedupEntryView {
            seq: self.seq,
            created: self.created_ms,
            cached: match self.cached_response {
                Some(b) => Some(b@),
                None => None,
            },
        }
    }
}

/// The entries of one sender, oldest first.
#[derive(Debug)]
struct PeerEntries {
    peer: PeerAddr,
    entries: Vec<DedupEntry>,
}

pub open spec fn entries_view(es: Seq<DedupEntry>) -> Seq<DedupEntryView> {
    es.map_values(|e: DedupEntry| e@)
}

/// The entries that a list of per-sender tables holds for `p` (none when `p` has no table).
pub open spec fn entries_of(ps: Seq<(PeerAddr, Seq<DedupEntryView>)>, p: PeerAddr) -> Seq<DedupEntryView>
    decreases ps.len(),
{
    if ps.len() == 0 {
        Seq::empty()
    } else if ps.last().0 == p {
        ps.last().1
    } else {
        entries_of(ps.drop_last(), p)
    }
}

/// Index of the entry for `seq`, or -1.
pub open spec fn position(es: Seq<DedupEntryView>, seq: u32) -> int
    decreases es.len(),
{
    if es.len() == 0 {
        -1
    } else if es.last().seq == seq {
        es.len() - 1
    } else {
        position(es.drop_last(), seq)
    }
}

/// Entries ordered by age, oldest first.
pub open spec fn sorted_by_age(es: Seq<DedupEntryView>) -> bool {
    forall|i: int, j: int| 0 <= i < j < es.len() ==> es[i].created <= es[j].created
}

/// No sequence appears twice.
pub open spec fn unique_seqs(es: Seq<DedupEntryView>) -> bool {
    forall|i: int, j: int| 0 <= i < j < es.len() ==> es[i].seq != es[j].seq
}

pub open spec fn unique_peers(ps: Seq<(PeerAddr, Seq<DedupEntryView>)>) -> bool {
    forall|i: int, j: int| 0 <= i < j < ps.len() ==> ps[i].0 != ps[j].0
}

/// A sender's entries as the table keeps them: unique by sequence, oldest first, none
/// newer than the clock, and no more than the capacity (one, when the capacity is zero).
pub open spec fn sender_ok(es: Seq<DedupEntryView>, cap: nat, clock: u64) -> bool {
    &&& unique_seqs(es)
    &&& sorted_by_age(es)
    &&& forall|k: int| 0 <= k < es.len() ==> es[k].created <= clock
    &&& es.len() <= if cap == 0 { 1 } else { cap }
}

/// A sender's entries after a new sequence is accepted at time `t`: when the table is
/// at capacity, the oldest entry leaves first.
pub open spec fn peer_insert(es: Seq<DedupEntryView>, seq: u32, t: u64, cap: nat) -> Seq<DedupEntryView> {
    let kept = if es.len() > 0 && es.len() >= cap { es.drop_first() } else { es };
    kept.push(DedupEntryView { seq, created: t, cached: None })
}

/// A sender's entries after the response for an entry at `pos` is stored at time `t`:
/// the entry becomes the newest and holds the response.
pub open spec fn peer_record(es: Seq<DedupEntryView>, pos: int, bytes: Seq<u8>, t: u64) -> Seq<DedupEntryView> {
    es.remove(pos).push(DedupEntryView { seq: es[pos].seq, created: t, cached: Some(bytes) })
}

/// An entry younger than the time to live at time `t`.
pub open spec fn is_fresh(e: DedupEntryView, t: u64, ttl: u64) -> bool {
    (t as int - e.created as int) < ttl as int
}

/// The entries that are still fresh at time `t`.
pub open spec fn fresh_at(t: u64, ttl: u64) -> spec_fn(DedupEntryView) -> bool {
    |e: DedupEntryView| is_fresh(e, t, ttl)
}

/// What a request for a remembered or a new sequence leads to.
#[derive(Debug)]
pub enum DedupOutcome {
    /// Answered before: send these bytes again.
    Replay(Vec<u8>),
    /// Still being answered: acknowledge again.
    InFlight,
    /// New: it is now remembered and goes to the agent.
    Accepted,
}

/// The deduplication table of the transport.
#[derive(Debug)]
pub struct DedupTable {
    peers: Vec<PeerEntries>,
    capacity: usize,
    ttl_ms: u64,
    clock_ms: u64,
}

proof fn lemma_entries_of_at(ps: Seq<(PeerAddr, Seq<DedupEntryView>)>, i: int, p: PeerAddr)
    requires
        unique_peers(ps),
        0 <= i < ps.len(),
        ps[i].0 == p,
    ensures
        entries_of(ps, p) == ps[i].1,
    decreases ps.len(),
{
    if i < ps.len() - 1 {
        assert(ps.last().0 != p);
        lemma_entries_of_at(ps.drop_last(), i, p);
    }
}

proof fn lemma_entries_of_absent(ps: Seq<(PeerAddr, Seq<DedupEntryView>)>, p: PeerAddr)
    requires
        forall|i: int| 0 <= i < ps.len() ==> ps[i].0 != p,
    ensures
        entries_of(ps, p) == Seq::<DedupEntryView>::empty(),
    decreases ps.len(),
{
    if ps.len() > 0 {
        assert(ps.last().0 != p);
        lemma_entries_of_absent(ps.drop_last(), p);
    }
}

/// What a table holds for `q` is what it holds at `q`'s index, or nothing.
proof fn lemma_entries_of(ps: Seq<(PeerAddr, Seq<DedupEntryView>)>, q: PeerAddr)
    requires
        unique_peers(ps),
    ensures
        (exists|i: int| 0 <= i < ps.len() && ps[i].0 == q) || entries_of(ps, q) == Seq::<DedupEntryView>::empty(),
        forall|i: int| 0 <= i < ps.len() && ps[i].0 == q ==> entries_of(ps, q) == ps[i].1,
{
    assert forall|i: int| 0 <= i < ps.len() && ps[i].0 == q implies entries_of(ps, q) == ps[i].1 by {
        lemma_entries_of_at(ps, i, q);
    }
    if !(exists|i: int| 0 <= i < ps.len() && ps[i].0 == q) {
        lemma_entries_of_absent(ps, q);
    }
}

proof fn lemma_position(es: Seq<DedupEntryView>, seq: u32)
    requires
        unique_seqs(es),
    ensures
        -1 <= position(es, seq) < es.len(),
        position(es, seq) >= 0 ==> es[position(es, seq)].seq == seq,
        position(es, seq) < 0 ==> forall|i: int| 0 <= i < es.len() ==> es[i].seq != seq,
    decreases es.len(),
{
    if es.len() > 0 && es.last().seq != seq {
        lemma_position(es.drop_last(), seq);
        assert forall|i: int| 0 <= i < es.len() - 1 implies es[i] == es.drop_last()[i] by {}
    }
}

proof fn lemma_position_at(es: Seq<DedupEntryView>, i: int)
    requires
        unique_seqs(es),
        0 <= i < es.len(),
    ensures
        position(es, es[i].seq) == i,
    decreases es.len(),
{
    if i < es.len() - 1 {
        lemma_position_at(es.drop_last(), i);
    }
}

proof fn lemma_filter_suffix(es: Seq<DedupEntryView>, k: int, t: u64, ttl: u64)
    requires
        0 <= k <= es.len(),
        forall|i: int| 0 <= i < k ==> !is_fresh(es[i], t, ttl),
        forall|i: int| k <= i < es.len() ==> is_fresh(es[i], t, ttl),
    ensures
        es.filter(fresh_at(t, ttl)) == es.subrange(k, es.len() as int),
    decreases es.len(),
{
    let f = fresh_at(t, ttl);
    reveal(Seq::filter);
    if es.len() == 0 {
        assert(es.subrange(k, 0) =~= es);
    } else if es.len() == k {
        lemma_filter_suffix(es.drop_last(), k - 1, t, ttl);
        assert(es.drop_last().subrange(k - 1, k - 1) =~= Seq::<DedupEntryView>::empty());
        assert(es.subrange(k, k) =~= Seq::<DedupEntryView>::empty());
        // Every entry is stale: nothing is kept.
        assert(!f(es.last()));
        lemma_filter_all_stale(es, t, ttl);
    } else {
        lemma_filter_suffix(es.drop_last(), k, t, ttl);
        assert(f(es.last()));
        assert(es.subrange(k, es.len() as int) =~= es.drop_last().subrange(k, es.len() - 1).push(es.last()));
    }
}

proof fn lemma_filter_all_stale(es: Seq<DedupEntryView>, t: u64, ttl: u64)
    requires
        forall|i: int| 0 <= i < es.len() ==> !is_fresh(es[i], t, ttl),
    ensures
        es.filter(fresh_at(t, ttl)) == Seq::<DedupEntryView>::empty(),
    decreases es.len(),
{
    reveal(Seq::filter);
    if es.len() > 0 {
        lemma_filter_all_stale(es.drop_last(), t, ttl);
        assert(!fresh_at(t, ttl)(es.last()));
    }
}

proof fn lemma_entries_of_filtered(
    ps: Seq<(PeerAddr, Seq<DedupEntryView>)>,
    qs: Seq<(PeerAddr, Seq<DedupEntryView>)>,
    p: PeerAddr,
    t: u64,
    ttl: u64,
)
    requires
        ps.len() == qs.len(),
        forall|j: int| 0 <= j < ps.len() ==> qs[j].0 == ps[j].0
            && qs[j].1 == ps[j].1.filter(fresh_at(t, ttl)),
    ensures
        entries_of(qs, p) == entries_of(ps, p).filter(fresh_at(t, ttl)),
    decreases ps.len(),
{
    if ps.len() > 0 {
        lemma_entries_of_filtered(ps.drop_last(), qs.drop_last(), p, t, ttl);
    }
}

fn find_seq(entries: &Vec<DedupEntry>, seq: u32) -> (r: Option<usize>)
    ensures
        r is Some ==> r->0 < entries@.len() && entries@[r->0 as int].seq == seq,
        r is None ==> forall|i: int| 0 <= i < entries@.len() ==> entries@[i].seq != seq,
{
    let mut i: usize = 0;
    while i < entries.len()
        invariant
            i <= entries@.len(),
            forall|j: int| 0 <= j < i ==> entries@[j].seq != seq,
        decreases entries@.len() - i,
    {
        if entries[i].seq == seq {
            return Some(i);
        }
        i = i + 1;
    }
    None
}

/// A copy of a byte string.
pub fn copy_bytes(b: &Vec<u8>) -> (r: Vec<u8>)
    ensures
        r@ == b@,
{
    let mut r: Vec<u8> = Vec::new();
    let mut i: usize = 0;
    while i < b.len()
        invariant
            i <= b@.len(),
            r@ == b@.subrange(0, i as int),
        decreases b@.len() - i,
    {
        r.push(b[i]);
        i = i + 1;
        assert(r@ =~= b@.subrange(0, i as int));
    }
    assert(b@.subrange(0, i as int) =~= b@);
    r
}

/// Drops the entries at the front that have reached the time to live at `t`.
fn drop_stale_prefix(entries: Vec<DedupEntry>, t: u64, ttl: u64) -> (r: Vec<DedupEntry>)
    requires
        sorted_by_age(entries_view(entries@)),
        unique_seqs(entries_view(entries@)),
        forall|m: int| 0 <= m < entries@.len() ==> entries@[m].created_ms <= t,
    ensures
        entries_view(r@) == entries_view(entries@).filter(fresh_at(t, ttl)),
        sorted_by_age(entries_view(r@)),
        unique_seqs(entries_view(r@)),
        forall|m: int| 0 <= m < r@.len() ==> r@[m].created_ms <= t,
{
    let ghost es = entries_view(entries@);
    let mut v = entries;
    let ghost k: int = 0;
    while v.len() > 0 && t - v[0].created_ms >= ttl
        invariant
            es == entries_view(entries@),
            es.len() == entries@.len(),
            0 <= k <= es.len(),
            v@ == entries@.subrange(k, entries@.len() as int),
            forall|i: int| 0 <= i < k ==> !is_fresh(es[i], t, ttl),
            forall|m: int| 0 <= m < entries@.len() ==> entries@[m].created_ms <= t,
        decreases v@.len(),
    {
        assert(v@[0] == entries@[k]);
        assert(es[k] == v@[0]@);
        v.remove(0);
        proof {
            k = k + 1;
        }
        assert(v@ =~= entries@.subrange(k, entries@.len() as int));
    }
    proof {
        assert forall|i: int| k <= i < es.len() implies is_fresh(es[i], t, ttl) by {
            assert(v@[0] == entries@[k]);
            assert(es[k] == v@[0]@);
            assert(es[i] == entries@[i]@);
            assert(es[k].created <= es[i].created);
        }
        lemma_filter_suffix(es, k, t, ttl);
        assert(entries_view(v@) =~= es.subrange(k, es.len() as int));
    }
    v
}

impl DedupTable {
    spec fn peer_view(pe: PeerEntries) -> (PeerAddr, Seq<DedupEntryView>) {
        (pe.peer, entries_view(pe.entries@))
    }

    /// The per-sender tables.
    pub closed spec fn peers_view(&self) -> Seq<(PeerAddr, Seq<DedupEntryView>)> {
        self.peers@.map_values(|pe: PeerEntries| DedupTable::peer_view(pe))
    }

    /// The entries remembered for sender `p`, oldest first.
    pub open spec fn of(&self, p: PeerAddr) -> Seq<DedupEntryView> {
        entries_of(self.peers_view(), p)
    }

    /// Most entries a sender's table holds.
    pub closed spec fn capacity(&self) -> nat {
        self.capacity as nat
    }

    /// How long an entry is remembered, in milliseconds.
    pub closed spec fn ttl(&self) -> u64 {
        self.ttl_ms
    }

    /// The latest time the table has been told of.
    pub closed spec fn clock(&self) -> u64 {
        self.clock_ms
    }

    /// Senders are unique; each sender's entries are unique by sequence, oldest first,
    /// and none is newer than the clock.
    pub closed spec fn wf(&self) -> bool {
        &&& unique_peers(self.peers_view())
        &&& forall|i: int| 0 <= i < self.peers@.len()
            ==> sender_ok(#[trigger] entries_view(self.peers@[i].entries@), self.capacity as nat, self.clock_ms)
    }

    /// What a well-formed table holds for each sender: unique sequences, oldest first,
    /// none newer than the clock, within the capacity.
    pub proof fn lemma_senders_ok(&self, p: PeerAddr)
        requires
            self.wf(),
        ensures
            sender_ok(self.of(p), self.capacity(), self.clock()),
    {
        let ps = self.peers_view();
        lemma_entries_of(ps, p);
        if exists|i: int| 0 <= i < ps.len() && ps[i].0 == p {
            let i = choose|i: int| 0 <= i < ps.len() && ps[i].0 == p;
            assert(ps[i].1 == entries_view(self.peers@[i].entries@));
        }
    }

    /// An empty table.
    pub fn new(capacity: usize, ttl_ms: u64) -> (r: DedupTable)
        ensures
            r.wf(),
            r.capacity() == capacity,
            r.ttl() == ttl_ms,
            r.clock() == 0,
            forall|p: PeerAddr| r.of(p) == Seq::<DedupEntryView>::empty(),
    {
        let r = DedupTable { peers: Vec::new(), capacity, ttl_ms, clock_ms: 0 };
        assert(r.peers_view() =~= Seq::<(PeerAddr, Seq<DedupEntryView>)>::empty());
        r
    }

    fn find_peer(&self, peer: PeerAddr) -> (r: Option<usize>)
        requires
            self.wf(),
        ensures
            r is Some ==> r->0 < self.peers@.len() && self.peers@[r->0 as int].peer == peer
                && self.of(peer) == entries_view(self.peers@[r->0 as int].entries@),
            r is None ==> (forall|i: int| 0 <= i < self.peers@.len() ==> self.peers@[i].peer != peer)
                && self.of(peer) == Seq::<DedupEntryView>::empty(),
    {
        let mut i: usize = 0;
        while i < self.peers.len()
            invariant
                self.wf(),
                i <= self.peers@.len(),
                forall|j: int| 0 <= j < i ==> self.peers@[j].peer != peer,
            decreases self.peers@.len() - i,
        {
            if self.peers[i].peer == peer {
                proof {
                    assert(self.peers_view()[i as int].0 == peer);
                    lemma_entries_of_at(self.peers_view(), i as int, peer);
                }
                return Some(i);
            }
            i = i + 1;
        }
        proof {
            assert forall|j: int| 0 <= j < self.peers_view().len() implies self.peers_view()[j].0 != peer by {
                assert(self.peers_view()[j].0 == self.peers@[j].peer);
            }
            lemma_entries_of_absent(self.peers_view(), peer);
        }
        None
    }

    /// How many sequences are remembered for `peer`.
    pub fn entry_count(&self, peer: PeerAddr) -> (r: usize)
        requires
            self.wf(),
        ensures
            r == self.of(peer).len(),
    {
        match self.find_peer(peer) {
            Some(i) => self.peers[i].entries.len(),
            None => 0,
        }
    }

    /// Whether `seq` is remembered for `peer`.
    pub fn contains(&self, peer: PeerAddr, seq: u32) -> (r: bool)
        requires
            self.wf(),
        ensures
            r <==> position(self.of(peer), seq) >= 0,
    {
        match self.find_peer(peer) {
            Some(i) => {
                proof {
                    lemma_position(self.of(peer), seq);
                }
                match find_seq(&self.peers[i].entries, seq) {
                    Some(k) => {
                        proof {
                            lemma_position_at(self.of(peer), k as int);
                        }
                        true
                    },
                    None => false,
                }
            },
            None => false,
        }
    }

    /// How many senders have remembered sequences.
    pub fn peer_count(&self) -> (r: usize)
        ensures
            r == self.peers_view().len(),
    {
        self.peers.len()
    }

    /// Looks up a sequence and, for a new one, remembers it. Time `now` is taken as at
    /// least the latest time the table has seen.
    pub fn on_request(&mut self, peer: PeerAddr, seq: u32, now: u64) -> (r: DedupOutcome)
        requires
            old(self).wf(),
        ensures
            final(self).wf(),
            final(self).capacity() == old(self).capacity(),
            final(self).ttl() == old(self).ttl(),
            final(self).clock() == if now > old(self).clock() { now } else { old(self).clock() },
            sender_ok(old(self).of(peer), old(self).capacity(), old(self).clock()),
            sender_ok(final(self).of(peer), final(self).capacity(), final(self).clock()),
            position(old(self).of(peer), seq) >= 0 ==> {
                let e = old(self).of(peer)[position(old(self).of(peer), seq)];
                &&& (e.cached is Some <==> r is Replay)
                &&& (e.cached is None <==> r is InFlight)
                &&& (r is Replay ==> r->Replay_0@ == e.cached->0)
                &&& forall|q: PeerAddr| #[trigger] final(self).of(q) == old(self).of(q)
            },
            position(old(self).of(peer), seq) < 0 ==> {
                &&& r is Accepted
                &&& final(self).of(peer) == peer_insert(old(self).of(peer), seq, final(self).clock(), old(self).capacity())
                &&& forall|q: PeerAddr| q != peer ==> #[trigger] final(self).of(q) == old(self).of(q)
            },
    {
        proof {
            self.lemma_senders_ok(peer);
        }
        let r = self.on_request_inner(peer, seq, now);
        proof {
            self.lemma_senders_ok(peer);
        }
        r
    }

    fn on_request_inner(&mut self, peer: PeerAddr, seq: u32, now: u64) -> (r: DedupOutcome)
        requires
            old(self).wf(),
        ensures
            final(self).wf(),
            final(self).capacity() == old(self).capacity(),
            final(self).ttl() == old(self).ttl(),
            final(self).clock() == if now > old(self).clock() { now } else { old(self).clock() },
            position(old(self).of(peer), seq) >= 0 ==> {
                let e = old(self).of(peer)[position(old(self).of(peer), seq)];
                &&& (e.cached is Some <==> r is Replay)
                &&& (e.cached is None <==> r is InFlight)
                &&& (r is Replay ==> r->Replay_0@ == e.cached->0)
                &&& forall|q: PeerAddr| #[trigger] final(self).of(q) == old(self).of(q)
            },
            position(old(self).of(peer), seq) < 0 ==> {
                &&& r is Accepted
                &&& final(self).of(peer) == peer_insert(old(self).of(peer), seq, final(self).clock(), old(self).capacity())
                &&& forall|q: PeerAddr| q != peer ==> #[trigger] final(self).of(q) == old(self).of(q)
            },
    {
        let t = if now > self.clock_ms { now } else { self.clock_ms };
        self.clock_ms = t;
        proof {
            assert(self.peers_view() == old(self).peers_view());
        }
        match self.find_peer(peer) {
            Some(i) => {
                let ghost es = self.of(peer);
                proof {
                    assert(entries_view(self.peers@[i as int].entries@) == es);
                    lemma_position(es, seq);
                }
                match find_seq(&self.peers[i].entries, seq) {
                    Some(k) => {
                        proof {
                            lemma_position_at(es, k as int);
                        }
                        match &self.peers[i].entries[k].cached_response {
                            Some(b) => {
                                assert(es[k as int].cached == Some(b@));
                                DedupOutcome::Replay(copy_bytes(b))
                            },
                            None => DedupOutcome::InFlight,
                        }
                    },
                    None => {
                        let ghost ps = self.peers_view();
                        let mut pe = self.peers.remove(i);
                        let ghost before = entries_view(pe.entries@);
                        if pe.entries.len() > 0 && pe.entries.len() >= self.capacity {
                            pe.entries.remove(0);
                        }
                        pe.entries.push(DedupEntry { seq, created_ms: t, cached_response: None });
                        self.peers.insert(i, pe);
                        proof {
                            let after = entries_view(pe.entries@);
                            let ins = peer_insert(before, seq, t, self.capacity as nat);
                            assert(after =~= ins);
                            assert(self.peers@ =~= old(self).peers@.update(i as int, pe));
                            let ps2 = self.peers_view();
                            assert(ps2 =~= ps.update(i as int, (peer, after)));
                            assert(ps[i as int].0 == peer);
                            assert forall|j: int| 0 <= j < ps2.len() implies ps2[j].0 == ps[j].0 by {}
                            assert(unique_peers(ps2));
                            assert forall|j: int| 0 <= j < self.peers@.len() implies sender_ok(#[trigger] entries_view(self.peers@[j].entries@), self.capacity as nat, self.clock_ms) by {
                                if j != i {
                                    assert(self.peers@[j] == old(self).peers@[j]);
                                } else {
                                    assert(forall|m: int| 0 <= m < before.len() ==> before[m].seq != seq);
                                }
                            }
                            lemma_entries_of_at(ps2, i as int, peer);
                            assert forall|q: PeerAddr| q != peer implies #[trigger] entries_of(ps2, q) == entries_of(ps, q) by {
                                lemma_entries_of(ps, q);
                                lemma_entries_of(ps2, q);
                                if exists|j: int| 0 <= j < ps.len() && ps[j].0 == q {
                                    let j = choose|j: int| 0 <= j < ps.len() && ps[j].0 == q;
                                    assert(ps2[j] == ps[j]);
                                } else if exists|j: int| 0 <= j < ps2.len() && ps2[j].0 == q {
                                    let j = choose|j: int| 0 <= j < ps2.len() && ps2[j].0 == q;
                                    assert(ps2[j] == ps[j]);
                                }
                            }
                        }
                        DedupOutcome::Accepted
                    },
                }
            },
            None => {
                let ghost ps = self.peers_view();
                let mut entries: Vec<DedupEntry> = Vec::new();
                entries.push(DedupEntry { seq, created_ms: t, cached_response: None });
                self.peers.push(PeerEntries { peer, entries });
                proof {
                    let ps2 = self.peers_view();
                    let after = entries_view(entries@);
                    assert(ps2 =~= ps.push((peer, after)));
                    assert(entries_of(ps2, peer) == after);
                    assert forall|q: PeerAddr| q != peer implies #[trigger] entries_of(ps2, q) == entries_of(ps, q) by {
                        assert(ps2.last().0 == peer);
                        assert(ps2.drop_last() =~= ps);
                    }
                    assert(after =~= peer_insert(Seq::<DedupEntryView>::empty(), seq, t, self.capacity as nat));
                    assert forall|j: int| 0 <= j < self.peers@.len() implies sender_ok(#[trigger] entries_view(self.peers@[j].entries@), self.capacity as nat, self.clock_ms) by {
                        if j < ps.len() {
                            assert(self.peers@[j] == old(self).peers@[j]);
                        }
                    }
                    assert forall|a: int, b: int| 0 <= a < b < ps2.len() implies ps2[a].0 != ps2[b].0 by {
                        if b == ps.len() {
                            assert(ps2[a] == ps[a]);
                        }
                    }
                }
                DedupOutcome::Accepted
            },
        }
    }
    /// Stores the response sent for a remembered sequence; the entry becomes the newest.
    /// A sequence that is no longer remembered is left out.
    pub fn record_response(&mut self, peer: PeerAddr, seq: u32, response: Vec<u8>, now: u64)
        requires
            old(self).wf(),
        ensures
            final(self).wf(),
            final(self).capacity() == old(self).capacity(),
            final(self).ttl() == old(self).ttl(),
            final(self).clock() == if now > old(self).clock() { now } else { old(self).clock() },
            position(old(self).of(peer), seq) >= 0 ==> final(self).of(peer) == peer_record(
                old(self).of(peer),
                position(old(self).of(peer), seq),
                response@,
                final(self).clock(),
            ),
            position(old(self).of(peer), seq) < 0 ==> final(self).of(peer) == old(self).of(peer),
            forall|q: PeerAddr| q != peer ==> #[trigger] final(self).of(q) == old(self).of(q),
    {
        let t = if now > self.clock_ms { now } else { self.clock_ms };
        self.clock_ms = t;
        proof {
            assert(self.peers_view() == old(self).peers_view());
        }
        if let Some(i) = self.find_peer(peer) {
            let ghost es = self.of(peer);
            proof {
                lemma_position(es, seq);
            }
            if let Some(k) = find_seq(&self.peers[i].entries, seq) {
                proof {
                    lemma_position_at(es, k as int);
                }
                let ghost ps = self.peers_view();
                let mut pe = self.peers.remove(i);
                let ghost before = entries_view(pe.entries@);
                pe.entries.remove(k);
                pe.entries.push(DedupEntry { seq, created_ms: t, cached_response: Some(response) });
                self.peers.insert(i, pe);
                proof {
                    let after = entries_view(pe.entries@);
                    assert(after =~= peer_record(before, k as int, response@, t));
                    assert(self.peers@ =~= old(self).peers@.update(i as int, pe));
                    let ps2 = self.peers_view();
                    assert(ps2 =~= ps.update(i as int, (peer, after)));
                    assert(ps[i as int].0 == peer);
                    assert forall|j: int| 0 <= j < ps2.len() implies ps2[j].0 == ps[j].0 by {}
                    assert(unique_peers(ps2));
                    assert forall|j: int| 0 <= j < self.peers@.len() implies sender_ok(#[trigger] entries_view(self.peers@[j].entries@), self.capacity as nat, self.clock_ms) by {
                        if j != i {
                            assert(self.peers@[j] == old(self).peers@[j]);
                        } else {
                            let rem = before.remove(k as int);
                            assert forall|m: int| 0 <= m < rem.len() implies rem[m].seq != seq by {
                                if m < k {
                                    assert(rem[m] == before[m]);
                                } else {
                                    assert(rem[m] == before[m + 1]);
                                }
                            }
                            assert forall|a: int, b: int| 0 <= a < b < rem.len() implies rem[a].created <= rem[b].created
                                && rem[a].seq != rem[b].seq by {
                                let a2 = if a < k { a } else { a + 1 };
                                let b2 = if b < k { b } else { b + 1 };
                                assert(rem[a] == before[a2]);
                                assert(rem[b] == before[b2]);
                            }
                            assert forall|m: int| 0 <= m < rem.len() implies rem[m].created <= self.clock_ms by {
                                let m2 = if m < k { m } else { m + 1 };
                                assert(rem[m] == before[m2]);
                            }
                            assert(after == rem.push(DedupEntryView { seq, created: t, cached: Some(response@) }));
                        }
                    }
                    lemma_entries_of_at(ps2, i as int, peer);
                    assert forall|q: PeerAddr| q != peer implies #[trigger] entries_of(ps2, q) == entries_of(ps, q) by {
                        lemma_entries_of(ps, q);
                        lemma_entries_of(ps2, q);
                        if exists|j: int| 0 <= j < ps.len() && ps[j].0 == q {
                            let j = choose|j: int| 0 <= j < ps.len() && ps[j].0 == q;
                            assert(ps2[j] == ps[j]);
                        } else if exists|j: int| 0 <= j < ps2.len() && ps2[j].0 == q {
                            let j = choose|j: int| 0 <= j < ps2.len() && ps2[j].0 == q;
                            assert(ps2[j] == ps[j]);
                        }
                    }
                }
            }
        }
    }

    /// Forgets every entry that has reached the time to live, and every sender left
    /// without entries.
    pub fn sweep(&mut self, now: u64)
        requires
            old(self).wf(),
        ensures
            final(self).wf(),
            final(self).capacity() == old(self).capacity(),
            final(self).ttl() == old(self).ttl(),
            final(self).clock() == if now > old(self).clock() { now } else { old(self).clock() },
            forall|q: PeerAddr| #[trigger] final(self).of(q) == old(self).of(q).filter(fresh_at(final(self).clock(), old(self).ttl())),
            forall|i: int| 0 <= i < final(self).peers_view().len() ==> (#[trigger] final(self).peers_view()[i]).1.len() > 0,
    {
        let t = if now > self.clock_ms { now } else { self.clock_ms };
        self.clock_ms = t;
        let ttl = self.ttl_ms;
        let ghost ps0 = self.peers_view();
        proof {
            assert(ps0 == old(self).peers_view());
        }
        let mut i: usize = 0;
        while i < self.peers.len()
            invariant
                self.clock_ms == t,
                self.ttl_ms == ttl,
                self.capacity == old(self).capacity,
                i <= self.peers@.len(),
                self.peers@.len() == ps0.len(),
                self.wf(),
                forall|j: int| 0 <= j < i ==> #[trigger] self.peers_view()[j] == (ps0[j].0, ps0[j].1.filter(fresh_at(t, ttl))),
                forall|j: int| i <= j < ps0.len() ==> #[trigger] self.peers_view()[j] == ps0[j],
            decreases self.peers@.len() - i,
        {
            let ghost ps = self.peers_view();
            let ghost peers_before = self.peers@;
            let ghost before = entries_view(self.peers@[i as int].entries@);
            proof {
                assert(ps[i as int] == ps0[i as int]);
                assert(before == ps[i as int].1);
                assert(unique_seqs(before) && sorted_by_age(before));
                assert forall|m: int| 0 <= m < self.peers@[i as int].entries@.len()
                    implies self.peers@[i as int].entries@[m].created_ms <= t by {
                    assert(before[m] == self.peers@[i as int].entries@[m]@);
                }
            }
            let mut pe = self.peers.remove(i);
            pe.entries = drop_stale_prefix(pe.entries, t, ttl);
            self.peers.insert(i, pe);
            proof {
                let after = entries_view(pe.entries@);
                let ps2 = self.peers_view();
                assert(ps2 =~= ps.update(i as int, (pe.peer, after)));
                assert forall|j: int| 0 <= j < ps2.len() implies ps2[j].0 == ps[j].0 by {}
                assert(unique_peers(ps2));
                assert forall|j: int| 0 <= j < self.peers@.len() implies sender_ok(#[trigger] entries_view(self.peers@[j].entries@), self.capacity as nat, self.clock_ms) by {
                    if j != i {
                        assert(self.peers@[j] == peers_before[j]);
                        assert(entries_view(peers_before[j].entries@) == entries_view(self.peers@[j].entries@));
                    } else {
                        assert forall|m: int| 0 <= m < after.len() implies after[m].created <= self.clock_ms by {
                            assert(after[m] == pe.entries@[m]@);
                        }
                    }
                }
            }
            i = i + 1;
        }
        let ghost ps1 = self.peers_view();
        proof {
            assert forall|q: PeerAddr| #[trigger] entries_of(ps1, q) == entries_of(ps0, q).filter(fresh_at(t, ttl)) by {
                lemma_entries_of_filtered(ps0, ps1, q, t, ttl);
            }
        }
        let mut i: usize = 0;
        while i < self.peers.len()
            invariant
                self.clock_ms == t,
                self.ttl_ms == ttl,
                self.capacity == old(self).capacity,
                i <= self.peers@.len(),
                self.wf(),
                forall|q: PeerAddr| #[trigger] entries_of(self.peers_view(), q) == entries_of(ps1, q),
                forall|j: int| 0 <= j < i ==> (#[trigger] self.peers_view()[j]).1.len() > 0,
            decreases self.peers@.len() - i,
        {
            if self.peers[i].entries.len() == 0 {
                let ghost ps = self.peers_view();
                let _ = self.peers.remove(i);
                proof {
                    let ps2 = self.peers_view();
                    assert(ps2 =~= ps.remove(i as int));
                    assert(unique_peers(ps2));
                    assert forall|q: PeerAddr| #[trigger] entries_of(ps2, q) == entries_of(ps, q) by {
                        lemma_entries_of(ps, q);
                        lemma_entries_of(ps2, q);
                        if exists|j: int| 0 <= j < ps2.len() && ps2[j].0 == q {
                            let j = choose|j: int| 0 <= j < ps2.len() && ps2[j].0 == q;
                            if j < i {
                                assert(ps2[j] == ps[j]);
                            } else {
                                assert(ps2[j] == ps[j + 1]);
                            }
                        } else if exists|j: int| 0 <= j < ps.len() && ps[j].0 == q {
                            let j = choose|j: int| 0 <= j < ps.len() && ps[j].0 == q;
                            if j < i {
                                assert(ps2[j] == ps[j]);
                            } else if j > i {
                                assert(ps2[j - 1] == ps[j]);
                            } else {
                                assert(ps[j].1.len() == 0);
                                assert(ps[j].1 =~= Seq::<DedupEntryView>::empty());
                            }
                        }
                    }
                }
            } else {
                i = i + 1;
            }
        }
    }
}

/// The fresh entries that accepting `seqs` at `times` adds, in order.
pub open spec fn accepted_entries(seqs: Seq<u32>, times: Seq<u64>) -> Seq<DedupEntryView> {
    Seq::new(seqs.len(), |i: int| DedupEntryView { seq: seqs[i], created: times[i], cached: None })
}

/// A sender's entries after accepting each of `seqs` in turn, the i-th at `times[i]`.
pub open spec fn peer_after_inserts(es: Seq<DedupEntryView>, seqs: Seq<u32>, times: Seq<u64>, cap: nat) -> Seq<DedupEntryView>
    decreases seqs.len(),
{
    if seqs.len() == 0 || seqs.len() != times.len() {
        es
    } else {
        peer_insert(peer_after_inserts(es, seqs.drop_last(), times.drop_last(), cap), seqs.last(), times.last(), cap)
    }
}

/// Accepting new sequences from one sender keeps the most recent `cap` of them: once
/// more than `cap` have come, the sender's table holds exactly `cap` entries, and when
/// the entries were oldest first, none of those kept is older than any evicted.
pub proof fn lemma_capacity_eviction(es: Seq<DedupEntryView>, seqs: Seq<u32>, times: Seq<u64>, cap: nat)
    requires
        cap >= 1,
        es.len() <= cap,
        seqs.len() == times.len(),
    ensures
        peer_after_inserts(es, seqs, times, cap) == keep_last(es + accepted_entries(seqs, times), cap),
        peer_after_inserts(es, seqs, times, cap).len() <= cap,
        es.len() + seqs.len() >= cap ==> peer_after_inserts(es, seqs, times, cap).len() == cap,
        sorted_by_age(es + accepted_entries(seqs, times)) ==> forall|d: int, k: int|
            0 <= d < es.len() + seqs.len() - cap && 0 <= k < peer_after_inserts(es, seqs, times, cap).len()
            ==> #[trigger] (es + accepted_entries(seqs, times))[d].created <= #[trigger] peer_after_inserts(es, seqs, times, cap)[k].created,
    decreases seqs.len(),
{
    let all = es + accepted_entries(seqs, times);
    if seqs.len() == 0 {
        assert(all =~= es);
    } else {
        let prev_seqs = seqs.drop_last();
        let prev_times = times.drop_last();
        lemma_capacity_eviction(es, prev_seqs, prev_times, cap);
        let prev = peer_after_inserts(es, prev_seqs, prev_times, cap);
        let prev_all = es + accepted_entries(prev_seqs, prev_times);
        let new_e = DedupEntryView { seq: seqs.last(), created: times.last(), cached: None };
        assert(all =~= prev_all.push(new_e));
        if prev_all.len() >= cap {
            assert(prev.len() == cap);
            assert(peer_after_inserts(es, seqs, times, cap) =~= keep_last(all, cap));
        } else {
            assert(prev =~= prev_all);
            assert(peer_after_inserts(es, seqs, times, cap) =~= keep_last(all, cap));
        }
    }
    let res = peer_after_inserts(es, seqs, times, cap);
    if sorted_by_age(all) {
        assert forall|d: int, k: int|
            0 <= d < es.len() + seqs.len() - cap && 0 <= k < res.len()
            implies #[trigger] all[d].created <= #[trigger] res[k].created by {
            assert(res[k] == all[all.len() - cap + k]);
        }
    }
}

/// Once a request has been accepted and its response stored, a retransmit finds the
/// stored response; a retransmit leaves the table as it is, so every later one finds it
/// again; and a sweep before the time to live keeps it. While the request is in
/// flight, a retransmit finds no response, so it is acknowledged and not handed on.
pub proof fn lemma_dedup_replay(
    es: Seq<DedupEntryView>,
    seq: u32,
    accepted_at: u64,
    bytes: Seq<u8>,
    answered_at: u64,
    swept_at: u64,
    ttl: u64,
    cap: nat,
)
    requires
        position(es, seq) < 0,
        answered_at <= swept_at,
        (swept_at - answered_at) < ttl,
    ensures
        ({
            let es1 = peer_insert(es, seq, accepted_at, cap);
            &&& position(es1, seq) >= 0
            &&& es1[position(es1, seq)].cached is None
        }),
        ({
            let es1 = peer_insert(es, seq, accepted_at, cap);
            let es2 = peer_record(es1, position(es1, seq), bytes, answered_at);
            &&& position(es2, seq) >= 0
            &&& es2[position(es2, seq)].cached == Some(bytes)
            &&& position(es2.filter(fresh_at(swept_at, ttl)), seq) >= 0
            &&& es2.filter(fresh_at(swept_at, ttl))[position(es2.filter(fresh_at(swept_at, ttl)), seq)].cached == Some(bytes)
        }),
{
    let es1 = peer_insert(es, seq, accepted_at, cap);
    assert(es1.last().seq == seq);
    let es2 = peer_record(es1, position(es1, seq), bytes, answered_at);
    assert(es2.last().seq == seq);
    let f = fresh_at(swept_at, ttl);
    reveal(Seq::filter);
    assert(f(es2.last()));
    let es3 = es2.filter(f);
    assert(es3 == es2.drop_last().filter(f).push(es2.last()));
    assert(es3.last() == es2.last());
}

proof fn lemma_position_absent(es: Seq<DedupEntryView>, seq: u32)
    requires
        forall|i: int| 0 <= i < es.len() ==> es[i].seq != seq,
    ensures
        position(es, seq) < 0,
    decreases es.len(),
{
    if es.len() > 0 {
        lemma_position_absent(es.drop_last(), seq);
    }
}

proof fn lemma_chain_prefix(
    states: Seq<Seq<DedupEntryView>>,
    seqs: Seq<u32>,
    times: Seq<u64>,
    cap: nat,
    k: int,
)
    requires
        cap >= 1,
        seqs.len() == times.len(),
        states.len() == seqs.len() + 1,
        states[0].len() <= cap,
        forall|i: int, j: int| 0 <= i < j < seqs.len() ==> seqs[i] != seqs[j],
        forall|i: int, m: int| 0 <= i < seqs.len() && 0 <= m < states[0].len() ==> states[0][m].seq != seqs[i],
        forall|j: int| 0 <= j < seqs.len() ==> (position(states[j], seqs[j]) < 0
            ==> states[j + 1] == peer_insert(states[j], seqs[j], times[j], cap)),
        0 <= k <= seqs.len(),
    ensures
        states[k] == peer_after_inserts(states[0], seqs.take(k), times.take(k), cap),
    decreases k,
{
    if k > 0 {
        lemma_chain_prefix(states, seqs, times, cap, k - 1);
        let prev_s = seqs.take(k - 1);
        let prev_t = times.take(k - 1);
        assert(seqs.take(k).drop_last() =~= prev_s);
        assert(times.take(k).drop_last() =~= prev_t);
        lemma_capacity_eviction(states[0], prev_s, prev_t, cap);
        let all = states[0] + accepted_entries(prev_s, prev_t);
        let cur = states[k - 1];
        assert(cur == keep_last(all, cap));
        // Every remembered sequence came before, so the new one is not among them.
        assert forall|m: int| 0 <= m < cur.len() implies cur[m].seq != seqs[k - 1] by {
            let off = if all.len() > cap { all.len() - cap } else { 0 };
            assert(cur[m] == all[m + off]);
            if m + off < states[0].len() {
                assert(all[m + off] == states[0][m + off]);
            } else {
                let i = m + off - states[0].len();
                assert(all[m + off] == accepted_entries(prev_s, prev_t)[i]);
                assert(prev_s[i] == seqs[i]);
            }
        }
        lemma_position_absent(cur, seqs[k - 1]);
        assert(states[k] == peer_insert(cur, seqs[k - 1], times[k - 1], cap));
    }
}

/// The same, over the tables that one sender's requests leave behind one after
/// another: when each new sequence is accepted as `peer_insert` says, after more than
/// `cap` distinct new sequences the sender's table holds exactly `cap` entries, the most
/// recent ones, none older than any evicted.
pub proof fn lemma_capacity_over_requests(
    states: Seq<Seq<DedupEntryView>>,
    seqs: Seq<u32>,
    times: Seq<u64>,
    cap: nat,
)
    requires
        cap >= 1,
        seqs.len() == times.len(),
        states.len() == seqs.len() + 1,
        states[0].len() <= cap,
        forall|i: int, j: int| 0 <= i < j < seqs.len() ==> seqs[i] != seqs[j],
        forall|i: int, m: int| 0 <= i < seqs.len() && 0 <= m < states[0].len() ==> states[0][m].seq != seqs[i],
        forall|j: int| 0 <= j < seqs.len() ==> (position(states[j], seqs[j]) < 0
            ==> states[j + 1] == peer_insert(states[j], seqs[j], times[j], cap)),
    ensures
        states.last() == keep_last(states[0] + accepted_entries(seqs, times), cap),
        states.last().len() <= cap,
        states[0].len() + seqs.len() >= cap ==> states.last().len() == cap,
        sorted_by_age(states[0] + accepted_entries(seqs, times)) ==> forall|d: int, k: int|
            0 <= d < states[0].len() + seqs.len() - cap && 0 <= k < states.last().len()
            ==> #[trigger] (states[0] + accepted_entries(seqs, times))[d].created <= #[trigger] states.last()[k].created,
{
    lemma_chain_prefix(states, seqs, times, cap, seqs.len() as int);
    assert(seqs.take(seqs.len() as int) =~= seqs);
    assert(times.take(times.len() as int) =~= times);
    lemma_capacity_eviction(states[0], seqs, times, cap);
}

/// Over any number of retransmits of an answered request, each leaving the table as
/// it was while the request is remembered, every one finds the same stored response:
/// none is handed to the agent again.
pub proof fn lemma_replay_over_retransmits(states: Seq<Seq<DedupEntryView>>, seq: u32, bytes: Seq<u8>)
    requires
        states.len() >= 1,
        position(states[0], seq) >= 0,
        states[0][position(states[0], seq)].cached == Some(bytes),
        forall|k: int| 0 <= k < states.len() - 1 ==> (position(states[k], seq) >= 0 ==> states[k + 1] == states[k]),
    ensures
        forall|k: int| 0 <= k < states.len() ==> #[trigger] states[k] == states[0],
        forall|k: int| 0 <= k < states.len() ==> position(#[trigger] states[k], seq) >= 0
            && states[k][position(states[k], seq)].cached == Some(bytes),
{
    assert forall|k: int| 0 <= k < states.len() implies #[trigger] states[k] == states[0] by {
        lemma_replay_prefix(states, seq, k);
    }
}

proof fn lemma_replay_prefix(states: Seq<Seq<DedupEntryView>>, seq: u32, k: int)
    requires
        0 <= k < states.len(),
        position(states[0], seq) >= 0,
        forall|j: int| 0 <= j < states.len() - 1 ==> (position(states[j], seq) >= 0 ==> states[j + 1] == states[j]),
    ensures
        states[k] == states[0],
    decreases k,
{
    if k > 0 {
        lemma_replay_prefix(states, seq, k - 1);
    }
}

} // verus!
