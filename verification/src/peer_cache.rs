//! The peer cache: when each peer was last seen, which cached peers are
//! taken back on start, and what is written out for the next start.

use vstd::prelude::*;
use crate::pex::{
    Addr, AddrPart, PexPolicy, spec_addr_view, spec_part_view, spec_prefix, spec_validated,
    validate_peer_addrs, parse_multiaddr, multiaddr_parse, format_multiaddr, multiaddr_text,
    parse_peer_id, peer_id_parse, format_peer_id, peer_id_text, copy_bytes,
};
use crate::proposal::bytes_eq;
use crate::runtime::lemma_empty_multiset;
use crate::table::{find_key, lemma_lookup_push, lemma_lookup_update, spec_lookup};

verus! {

/// How long a peer stays in the cache after it was last seen: a week.
pub const PEER_CACHE_MAX_AGE_MS: u64 = 604_800_000;

/// The most peers the cache file holds.
pub const PEER_CACHE_MAX_PEERS: usize = 2048;

/// The format version of the cache file.
pub const PEER_CACHE_VERSION: u8 = 1;

/// How many peers a load took back from each source.
#[derive(Clone, Copy, Debug, PartialEq, Eq)]
pub struct PeerCacheLoadStats {
    pub peer_cache_peers: usize,
    pub public_db_peers: usize,
}

/// A peer as stored in the public peer database.
#[derive(Clone, Debug, PartialEq, Eq)]
pub struct PeerCacheRecord {
    pub addrs: Vec<String>,
    pub last_seen_ms: u64,
}

/// A peer as written to the cache file.
#[derive(Clone, Debug, PartialEq, Eq)]
pub struct CachedPeer {
    pub peer_id: String,
    pub addrs: Vec<String>,
    pub last_seen_ms: u64,
}

/// The cache file.
#[derive(Clone, Debug, PartialEq, Eq)]
pub struct PeerCacheFile {
    pub version: u8,
    pub saved_at_ms: u64,
    pub peers: Vec<CachedPeer>,
}

/// The peer that the first peer component of an address names.
pub open spec fn spec_peer_of(parts: Seq<AddrPart>) -> Option<Seq<u8>>
    decreases parts.len(),
{
    if parts.len() == 0 {
        None
    } else {
        match parts[0] {
            AddrPart::P2p(b) => Some(b@),
            _ => spec_peer_of(parts.drop_first()),
        }
    }
}

/// The peer an address reaches: its first peer component, if any.
pub fn peer_id_from_multiaddr(addr: &Addr) -> (res: Option<Vec<u8>>)
    ensures
        match spec_peer_of(addr.parts@) {
            Some(b) => res matches Some(v) && v@ == b,
            None => res is None,
        },
{
    let mut i: usize = 0;
    assert(addr.parts@.skip(0) =~= addr.parts@);
    while i < addr.parts.len()
        invariant
            i <= addr.parts@.len(),
            spec_peer_of(addr.parts@) == spec_peer_of(addr.parts@.skip(i as int)),
        decreases addr.parts@.len() - i,
    {
        assert(addr.parts@.skip(i as int).drop_first() =~= addr.parts@.skip(i + 1));
        match &addr.parts[i] {
            AddrPart::P2p(b) => {
                return Some(copy_bytes(b));
            },
            _ => {},
        }
        i = i + 1;
    }
    assert(addr.parts@.skip(i as int).len() == 0);
    None
}

/// An address without a trailing peer component.
pub open spec fn spec_strip(parts: Seq<AddrPart>) -> Seq<AddrPart> {
    if parts.len() > 0 && parts.last() is P2p {
        parts.drop_last()
    } else {
        parts
    }
}

/// The same, over the tags and bytes of the components.
pub open spec fn spec_strip_view(v: Seq<(int, Seq<u8>)>) -> Seq<(int, Seq<u8>)> {
    if v.len() > 0 && v.last().0 == 1 {
        v.drop_last()
    } else {
        v
    }
}

/// Drop the last component of an address when it names a peer.
pub fn strip_p2p_component(addr: Addr) -> (res: Addr)
    ensures
        res.parts@ == spec_strip(addr.parts@),
        spec_addr_view(res) == spec_strip_view(spec_addr_view(addr)),
{
    let ghost before = addr.parts@;
    let mut out = addr;
    let res = match out.parts.pop() {
        None => out,
        Some(last) => {
            match last {
                AddrPart::P2p(_) => out,
                _ => {
                    out.parts.push(last);
                    assert(out.parts@ =~= before);
                    out
                },
            }
        },
    };
    proof {
        let f = |p: AddrPart| spec_part_view(p);
        if before.len() > 0 && before.last() is P2p {
            assert(before.drop_last().map_values(f) =~= before.map_values(f).drop_last());
        }
    }
    res
}

/// Whether a peer last seen at `last_seen_ms` is recent enough at `now_ms`.
pub open spec fn spec_fresh(now_ms: u64, last_seen_ms: u64) -> bool {
    now_ms - last_seen_ms <= PEER_CACHE_MAX_AGE_MS
}

/// Whether a peer last seen at `last_seen_ms` is still kept at `now_ms`.
pub fn within_max_age(now_ms: u64, last_seen_ms: u64) -> (res: bool)
    ensures
        res == spec_fresh(now_ms, last_seen_ms),
{
    now_ms.saturating_sub(last_seen_ms) <= PEER_CACHE_MAX_AGE_MS
}

/// The oldest last-seen time that a prune at `now_ms` keeps.
pub fn prune_cutoff_ms(now_ms: u64) -> (res: u64)
    ensures
        res == (if now_ms >= PEER_CACHE_MAX_AGE_MS { now_ms - PEER_CACHE_MAX_AGE_MS } else { 0 }),
{
    now_ms.saturating_sub(PEER_CACHE_MAX_AGE_MS)
}

/// The table of last-seen times as a map.
pub open spec fn spec_seen_map(e: Seq<(Vec<u8>, u64)>) -> Map<Seq<u8>, u64> {
    Map::new(|k: Seq<u8>| spec_lookup(e, k) is Some, |k: Seq<u8>| spec_lookup(e, k)->0)
}

/// The time recorded for `k`, or zero.
pub open spec fn spec_seen_or_zero(m: Map<Seq<u8>, u64>, k: Seq<u8>) -> u64 {
    if m.contains_key(k) { m[k] } else { 0 }
}

/// The table after `k` was seen at `t`: the later of the two times.
pub open spec fn spec_raise(m: Map<Seq<u8>, u64>, k: Seq<u8>, t: u64) -> Map<Seq<u8>, u64> {
    let old_t = spec_seen_or_zero(m, k);
    m.insert(k, if old_t < t { t } else { old_t })
}

/// What the node remembers of the peers it has seen.
pub struct PeerCache {
    pub local_peer_id: Vec<u8>,
    /// The policy for addresses learnt from peer exchange and the cache file.
    pub pex_policy: PexPolicy,
    /// The policy for the public peer database: no private or loopback addresses.
    pub public_policy: PexPolicy,
    /// When each peer was last seen; the first entry for a peer counts.
    pub peer_last_seen_ms: Vec<(Vec<u8>, u64)>,
    /// Whether the cache file is behind what is remembered.
    pub peer_cache_dirty: bool,
    /// Whether the public peer database has writes not yet flushed.
    pub public_peer_db_dirty: bool,
}

impl PeerCache {
    /// When each peer was last seen.
    pub open spec fn seen(&self) -> Map<Seq<u8>, u64> {
        spec_seen_map(self.peer_last_seen_ms@)
    }

    /// A cache that knows our own peer and the bootnodes' peers, all seen now.
    pub fn new(local_peer_id: Vec<u8>, bootnodes: &[Addr], pex_policy: PexPolicy, now_ms: u64) -> (res: Self)
        ensures
            res.local_peer_id@ == local_peer_id@,
            res.pex_policy == pex_policy,
            res.public_policy == (PexPolicy {
                max_peers_per_response: pex_policy.max_peers_per_response,
                max_addrs_per_peer: pex_policy.max_addrs_per_peer,
                allow_private_addrs: false,
                allow_loopback_addrs: false,
            }),
            !res.peer_cache_dirty,
            !res.public_peer_db_dirty,
            forall|k: Seq<u8>| #[trigger] res.seen().contains_key(k) <==> (k == local_peer_id@ || exists|i: int|
                0 <= i < bootnodes@.len() && spec_peer_of(bootnodes@[i].parts@) == Some(k)),
            forall|k: Seq<u8>| #[trigger] res.seen().contains_key(k) ==> res.seen()[k] == now_ms,
    {
        let public_policy = PexPolicy {
            max_peers_per_response: pex_policy.max_peers_per_response,
            max_addrs_per_peer: pex_policy.max_addrs_per_peer,
            allow_private_addrs: false,
            allow_loopback_addrs: false,
        };
        let mut entries: Vec<(Vec<u8>, u64)> = Vec::new();
        let first = (copy_bytes(&local_peer_id), now_ms);
        entries.push(first);
        proof {
            assert forall|q: Seq<u8>| #[trigger] spec_lookup(entries@, q) == (if q == local_peer_id@ {
                Some(now_ms)
            } else {
                None::<u64>
            }) by {
                lemma_lookup_push(Seq::empty(), first, q);
                assert(Seq::<(Vec<u8>, u64)>::empty().push(first) =~= entries@);
            }
        }
        let mut i: usize = 0;
        while i < bootnodes.len()
            invariant
                i <= bootnodes@.len(),
                forall|q: Seq<u8>| #[trigger] spec_lookup(entries@, q) is Some <==> (q == local_peer_id@ || exists|j: int|
                    0 <= j < i && spec_peer_of(bootnodes@[j].parts@) == Some(q)),
                forall|q: Seq<u8>| #[trigger] spec_lookup(entries@, q) is Some ==> spec_lookup(entries@, q) == Some(now_ms),
            decreases bootnodes@.len() - i,
        {
            match peer_id_from_multiaddr(&bootnodes[i]) {
                None => {},
                Some(peer) => {
                    match find_key(&entries, &peer) {
                        Some(_) => {},
                        None => {
                            let ghost before = entries@;
                            let x = (peer, now_ms);
                            entries.push(x);
                            proof {
                                assert forall|q: Seq<u8>| #[trigger] spec_lookup(entries@, q) == (if spec_lookup(before, q) is Some {
                                    spec_lookup(before, q)
                                } else if x.0@ == q {
                                    Some(now_ms)
                                } else {
                                    None
                                }) by {
                                    lemma_lookup_push(before, x, q);
                                }
                            }
                        },
                    }
                },
            }
            proof {
                assert forall|q: Seq<u8>| (q == local_peer_id@ || exists|j: int|
                    0 <= j < i + 1 && spec_peer_of(bootnodes@[j].parts@) == Some(q)) implies #[trigger] spec_lookup(entries@, q) is Some by {
                    if q != local_peer_id@ {
                        let j = choose|j: int| 0 <= j < i + 1 && spec_peer_of(bootnodes@[j].parts@) == Some(q);
                        if j < i {
                            assert(exists|j2: int| 0 <= j2 < i && spec_peer_of(bootnodes@[j2].parts@) == Some(q));
                        }
                    }
                }
                assert forall|q: Seq<u8>| #[trigger] spec_lookup(entries@, q) is Some implies (q == local_peer_id@ || exists|j: int|
                    0 <= j < i + 1 && spec_peer_of(bootnodes@[j].parts@) == Some(q)) by {
                    if q != local_peer_id@ && spec_peer_of(bootnodes@[i as int].parts@) != Some(q) {
                        let j = choose|j: int| 0 <= j < i && spec_peer_of(bootnodes@[j].parts@) == Some(q);
                        assert(0 <= j < i + 1);
                    }
                }
            }
            i = i + 1;
        }
        let res = PeerCache {
            local_peer_id,
            pex_policy,
            public_policy,
            peer_last_seen_ms: entries,
            peer_cache_dirty: false,
            public_peer_db_dirty: false,
        };
        res
    }

    /// When `peer` was last seen, if it ever was.
    pub fn last_seen_ms(&self, peer: &Vec<u8>) -> (res: Option<u64>)
        ensures
            res == (if self.seen().contains_key(peer@) { Some(self.seen()[peer@]) } else { None }),
    {
        match find_key(&self.peer_last_seen_ms, peer) {
            Some(i) => Some(self.peer_last_seen_ms[i].1),
            None => None,
        }
    }

    /// Record that `peer` was seen at `at_ms`, keeping the later time;
    /// whether the recorded time moved forward.
    fn raise_seen(&mut self, peer: Vec<u8>, at_ms: u64) -> (raised: bool)
        ensures
            final(self).seen() == spec_raise(old(self).seen(), peer@, at_ms),
            raised == (spec_seen_or_zero(old(self).seen(), peer@) < at_ms),
            final(self).local_peer_id == old(self).local_peer_id,
            final(self).pex_policy == old(self).pex_policy,
            final(self).public_policy == old(self).public_policy,
            final(self).peer_cache_dirty == old(self).peer_cache_dirty,
            final(self).public_peer_db_dirty == old(self).public_peer_db_dirty,
    {
        let ghost before = self.peer_last_seen_ms@;
        match find_key(&self.peer_last_seen_ms, &peer) {
            Some(i) => {
                let cur = self.peer_last_seen_ms[i].1;
                if cur < at_ms {
                    let x = (peer, at_ms);
                    self.peer_last_seen_ms[i] = x;
                    proof {
                        assert(self.peer_last_seen_ms@ == before.update(i as int, x));
                        assert forall|q: Seq<u8>| #[trigger] spec_lookup(self.peer_last_seen_ms@, q) == (if q == x.0@ {
                            Some(at_ms)
                        } else {
                            spec_lookup(before, q)
                        }) by {
                            lemma_lookup_update(before, i as int, x, q);
                        }
                        assert(self.seen() =~= spec_raise(spec_seen_map(before), peer@, at_ms));
                    }
                    true
                } else {
                    proof {
                        assert(self.seen() =~= spec_raise(spec_seen_map(before), peer@, at_ms));
                    }
                    false
                }
            },
            None => {
                let x = (peer, at_ms);
                self.peer_last_seen_ms.push(x);
                proof {
                    assert forall|q: Seq<u8>| #[trigger] spec_lookup(self.peer_last_seen_ms@, q) == (if q == x.0@ {
                        Some(at_ms)
                    } else {
                        spec_lookup(before, q)
                    }) by {
                        lemma_lookup_push(before, x, q);
                    }
                    assert(self.seen() =~= spec_raise(spec_seen_map(before), peer@, at_ms));
                }
                0 < at_ms
            },
        }
    }

    /// Record that `peer` was seen at `at_ms`. Our own peer is never
    /// recorded, and a recorded time never moves back; the cache file is
    /// behind once a time moved forward.
    pub fn mark_seen(&mut self, peer: Vec<u8>, at_ms: u64)
        ensures
            peer@ == old(self).local_peer_id@ ==> final(self).seen() == old(self).seen()
                && final(self).peer_cache_dirty == old(self).peer_cache_dirty,
            peer@ != old(self).local_peer_id@ ==> final(self).seen() == spec_raise(old(self).seen(), peer@, at_ms)
                && final(self).peer_cache_dirty == (old(self).peer_cache_dirty
                    || spec_seen_or_zero(old(self).seen(), peer@) < at_ms),
            final(self).local_peer_id == old(self).local_peer_id,
            final(self).pex_policy == old(self).pex_policy,
            final(self).public_policy == old(self).public_policy,
            final(self).public_peer_db_dirty == old(self).public_peer_db_dirty,
    {
        if bytes_eq(&peer, &self.local_peer_id) {
            return;
        }
        if self.raise_seen(peer, at_ms) {
            self.peer_cache_dirty = true;
        }
    }

    /// Record a peer found through peer exchange: it is marked seen and the
    /// cache file is behind.
    pub fn note_pex_discovered_peer(&mut self, peer: Vec<u8>, at_ms: u64)
        ensures
            peer@ == old(self).local_peer_id@ ==> final(self).seen() == old(self).seen(),
            peer@ != old(self).local_peer_id@ ==> final(self).seen() == spec_raise(old(self).seen(), peer@, at_ms),
            final(self).peer_cache_dirty,
            final(self).local_peer_id == old(self).local_peer_id,
            final(self).pex_policy == old(self).pex_policy,
            final(self).public_policy == old(self).public_policy,
            final(self).public_peer_db_dirty == old(self).public_peer_db_dirty,
    {
        self.mark_seen(peer, at_ms);
        self.peer_cache_dirty = true;
    }
}

/// The addresses among `texts` that parse, in order.
pub open spec fn spec_parse_all(texts: Seq<String>) -> Seq<Addr>
    decreases texts.len(),
{
    if texts.len() == 0 {
        Seq::empty()
    } else {
        let prev = spec_parse_all(texts.drop_last());
        match multiaddr_parse(texts.last()@) {
            Some(a) => prev.push(a),
            None => prev,
        }
    }
}

fn parse_all(texts: &Vec<String>) -> (res: Vec<Addr>)
    ensures
        res@ == spec_parse_all(texts@),
{
    let mut out: Vec<Addr> = Vec::new();
    let mut i: usize = 0;
    while i < texts.len()
        invariant
            i <= texts@.len(),
            out@ == spec_parse_all(texts@.take(i as int)),
        decreases texts@.len() - i,
    {
        assert(texts@.take(i + 1).drop_last() =~= texts@.take(i as int));
        match parse_multiaddr(texts[i].as_str()) {
            Some(a) => out.push(a),
            None => {},
        }
        i = i + 1;
    }
    assert(texts@.take(texts@.len() as int) =~= texts@);
    out
}

/// The addresses kept for `peer`: those the policy validates, without
/// their peer component.
pub open spec fn spec_kept_views(peer: Seq<u8>, addrs: Seq<Addr>, policy: PexPolicy) -> Seq<Seq<(int, Seq<u8>)>> {
    spec_validated(peer, addrs, policy.allow_private_addrs, policy.allow_loopback_addrs,
        spec_prefix(addrs, policy.max_addrs_per_peer as int).len() as int).map_values(
        |v: Seq<(int, Seq<u8>)>| spec_strip_view(v),
    )
}

fn kept_addrs(peer: &Vec<u8>, addrs: &[Addr], policy: &PexPolicy) -> (res: Vec<Addr>)
    ensures
        res@.map_values(|a: Addr| spec_addr_view(a)) == spec_kept_views(peer@, addrs@, *policy),
{
    let mut validated = match validate_peer_addrs(peer, addrs, policy) {
        Ok(v) => v,
        Err(_) => Vec::new(),
    };
    let ghost all = validated@.map_values(|a: Addr| spec_addr_view(a));
    let ghost n = validated@.len();
    let mut out: Vec<Addr> = Vec::new();
    while validated.len() > 0
        invariant
            all.len() == n,
            out@.len() + validated@.len() == n,
            validated@.map_values(|a: Addr| spec_addr_view(a)) == all.skip(out@.len() as int),
            out@.map_values(|a: Addr| spec_addr_view(a)) == all.take(out@.len() as int).map_values(
                |v: Seq<(int, Seq<u8>)>| spec_strip_view(v),
            ),
        decreases validated@.len(),
    {
        let ghost before = out@;
        let ghost vb = validated@;
        let a = validated.remove(0);
        proof {
            assert(spec_addr_view(a) == all[before.len() as int]) by {
                assert(vb.map_values(|a: Addr| spec_addr_view(a))[0] == spec_addr_view(vb[0]));
            }
            assert(validated@ =~= vb.drop_first());
            assert(vb.map_values(|a: Addr| spec_addr_view(a)) == all.skip(before.len() as int));
            assert(validated@.map_values(|a: Addr| spec_addr_view(a)) =~= vb.map_values(|a: Addr| spec_addr_view(a)).drop_first());
            assert(all.skip(before.len() as int).drop_first() =~= all.skip(before.len() + 1 as int));
        }
        let b = strip_p2p_component(a);
        out.push(b);
        proof {
            assert(all.take(before.len() + 1 as int) =~= all.take(before.len() as int).push(all[before.len() as int]));
            assert(out@ == before.push(b));
            assert(out@.map_values(|a: Addr| spec_addr_view(a)) =~= before.map_values(|a: Addr| spec_addr_view(a)).push(spec_addr_view(b)));
            assert(all.take(before.len() + 1 as int).map_values(|v: Seq<(int, Seq<u8>)>| spec_strip_view(v))
                =~= all.take(before.len() as int).map_values(|v: Seq<(int, Seq<u8>)>| spec_strip_view(v)).push(spec_strip_view(all[before.len() as int])));
            assert(out@.map_values(|a: Addr| spec_addr_view(a)) =~= all.take(out@.len() as int).map_values(
                |v: Seq<(int, Seq<u8>)>| spec_strip_view(v),
            ));
        }
    }
    proof {
        assert(all.take(n as int) =~= all);
    }
    out
}

/// The texts of the addresses that can be written as multiaddresses.
pub open spec fn spec_texts(vs: Seq<Seq<(int, Seq<u8>)>>) -> Seq<Seq<char>>
    decreases vs.len(),
{
    if vs.len() == 0 {
        Seq::empty()
    } else {
        let prev = spec_texts(vs.drop_last());
        match multiaddr_text(vs.last()) {
            Some(t) => prev.push(t),
            None => prev,
        }
    }
}

fn addr_texts(addrs: &Vec<Addr>) -> (res: Vec<String>)
    ensures
        res@.map_values(|s: String| s@) == spec_texts(addrs@.map_values(|a: Addr| spec_addr_view(a))),
{
    let mut out: Vec<String> = Vec::new();
    let mut i: usize = 0;
    while i < addrs.len()
        invariant
            i <= addrs@.len(),
            out@.map_values(|s: String| s@) == spec_texts(addrs@.take(i as int).map_values(|a: Addr| spec_addr_view(a))),
        decreases addrs@.len() - i,
    {
        assert(addrs@.take(i + 1).map_values(|a: Addr| spec_addr_view(a)).drop_last()
            =~= addrs@.take(i as int).map_values(|a: Addr| spec_addr_view(a)));
        match format_multiaddr(&addrs[i]) {
            Some(t) => {
                let ghost before = out@;
                out.push(t);
                assert(out@.map_values(|s: String| s@) =~= before.map_values(|s: String| s@).push(t@));
            },
            None => {},
        }
        i = i + 1;
    }
    assert(addrs@.take(addrs@.len() as int) =~= addrs@);
    out
}

/// A stored record, by its address texts and time.
pub open spec fn spec_record_view(r: Option<PeerCacheRecord>) -> Option<(Seq<Seq<char>>, u64)> {
    match r {
        Some(rec) => Some((rec.addrs@.map_values(|s: String| s@), rec.last_seen_ms)),
        None => None,
    }
}

/// The record stored for `peer`: the texts of its kept addresses, when
/// there is one.
pub open spec fn spec_record(peer: Seq<u8>, addrs: Seq<Addr>, last_seen_ms: u64, policy: PexPolicy) -> Option<(Seq<Seq<char>>, u64)> {
    let texts = spec_texts(spec_kept_views(peer, addrs, policy));
    if texts.len() > 0 { Some((texts, last_seen_ms)) } else { None }
}

/// What the public peer database stores for `peer`: the addresses the
/// policy validates, without their peer component, as text; nothing when
/// none is left.
pub fn peer_cache_record_for_addrs(peer: &Vec<u8>, addrs: &[Addr], last_seen_ms: u64, policy: &PexPolicy) -> (res: Option<PeerCacheRecord>)
    ensures
        spec_record_view(res) == spec_record(peer@, addrs@, last_seen_ms, *policy),
{
    let kept = kept_addrs(peer, addrs, policy);
    let texts = addr_texts(&kept);
    if texts.len() == 0 {
        assert(texts@.map_values(|s: String| s@).len() == 0);
        return None;
    }
    Some(PeerCacheRecord { addrs: texts, last_seen_ms })
}

/// What a cached peer gives back: its id and kept addresses, when it is
/// recent, its id parses and is not ours, and an address is kept.
pub open spec fn spec_admit(
    now_ms: u64,
    peer_text: Seq<char>,
    addr_texts: Seq<String>,
    last_seen_ms: u64,
    local: Seq<u8>,
    policy: PexPolicy,
) -> Option<(Seq<u8>, Seq<Seq<(int, Seq<u8>)>>)> {
    if !spec_fresh(now_ms, last_seen_ms) {
        None
    } else {
        match peer_id_parse(peer_text) {
            None => None,
            Some(pid) => if pid == local {
                None
            } else {
                let kept = spec_kept_views(pid, spec_parse_all(addr_texts), policy);
                if kept.len() == 0 { None } else { Some((pid, kept)) }
            },
        }
    }
}

/// A cached peer's time, the order of entries in the cache file: newest first.
pub open spec fn newest_first() -> spec_fn(CachedPeer, CachedPeer) -> bool {
    |a: CachedPeer, b: CachedPeer| a.last_seen_ms >= b.last_seen_ms
}

/// What is written for a peer to the cache file: its id and the texts of
/// its kept addresses, when it is not ours, has been seen recently and
/// an address is kept.
pub open spec fn spec_cache_entry(
    now_ms: u64,
    peer: Seq<u8>,
    addrs: Seq<Addr>,
    local: Seq<u8>,
    seen: Map<Seq<u8>, u64>,
    policy: PexPolicy,
) -> Option<(Seq<char>, Seq<Seq<char>>, u64)> {
    let last = spec_seen_or_zero(seen, peer);
    let texts = spec_texts(spec_kept_views(peer, addrs, policy));
    if peer == local || addrs.len() == 0 || last == 0 || !spec_fresh(now_ms, last) || texts.len() == 0 {
        None
    } else {
        match peer_id_text(peer) {
            Some(t) => Some((t, texts, last)),
            None => None,
        }
    }
}

/// A cache file entry, by its texts and time.
pub open spec fn spec_cached_view(c: Option<CachedPeer>) -> Option<(Seq<char>, Seq<Seq<char>>, u64)> {
    match c {
        Some(p) => Some((p.peer_id@, p.addrs@.map_values(|s: String| s@), p.last_seen_ms)),
        None => None,
    }
}

impl PeerCache {
    /// Take back a peer read from the cache file (`public` false, checked
    /// with the peer exchange policy) or the public peer database (`public`
    /// true, checked with the public policy): its id and the addresses to
    /// dial, and its time is raised to the stored one.
    pub fn admit_cached_peer(
        &mut self,
        now_ms: u64,
        peer_text: &str,
        addr_texts: &Vec<String>,
        last_seen_ms: u64,
        public: bool,
    ) -> (res: Option<(Vec<u8>, Vec<Addr>)>)
        ensures
            match spec_admit(now_ms, peer_text@, addr_texts@, last_seen_ms, old(self).local_peer_id@,
                if public { old(self).public_policy } else { old(self).pex_policy }) {
                None => res is None && final(self).seen() == old(self).seen(),
                Some(e) => res matches Some(r) && r.0@ == e.0
                    && r.1@.map_values(|a: Addr| spec_addr_view(a)) == e.1
                    && final(self).seen() == spec_raise(old(self).seen(), e.0, last_seen_ms),
            },
            final(self).local_peer_id == old(self).local_peer_id,
            final(self).pex_policy == old(self).pex_policy,
            final(self).public_policy == old(self).public_policy,
            final(self).peer_cache_dirty == old(self).peer_cache_dirty,
            final(self).public_peer_db_dirty == old(self).public_peer_db_dirty,
    {
        if !within_max_age(now_ms, last_seen_ms) {
            return None;
        }
        let pid = match parse_peer_id(peer_text) {
            Some(p) => p,
            None => return None,
        };
        if bytes_eq(&pid, &self.local_peer_id) {
            return None;
        }
        let parsed = parse_all(addr_texts);
        let kept = if public {
            kept_addrs(&pid, parsed.as_slice(), &self.public_policy)
        } else {
            kept_addrs(&pid, parsed.as_slice(), &self.pex_policy)
        };
        if kept.len() == 0 {
            assert(kept@.map_values(|a: Addr| spec_addr_view(a)).len() == 0);
            return None;
        }
        let key = copy_bytes(&pid);
        self.raise_seen(key, last_seen_ms);
        Some((pid, kept))
    }

    /// What the public peer database is seeded with for a known peer: its
    /// record at its last-seen time, unless it is ours or was never seen.
    pub fn seed_record(&self, peer: &Vec<u8>, addrs: &[Addr]) -> (res: Option<PeerCacheRecord>)
        ensures
            spec_record_view(res) == (if peer@ == self.local_peer_id@ || spec_seen_or_zero(self.seen(), peer@) == 0 {
                None
            } else {
                spec_record(peer@, addrs@, spec_seen_or_zero(self.seen(), peer@), self.public_policy)
            }),
    {
        if bytes_eq(peer, &self.local_peer_id) {
            return None;
        }
        let last = match self.last_seen_ms(peer) {
            Some(t) => t,
            None => 0,
        };
        if last == 0 {
            return None;
        }
        peer_cache_record_for_addrs(peer, addrs, last, &self.public_policy)
    }

    /// What the cache file holds for a known peer at `now_ms`.
    pub fn cache_entry(&self, now_ms: u64, peer: &Vec<u8>, addrs: &[Addr]) -> (res: Option<CachedPeer>)
        ensures
            spec_cached_view(res) == spec_cache_entry(now_ms, peer@, addrs@, self.local_peer_id@, self.seen(), self.pex_policy),
    {
        if bytes_eq(peer, &self.local_peer_id) || addrs.len() == 0 {
            return None;
        }
        let last = match self.last_seen_ms(peer) {
            Some(t) => t,
            None => 0,
        };
        if last == 0 || !within_max_age(now_ms, last) {
            return None;
        }
        let kept = kept_addrs(peer, addrs, &self.pex_policy);
        let texts = addr_texts(&kept);
        if texts.len() == 0 {
            assert(texts@.map_values(|s: String| s@).len() == 0);
            return None;
        }
        match format_peer_id(peer.as_slice()) {
            Some(id) => Some(CachedPeer { peer_id: id, addrs: texts, last_seen_ms: last }),
            None => None,
        }
    }
}

/// The entries of the cache file: newest first, and no more than
/// `PEER_CACHE_MAX_PEERS` of them.
pub fn order_cache_entries(peers: Vec<CachedPeer>) -> (res: Vec<CachedPeer>)
    ensures
        res@.len() == (if peers@.len() < PEER_CACHE_MAX_PEERS { peers@.len() } else { PEER_CACHE_MAX_PEERS as nat }),
        exists|sorted: Seq<CachedPeer>| {
            &&& vstd::relations::sorted_by(sorted, newest_first())
            &&& sorted.to_multiset() == peers@.to_multiset()
            &&& res@ == sorted.take(res@.len() as int)
        },
{
    broadcast use vstd::seq_lib::group_to_multiset_ensures, vstd::multiset::group_multiset_axioms;
    let ghost leq = newest_first();
    let ghost input = peers@;
    let mut rest = peers;
    let mut out: Vec<CachedPeer> = Vec::new();
    proof {
        lemma_empty_multiset::<CachedPeer>();
        assert(out@.to_multiset().add(rest@.to_multiset()) =~= input.to_multiset());
    }
    while rest.len() > 0
        invariant
            leq == newest_first(),
            vstd::relations::sorted_by(out@, leq),
            out@.to_multiset().add(rest@.to_multiset()) == input.to_multiset(),
            out@.len() + rest@.len() == input.len(),
        decreases rest@.len(),
    {
        let ghost rest_before = rest@;
        let x = rest.remove(0);
        proof {
            assert(rest_before[0] == x);
            assert(rest_before.contains(x));
            vstd::seq_lib::to_multiset_contains(rest_before, x);
            vstd::seq_lib::to_multiset_remove(rest_before, 0);
        }
        let mut j: usize = 0;
        while j < out.len() && out[j].last_seen_ms >= x.last_seen_ms
            invariant
                j <= out@.len(),
                forall|k: int| 0 <= k < j ==> (#[trigger] out@[k]).last_seen_ms >= x.last_seen_ms,
            decreases out@.len() - j,
        {
            j = j + 1;
        }
        let ghost before = out@;
        out.insert(j, x);
        proof {
            assert forall|p: int, q: int| 0 <= p < q < out@.len() implies leq(out@[p], out@[q]) by {
                if q < j {
                    assert(out@[p] == before[p] && out@[q] == before[q]);
                    assert(leq(before[p], before[q]));
                } else if q == j {
                    assert(out@[p] == before[p]);
                } else if p < j {
                    assert(out@[p] == before[p] && out@[q] == before[q - 1]);
                    assert(leq(before[p], before[q - 1]));
                } else if p == j {
                    assert(out@[q] == before[q - 1]);
                    assert(before[j as int].last_seen_ms < x.last_seen_ms);
                    if q - 1 > j {
                        assert(leq(before[j as int], before[q - 1]));
                    }
                } else {
                    assert(out@[p] == before[p - 1] && out@[q] == before[q - 1]);
                    assert(leq(before[p - 1], before[q - 1]));
                }
            }
            assert(out@ == before.insert(j as int, x));
            vstd::seq_lib::to_multiset_insert(before, j as int, x);
            assert(rest@ =~= rest_before.remove(0));
            assert(out@.to_multiset().add(rest@.to_multiset()) =~= input.to_multiset());
        }
    }
    assert(rest@ =~= Seq::<CachedPeer>::empty());
    proof {
        lemma_empty_multiset::<CachedPeer>();
        assert(out@.to_multiset().add(vstd::multiset::Multiset::empty()) =~= out@.to_multiset());
    }
    let ghost sorted = out@;
    out.truncate(PEER_CACHE_MAX_PEERS);
    proof {
        if sorted.len() <= PEER_CACHE_MAX_PEERS {
            assert(sorted.take(sorted.len() as int) =~= sorted);
        }
    }
    out
}

/// A recorded time never moves back, and recording a peer leaves every
/// other peer's time as it was.
pub proof fn lemma_seen_never_decreases(m: Map<Seq<u8>, u64>, k: Seq<u8>, t: u64, q: Seq<u8>)
    ensures
        spec_raise(m, k, t).contains_key(k),
        spec_raise(m, k, t)[k] >= t,
        m.contains_key(q) ==> spec_raise(m, k, t).contains_key(q) && spec_raise(m, k, t)[q] >= m[q],
        q != k ==> spec_raise(m, k, t).contains_key(q) == m.contains_key(q)
            && (m.contains_key(q) ==> spec_raise(m, k, t)[q] == m[q]),
{
}

} // verus!
