use libp2p::PeerId;
use onvm::peer_cache::{
    order_cache_entries, peer_cache_record_for_addrs, peer_id_from_multiaddr, prune_cutoff_ms, strip_p2p_component,
    within_max_age, CachedPeer, PeerCache, PEER_CACHE_MAX_AGE_MS, PEER_CACHE_MAX_PEERS,
};
use onvm::pex::{format_multiaddr, parse_multiaddr, AddrPart, PexPolicy};
use onvm::ping::{answer_ping, new_ping, record_ping_failure, PING_PROTOCOL};
use onvm::protocol::{HandshakeRequest, HandshakeResponse, TRANSFER_PROTOCOL};
use onvm::service::{
    admit_connection, answer_handshake, effective_max_total, ensure_p2p_component, handshake_accepted, initial_redial,
    pex_request_due, redial_backoff_secs, redial_step, ConnectionVerdict, JobRoute, PeerTransfer, RedialState,
    RedialStep, TRANSFER_BUFFER_LIMIT,
};

fn open_policy() -> PexPolicy {
    PexPolicy { allow_private_addrs: true, allow_loopback_addrs: true, ..Default::default() }
}

#[test]
fn peer_id_is_read_from_the_p2p_component() {
    let peer = PeerId::random();
    let addr = parse_multiaddr(&format!("/ip4/10.0.0.1/tcp/4001/p2p/{peer}")).unwrap();
    assert_eq!(peer_id_from_multiaddr(&addr), Some(peer.to_bytes()));
    let bare = parse_multiaddr("/ip4/10.0.0.1/tcp/4001").unwrap();
    assert_eq!(peer_id_from_multiaddr(&bare), None);
}

#[test]
fn strip_removes_only_a_trailing_peer_component() {
    let peer = PeerId::random();
    let addr = parse_multiaddr(&format!("/ip4/10.0.0.1/tcp/4001/p2p/{peer}")).unwrap();
    let stripped = strip_p2p_component(addr);
    assert_eq!(format_multiaddr(&stripped).unwrap(), "/ip4/10.0.0.1/tcp/4001");
    let bare = parse_multiaddr("/ip4/10.0.0.1/tcp/4001").unwrap();
    let same = strip_p2p_component(bare.clone());
    assert_eq!(same, bare);
}

#[test]
fn ensure_p2p_appends_only_when_missing() {
    let peer = PeerId::random();
    let bare = parse_multiaddr("/ip4/10.0.0.1/tcp/4001").unwrap();
    let with = ensure_p2p_component(bare, &peer.to_bytes());
    assert_eq!(with.parts.len(), 3);
    assert!(matches!(with.parts.last().unwrap(), AddrPart::P2p(p) if *p == peer.to_bytes()));
    let other = PeerId::random();
    let kept = ensure_p2p_component(with.clone(), &other.to_bytes());
    assert_eq!(kept, with);
}

#[test]
fn age_limits_of_the_cache() {
    assert!(within_max_age(PEER_CACHE_MAX_AGE_MS + 10, 10));
    assert!(!within_max_age(PEER_CACHE_MAX_AGE_MS + 11, 10));
    assert!(within_max_age(5, 100));
    assert_eq!(prune_cutoff_ms(PEER_CACHE_MAX_AGE_MS + 500), 500);
    assert_eq!(prune_cutoff_ms(100), 0);
}

#[test]
fn new_cache_knows_local_and_bootnode_peers() {
    let local = PeerId::random();
    let boot = PeerId::random();
    let addr = parse_multiaddr(&format!("/ip4/1.2.3.4/tcp/1/p2p/{boot}")).unwrap();
    let cache = PeerCache::new(local.to_bytes(), &[addr], PexPolicy::default(), 1000);
    assert_eq!(cache.last_seen_ms(&local.to_bytes()), Some(1000));
    assert_eq!(cache.last_seen_ms(&boot.to_bytes()), Some(1000));
    assert_eq!(cache.last_seen_ms(&PeerId::random().to_bytes()), None);
    assert!(!cache.public_policy.allow_private_addrs);
    assert!(!cache.public_policy.allow_loopback_addrs);
    assert_eq!(cache.public_policy.max_addrs_per_peer, PexPolicy::default().max_addrs_per_peer);
}

#[test]
fn mark_seen_never_moves_back_and_skips_local() {
    let local = PeerId::random();
    let other = PeerId::random();
    let mut cache = PeerCache::new(local.to_bytes(), &[], PexPolicy::default(), 1000);
    cache.mark_seen(local.to_bytes(), 5000);
    assert_eq!(cache.last_seen_ms(&local.to_bytes()), Some(1000));
    assert!(!cache.peer_cache_dirty);
    cache.mark_seen(other.to_bytes(), 3000);
    assert_eq!(cache.last_seen_ms(&other.to_bytes()), Some(3000));
    assert!(cache.peer_cache_dirty);
    cache.peer_cache_dirty = false;
    cache.mark_seen(other.to_bytes(), 2000);
    assert_eq!(cache.last_seen_ms(&other.to_bytes()), Some(3000));
    assert!(!cache.peer_cache_dirty);
    cache.note_pex_discovered_peer(other.to_bytes(), 2500);
    assert_eq!(cache.last_seen_ms(&other.to_bytes()), Some(3000));
    assert!(cache.peer_cache_dirty);
}

#[test]
fn cached_peers_are_taken_back_when_fresh_and_valid() {
    let local = PeerId::random();
    let other = PeerId::random();
    let mut cache = PeerCache::new(local.to_bytes(), &[], open_policy(), 0);
    let addrs = vec!["/ip4/127.0.0.1/tcp/4001".to_string(), "not an address".to_string()];
    let now = 10_000;

    let back = cache.admit_cached_peer(now, &other.to_string(), &addrs, 9_000, false).unwrap();
    assert_eq!(back.0, other.to_bytes());
    assert_eq!(back.1.len(), 1);
    assert_eq!(format_multiaddr(&back.1[0]).unwrap(), "/ip4/127.0.0.1/tcp/4001");
    assert_eq!(cache.last_seen_ms(&other.to_bytes()), Some(9_000));

    // The public policy refuses loopback addresses.
    let third = PeerId::random();
    assert!(cache.admit_cached_peer(now, &third.to_string(), &addrs, 9_000, true).is_none());
    assert_eq!(cache.last_seen_ms(&third.to_bytes()), None);

    // Stale, malformed, or our own peer.
    assert!(cache.admit_cached_peer(PEER_CACHE_MAX_AGE_MS + 9_001, &third.to_string(), &addrs, 0, false).is_none());
    assert!(cache.admit_cached_peer(now, "garbage", &addrs, 9_000, false).is_none());
    assert!(cache.admit_cached_peer(now, &local.to_string(), &addrs, 9_000, false).is_none());
}

#[test]
fn records_hold_stripped_address_texts() {
    let peer = PeerId::random();
    let addr = parse_multiaddr(&format!("/ip4/8.8.8.8/tcp/4001/p2p/{peer}")).unwrap();
    let private = parse_multiaddr("/ip4/192.168.0.1/tcp/4001").unwrap();
    let policy = PexPolicy { allow_private_addrs: false, allow_loopback_addrs: false, ..Default::default() };
    let record = peer_cache_record_for_addrs(&peer.to_bytes(), &[addr, private.clone()], 77, &policy).unwrap();
    assert_eq!(record.addrs, vec!["/ip4/8.8.8.8/tcp/4001".to_string()]);
    assert_eq!(record.last_seen_ms, 77);
    assert!(peer_cache_record_for_addrs(&peer.to_bytes(), &[private], 77, &policy).is_none());
}

#[test]
fn cache_entries_need_a_recent_sighting() {
    let local = PeerId::random();
    let peer = PeerId::random();
    let mut cache = PeerCache::new(local.to_bytes(), &[], open_policy(), 0);
    let addr = parse_multiaddr("/ip4/127.0.0.1/tcp/4001").unwrap();
    assert!(cache.cache_entry(100, &peer.to_bytes(), &[addr.clone()]).is_none());
    cache.mark_seen(peer.to_bytes(), 50);
    let entry = cache.cache_entry(100, &peer.to_bytes(), &[addr.clone()]).unwrap();
    assert_eq!(entry.peer_id, peer.to_string());
    assert_eq!(entry.addrs, vec!["/ip4/127.0.0.1/tcp/4001".to_string()]);
    assert_eq!(entry.last_seen_ms, 50);
    assert!(cache.cache_entry(PEER_CACHE_MAX_AGE_MS + 51, &peer.to_bytes(), &[addr.clone()]).is_none());
    assert!(cache.cache_entry(100, &peer.to_bytes(), &[]).is_none());
    assert!(cache.cache_entry(100, &local.to_bytes(), &[addr]).is_none());
}

#[test]
fn cache_file_is_newest_first_and_bounded() {
    let mk = |t: u64| CachedPeer { peer_id: format!("p{t}"), addrs: vec![], last_seen_ms: t };
    let ordered = order_cache_entries(vec![mk(3), mk(9), mk(1), mk(7)]);
    let times: Vec<u64> = ordered.iter().map(|p| p.last_seen_ms).collect();
    assert_eq!(times, vec![9, 7, 3, 1]);

    let many: Vec<CachedPeer> = (0..(PEER_CACHE_MAX_PEERS as u64 + 10)).map(mk).collect();
    let kept = order_cache_entries(many);
    assert_eq!(kept.len(), PEER_CACHE_MAX_PEERS);
    assert_eq!(kept[0].last_seen_ms, PEER_CACHE_MAX_PEERS as u64 + 9);
    assert_eq!(kept[PEER_CACHE_MAX_PEERS - 1].last_seen_ms, 10);
}

#[test]
fn handshake_answers_match_and_mismatch() {
    let fp = [7u8; 32];
    let good = HandshakeRequest {
        node_version: "0.1.0".to_string(),
        transfer_protocol: TRANSFER_PROTOCOL.to_string(),
        transfer_codec_fingerprint: fp,
    };
    let ok = answer_handshake(&good, &fp, "0.1.0");
    assert!(ok.ok);
    assert_eq!(ok.message, None);
    assert_eq!(ok.transfer_protocol, TRANSFER_PROTOCOL);
    assert_eq!(ok.transfer_codec_fingerprint, fp);

    let bad = HandshakeRequest { transfer_codec_fingerprint: [8u8; 32], ..good.clone() };
    let refused = answer_handshake(&bad, &fp, "0.1.0");
    assert!(!refused.ok);
    assert_eq!(
        refused.message.unwrap(),
        format!("transfer mismatch: expected proto={} fp={}", TRANSFER_PROTOCOL, "07".repeat(32))
    );
    let old_proto = HandshakeRequest { transfer_protocol: "/onvm/transfer/2.0.0".to_string(), ..good };
    assert!(!answer_handshake(&old_proto, &fp, "0.1.0").ok);
}

#[test]
fn handshake_reply_checks() {
    let fp = [1u8; 32];
    let reply = HandshakeResponse {
        ok: true,
        node_version: "x".to_string(),
        transfer_protocol: TRANSFER_PROTOCOL.to_string(),
        transfer_codec_fingerprint: fp,
        message: None,
    };
    assert!(handshake_accepted(&reply, &fp));
    assert!(!handshake_accepted(&reply, &[2u8; 32]));
    assert!(!handshake_accepted(&HandshakeResponse { ok: false, ..reply.clone() }, &fp));
    assert!(!handshake_accepted(&HandshakeResponse { transfer_protocol: "other".to_string(), ..reply }, &fp));
}

#[test]
fn transfers_wait_for_the_handshake() {
    let mut p: PeerTransfer<u32> = PeerTransfer::new();
    assert!(p.on_connected());
    assert!(!p.on_connected());
    for j in 0..(TRANSFER_BUFFER_LIMIT as u32 + 2) {
        assert!(matches!(p.on_transfer_job(j), JobRoute::Buffered));
    }
    assert_eq!(p.queue.len(), TRANSFER_BUFFER_LIMIT);
    assert_eq!(p.queue[0], 2);
    let flushed = p.on_handshake_result(true, true);
    assert_eq!(flushed.len(), TRANSFER_BUFFER_LIMIT);
    assert_eq!(flushed[0], 2);
    assert_eq!(*flushed.last().unwrap(), TRANSFER_BUFFER_LIMIT as u32 + 1);
    assert!(p.ready && !p.blocked && !p.handshake_inflight);
    assert!(matches!(p.on_transfer_job(99), JobRoute::Send(99)));
}

#[test]
fn failed_handshake_blocks_transfers() {
    let mut p: PeerTransfer<u32> = PeerTransfer::new();
    p.on_connected();
    assert!(matches!(p.on_transfer_job(1), JobRoute::Buffered));
    let flushed = p.on_handshake_result(false, true);
    assert!(flushed.is_empty());
    assert!(p.blocked && !p.ready && p.queue.is_empty());
    assert!(matches!(p.on_transfer_job(2), JobRoute::Drop));
    assert!(!p.on_connected());
    p.on_disconnected(1);
    assert!(p.blocked);
    p.on_disconnected(0);
    assert!(!p.blocked && !p.ready && !p.handshake_inflight);
    assert!(p.on_connected());
}

#[test]
fn closing_one_of_several_connections_allows_a_new_handshake() {
    let mut p: PeerTransfer<u32> = PeerTransfer::new();
    assert!(p.on_connected());
    p.on_disconnected(1);
    assert!(!p.handshake_inflight);
    assert!(p.on_connected());
}

#[test]
fn redial_backoff_doubles_up_to_thirty_seconds() {
    assert_eq!(redial_backoff_secs(1), 2);
    assert_eq!(redial_backoff_secs(2), 4);
    assert_eq!(redial_backoff_secs(4), 16);
    assert_eq!(redial_backoff_secs(5), 30);
    assert_eq!(redial_backoff_secs(19), 30);
    assert_eq!(redial_backoff_secs(0), 1);
}

#[test]
fn redial_steps() {
    let s = initial_redial(1_000);
    assert_eq!(s, RedialState { next_attempt_at_ms: 1_250, attempts: 0 });
    assert_eq!(redial_step(s, 1_000), RedialStep::Wait);
    assert_eq!(redial_step(s, 1_250), RedialStep::Dial(RedialState { next_attempt_at_ms: 3_250, attempts: 1 }));
    let tired = RedialState { next_attempt_at_ms: 0, attempts: 20 };
    assert_eq!(redial_step(tired, 5), RedialStep::GiveUp);
    let late = RedialState { next_attempt_at_ms: 0, attempts: 7 };
    assert_eq!(redial_step(late, 100), RedialStep::Dial(RedialState { next_attempt_at_ms: 30_100, attempts: 8 }));
}

#[test]
fn connection_limits_in_order() {
    assert_eq!(admit_connection(true, 10, 10, 0, 100, 1, 2), ConnectionVerdict::InboundLimit);
    assert_eq!(admit_connection(false, 10, 10, 100, 100, 1, 2), ConnectionVerdict::TotalLimit);
    assert_eq!(admit_connection(true, 9, 10, 100, 100, 1, 2), ConnectionVerdict::TotalLimit);
    assert_eq!(admit_connection(false, 0, 10, 5, 100, 3, 2), ConnectionVerdict::PerPeerLimit);
    assert_eq!(admit_connection(false, 0, 10, 5, 100, 2, 2), ConnectionVerdict::Accept);
    assert_eq!(effective_max_total(true, true, 0, 50), 1);
    assert_eq!(effective_max_total(true, false, 10, 50), 50);
    assert_eq!(effective_max_total(true, true, 10, 50), 10);
    assert_eq!(effective_max_total(false, true, 10, 0), 1);
    assert!(pex_request_due(true, 2, 8, false));
    assert!(!pex_request_due(true, 8, 8, false));
    assert!(!pex_request_due(true, 2, 8, true));
    assert!(!pex_request_due(false, 2, 8, false));
}

#[test]
fn ping_and_pong() {
    assert_eq!(PING_PROTOCOL, "/onvm/ping/1.0.0");
    let a = new_ping(42);
    let b = new_ping(42);
    assert_eq!(a.sent_at_ms, 42);
    assert_ne!(a.nonce, b.nonce);
    let pong = answer_ping(&a, 50);
    assert_eq!(pong.nonce, a.nonce);
    assert_eq!(pong.received_at_ms, 50);
    assert_eq!(record_ping_failure(0, 3), (1, false));
    assert_eq!(record_ping_failure(2, 3), (3, true));
    assert_eq!(record_ping_failure(u32::MAX, 3), (u32::MAX, true));
}

#[test]
fn listen_port_is_bumped_on_every_tcp_component() {
    let addr = parse_multiaddr("/ip4/127.0.0.1/tcp/4001").unwrap();
    let next = onvm::node::bump_tcp_port(&addr).unwrap();
    assert_eq!(format_multiaddr(&next).unwrap(), "/ip4/127.0.0.1/tcp/4002");
    assert_eq!(onvm::node::port_from_multiaddr(&next), Some(4002));
    assert_eq!(onvm::node::port_from_multiaddr(&addr), Some(4001));
}

#[test]
fn listen_port_cannot_be_bumped_past_the_largest() {
    let addr = parse_multiaddr("/ip4/127.0.0.1/tcp/65535").unwrap();
    assert!(onvm::node::bump_tcp_port(&addr).is_none());
    let no_tcp = parse_multiaddr("/ip4/127.0.0.1/udp/4001").unwrap();
    assert!(onvm::node::bump_tcp_port(&no_tcp).is_none());
    assert_eq!(onvm::node::port_from_multiaddr(&no_tcp), None);
}
