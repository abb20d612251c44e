use libp2p::PeerId;
use onvm::pex::{
    addr_allowed, build_response, extract_ip, format_multiaddr, is_public_addr, normalize_p2p_component,
    parse_multiaddr, parse_response, rewrite_unspecified_listen_addrs, validate_peer_addrs, AddrPart, IpAddr,
    PexPeer, PexPolicy, PexResponse,
};

#[test]
fn normalizes_trailing_p2p_component() {
    let peer_a = PeerId::random();
    let peer_b = PeerId::random();

    let addr = parse_multiaddr(&format!("/ip4/127.0.0.1/tcp/1234/p2p/{peer_a}")).unwrap();
    let normalized = normalize_p2p_component(addr, &peer_b.to_bytes());

    let last = normalized.parts.last().unwrap();
    assert!(matches!(last, AddrPart::P2p(p) if *p == peer_b.to_bytes()));
}

#[test]
fn rejects_unspecified_ips_even_when_private_allowed() {
    let peer = PeerId::random();
    let policy = PexPolicy { allow_private_addrs: true, allow_loopback_addrs: true, ..Default::default() };

    let addrs = vec![parse_multiaddr("/ip4/0.0.0.0/tcp/37000").unwrap()];
    let validated = validate_peer_addrs(&peer.to_bytes(), &addrs, &policy).unwrap();
    assert!(validated.is_empty());
}

#[test]
fn rewrites_unspecified_listen_addrs_using_observed_ip() {
    let listen = vec![parse_multiaddr("/ip4/0.0.0.0/tcp/37000").unwrap()];
    let observed = parse_multiaddr("/ip4/192.168.1.10/tcp/54321").unwrap();

    let rewritten = rewrite_unspecified_listen_addrs(listen, &observed);
    assert_eq!(rewritten.len(), 1);
    assert_eq!(format_multiaddr(&rewritten[0]).unwrap(), "/ip4/192.168.1.10/tcp/37000".to_string());
}

#[test]
fn parse_response_overwrites_mismatched_p2p_component() {
    let peer_a = PeerId::random();
    let peer_b = PeerId::random();
    let policy = PexPolicy { allow_private_addrs: true, allow_loopback_addrs: true, ..Default::default() };

    let resp = PexResponse {
        peers: vec![PexPeer { peer_id: peer_b.to_string(), addrs: vec![format!("/ip4/127.0.0.1/tcp/1234/p2p/{peer_a}")] }],
    };

    let parsed = parse_response(resp, &policy, &PeerId::random().to_bytes());
    assert_eq!(parsed.len(), 1);
    let addr = &parsed[0].1[0];
    let last = addr.parts.last().unwrap();
    assert!(matches!(last, AddrPart::P2p(p) if *p == peer_b.to_bytes()));
}

#[test]
fn default_policy() {
    let p = PexPolicy::default();
    assert_eq!(p.max_peers_per_response, 128);
    assert_eq!(p.max_addrs_per_peer, 8);
    assert!(p.allow_private_addrs);
    assert!(!p.allow_loopback_addrs);
}

#[test]
fn address_ranges() {
    let allowed = |s: &str, private: bool, loopback: bool| addr_allowed(&parse_multiaddr(s).unwrap(), private, loopback);
    assert!(!allowed("/ip4/224.0.0.1/tcp/1", true, true));
    assert!(!allowed("/ip4/127.0.0.1/tcp/1", true, false));
    assert!(allowed("/ip4/127.0.0.1/tcp/1", true, true));
    assert!(!allowed("/ip4/10.1.2.3/tcp/1", false, true));
    assert!(!allowed("/ip4/172.20.0.1/tcp/1", false, true));
    assert!(allowed("/ip4/172.32.0.1/tcp/1", false, true));
    assert!(!allowed("/ip4/169.254.1.1/tcp/1", false, true));
    assert!(allowed("/ip4/8.8.8.8/tcp/1", false, false));
    assert!(!allowed("/ip6/::/tcp/1", true, true));
    assert!(!allowed("/ip6/::1/tcp/1", true, false));
    assert!(!allowed("/ip6/ff02::1/tcp/1", true, true));
    assert!(!allowed("/ip6/fd00::1/tcp/1", false, true));
    assert!(!allowed("/ip6/fe80::1/tcp/1", false, true));
    assert!(allowed("/ip6/2001:db8::1/tcp/1", false, false));
    assert!(allowed("/dns4/example.com/tcp/1", false, false));
    assert!(is_public_addr(&parse_multiaddr("/ip4/1.1.1.1/tcp/80").unwrap()));
    assert!(!is_public_addr(&parse_multiaddr("/ip4/192.168.0.1/tcp/80").unwrap()));
}

#[test]
fn first_ip_is_extracted() {
    assert_eq!(extract_ip(&parse_multiaddr("/ip4/1.2.3.4/tcp/5").unwrap()), Some(IpAddr::V4([1, 2, 3, 4])));
    assert_eq!(extract_ip(&parse_multiaddr("/dns4/x.org/tcp/5").unwrap()), None);
    let rewritten = rewrite_unspecified_listen_addrs(
        vec![parse_multiaddr("/ip4/0.0.0.0/tcp/1").unwrap()],
        &parse_multiaddr("/dns4/x.org/tcp/5").unwrap(),
    );
    assert_eq!(format_multiaddr(&rewritten[0]).unwrap(), "/ip4/0.0.0.0/tcp/1");
}

#[test]
fn duplicate_addresses_are_listed_once() {
    let peer = PeerId::random();
    let policy = PexPolicy::default();
    let a = parse_multiaddr("/ip4/8.8.8.8/tcp/1").unwrap();
    let validated = validate_peer_addrs(&peer.to_bytes(), &[a.clone(), a], &policy).unwrap();
    assert_eq!(validated.len(), 1);
    assert_eq!(format_multiaddr(&validated[0]).unwrap(), format!("/ip4/8.8.8.8/tcp/1/p2p/{peer}"));
}

#[test]
fn response_skips_self_requester_and_unshareable_peers() {
    let me = PeerId::random();
    let asker = PeerId::random();
    let good = PeerId::random();
    let local_only = PeerId::random();
    let policy = PexPolicy::default();
    let candidates = vec![
        (me.to_bytes(), vec![parse_multiaddr("/ip4/8.8.8.8/tcp/1").unwrap()]),
        (asker.to_bytes(), vec![parse_multiaddr("/ip4/8.8.4.4/tcp/1").unwrap()]),
        (local_only.to_bytes(), vec![parse_multiaddr("/ip4/127.0.0.1/tcp/1").unwrap()]),
        (good.to_bytes(), vec![parse_multiaddr("/ip4/1.1.1.1/tcp/1").unwrap()]),
    ];
    let resp = build_response(&candidates, &policy, 10, &me.to_bytes(), &asker.to_bytes());
    assert_eq!(resp.peers.len(), 1);
    assert_eq!(resp.peers[0].peer_id, good.to_string());
    assert_eq!(resp.peers[0].addrs, vec!["/ip4/1.1.1.1/tcp/1".to_string()]);
    let none = build_response(&candidates, &policy, 0, &me.to_bytes(), &asker.to_bytes());
    assert!(none.peers.is_empty());
}

#[test]
fn peer_id_text_parses_back_to_its_bytes() {
    for _ in 0..5 {
        let bytes = libp2p::PeerId::random().to_bytes();
        let text = onvm::pex::format_peer_id(&bytes).unwrap();
        assert_eq!(onvm::pex::parse_peer_id(&text), Some(bytes));
    }
    assert_eq!(onvm::pex::format_peer_id(&[1, 2, 3]), None);
}
